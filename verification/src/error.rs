//! The bridge's error type.

use vstd::prelude::*;
use vstd::string::StringExecFns;

verus! {

/// A failure surfaced by the bridge.
///
/// `MessageConversionError` is the one failure the bridge itself can raise:
/// the command string holds an embedded null byte and so cannot become a
/// null-terminated buffer. `Other` is reserved for failures reported from
/// outside the bridge; no current operation produces it.
#[derive(Debug, PartialEq, Eq)]
pub enum SketchybarError {
    MessageConversionError,
    Other(String),
}

impl SketchybarError {
    /// The characters of this error's human-readable description.
    pub open spec fn text(&self) -> Seq<char> {
        match self {
            SketchybarError::MessageConversionError => "Failed to convert message to CString"@,
            SketchybarError::Other(description) => "Sketchybar error: "@ + description@,
        }
    }

    /// A human-readable description of the failure.
    pub fn description(&self) -> (r: String)
        ensures
            r@ == self.text(),
    {
        match self {
            SketchybarError::MessageConversionError => {
                String::from_str("Failed to convert message to CString")
            },
            SketchybarError::Other(description) => {
                String::from_str("Sketchybar error: ").concat(description.as_str())
            },
        }
    }
}

} // verus!

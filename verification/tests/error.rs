use sketchybar_rs::error::SketchybarError;

#[test]
fn conversion_error_description() {
    let text = SketchybarError::MessageConversionError.description();
    assert_eq!(text, "Failed to convert message to CString".to_string());
}

#[test]
fn other_error_description() {
    let text = SketchybarError::Other("boom".to_string()).description();
    assert_eq!(text, "Sketchybar error: boom".to_string());
}

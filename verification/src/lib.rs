//! Core of a binding to the `sketchybar` status bar's C interface.
//!
//! The binding's only real logic is marshalling: turning a host string into
//! the null-terminated byte buffer that crosses the foreign boundary, and
//! reading a null-terminated reply buffer back into a host string. Those
//! conversions, together with the binding's error type, live here as pure,
//! verified functions on bytes and strings. The foreign calls themselves,
//! which Verus cannot see, stay outside this crate and hand plain byte
//! buffers in and out.

pub mod error;
pub mod marshal;

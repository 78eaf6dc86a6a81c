use sketchybar_rs::error::SketchybarError;
use sketchybar_rs::marshal::from_nul_terminated;
use sketchybar_rs::marshal::to_nul_terminated;

#[test]
fn encodes_a_plain_command() {
    let buffer = to_nul_terminated("--query bar").unwrap();
    assert_eq!(buffer, b"--query bar\0".to_vec());
}

#[test]
fn encodes_the_empty_string() {
    let buffer = to_nul_terminated("").unwrap();
    assert_eq!(buffer, vec![0u8]);
}

#[test]
fn rejects_an_embedded_null() {
    let result = to_nul_terminated("bad\0cmd");
    assert!(matches!(result, Err(SketchybarError::MessageConversionError)));
}

#[test]
fn rejects_a_leading_null() {
    let result = to_nul_terminated("\0");
    assert!(matches!(result, Err(SketchybarError::MessageConversionError)));
}

#[test]
fn decodes_a_terminated_reply() {
    assert_eq!(from_nul_terminated(b"{}\0"), "{}".to_string());
}

#[test]
fn decodes_an_unterminated_reply_whole() {
    assert_eq!(from_nul_terminated(b"abc"), "abc".to_string());
}

#[test]
fn decodes_only_up_to_the_terminator() {
    assert_eq!(from_nul_terminated(b"ab\0cd"), "ab".to_string());
}

#[test]
fn decodes_an_empty_reply() {
    assert_eq!(from_nul_terminated(b"\0"), "".to_string());
    assert_eq!(from_nul_terminated(b""), "".to_string());
}

#[test]
fn replaces_ill_formed_utf8() {
    assert_eq!(from_nul_terminated(b"\xffab\0"), "\u{fffd}ab".to_string());
}

#[test]
fn round_trips_a_command() {
    let buffer = to_nul_terminated("hello").unwrap();
    assert_eq!(from_nul_terminated(&buffer), "hello".to_string());
}

#[test]
fn round_trips_multibyte_characters() {
    let message = "h\u{e9}llo \u{2603}";
    let buffer = to_nul_terminated(message).unwrap();
    assert_eq!(from_nul_terminated(&buffer), message.to_string());
}

#[test]
fn query_reply_scenario() {
    // One command dispatch as the foreign call sees it: the command goes out
    // as a null-terminated buffer, and a stub reply of "{}" comes back.
    let request = to_nul_terminated("--query bar").unwrap();
    assert_eq!(request.last(), Some(&0u8));
    let stub_reply = b"{}\0";
    assert_eq!(from_nul_terminated(stub_reply), "{}".to_string());
}

#[test]
fn lookup_reply_scenario() {
    // A value lookup inside a callback: the key crosses as a null-terminated
    // buffer and the configured value comes back exactly.
    let key = to_nul_terminated("NAME").unwrap();
    assert_eq!(key, b"NAME\0".to_vec());
    let configured_value = b"front_app\0";
    assert_eq!(from_nul_terminated(configured_value), "front_app".to_string());
}

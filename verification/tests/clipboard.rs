//! Tests of the clipboard module.
use base64::Engine as _;
use terminal::clipboard::ClipboardManager;

#[test]
fn test_osc52_set_format() {
    let result = ClipboardManager::osc52_set("Hello");
    // Should be ESC]52;c;<base64>BEL
    assert!(result.starts_with("\x1b]52;c;"));
    assert!(result.ends_with('\x07'));
}

#[test]
fn test_osc52_query_format() {
    let result = ClipboardManager::osc52_query();
    assert_eq!(result, "\x1b]52;c;?\x07");
}

#[test]
fn test_osc52_parse_response() {
    // "Hello" in base64 is "SGVsbG8="
    let params = vec![b"c".to_vec(), b"SGVsbG8=".to_vec()];
    let result = ClipboardManager::parse_osc52_response(&params);
    assert_eq!(result, Some("Hello".to_string()));
}

#[test]
fn test_osc52_parse_invalid_base64() {
    let params = vec![b"c".to_vec(), b"!!!invalid!!!".to_vec()];
    let result = ClipboardManager::parse_osc52_response(&params);
    assert!(result.is_none());
}

#[test]
fn test_osc52_parse_query() {
    // Query should return None (not actual content)
    let params = vec![b"c".to_vec(), b"?".to_vec()];
    let result = ClipboardManager::parse_osc52_response(&params);
    assert!(result.is_none());
}

#[test]
fn test_osc52_parse_wrong_board() {
    let params = vec![b"x".to_vec(), b"SGVsbG8=".to_vec()];
    let result = ClipboardManager::parse_osc52_response(&params);
    assert!(result.is_none());
}

#[test]
fn test_osc52_parse_utf8() {
    // "Hello 🌍" in base64
    let original = "Hello 🌍";
    let encoded = base64::engine::general_purpose::STANDARD.encode(original.as_bytes());
    let params = vec![b"c".to_vec(), encoded.into_bytes()];
    let result = ClipboardManager::parse_osc52_response(&params);
    assert_eq!(result, Some(original.to_string()));
}

use kronforce::db::models::ExecutionStatus;
use kronforce::executor::utils::{bytes_to_hex, hex_to_bytes, shell_escape, should_retry};

#[test]
fn shell_words_are_quoted() {
    assert_eq!(shell_escape("it's", false), "'it'\\''s'");
    assert_eq!(shell_escape("plain", false), "'plain'");
    assert_eq!(shell_escape("say \"hi\"", true), "\"say \\\"hi\\\"\"");
    assert_eq!(shell_escape("", false), "''");
}

#[test]
fn hex_encodes_two_lowercase_digits_per_byte() {
    assert_eq!(bytes_to_hex(&[0x00, 0x0f, 0xab, 0xff]), "000fabff");
    assert_eq!(bytes_to_hex(&[]), "");
}

#[test]
fn hex_decodes_and_reports_errors() {
    assert_eq!(hex_to_bytes("de ad BE ef").unwrap(), vec![0xde, 0xad, 0xbe, 0xef]);
    assert_eq!(hex_to_bytes("abc"), Err("odd length".to_string()));
    assert_eq!(hex_to_bytes("zz"), Err("invalid digit found in string".to_string()));
    assert_eq!(hex_to_bytes("+f").unwrap(), vec![0x0f]);
    assert_eq!(hex_to_bytes("").unwrap(), Vec::<u8>::new());
    assert_eq!(hex_to_bytes("a\u{e9}"), Err("odd length".to_string()));
    assert_eq!(hex_to_bytes("\u{e9}"), Err("invalid digit found in string".to_string()));
}

#[test]
fn hex_round_trip() {
    let bytes: Vec<u8> = (0..=255u8).collect();
    assert_eq!(hex_to_bytes(&bytes_to_hex(&bytes)).unwrap(), bytes);
}

#[test]
fn retry_only_failures_within_budget() {
    assert!(should_retry(3, ExecutionStatus::Failed, 1));
    assert!(should_retry(3, ExecutionStatus::TimedOut, 3));
    assert!(!should_retry(3, ExecutionStatus::Failed, 4));
    assert!(!should_retry(0, ExecutionStatus::Failed, 1));
    assert!(!should_retry(3, ExecutionStatus::Succeeded, 1));
    assert!(!should_retry(3, ExecutionStatus::Cancelled, 1));
}

#[test]
fn hex_decode_then_encode_lowercases() {
    let text = "DE ad 0F 9c";
    let bytes = hex_to_bytes(text).unwrap();
    assert_eq!(bytes_to_hex(&bytes), text.replace(' ', "").to_ascii_lowercase());
    assert_eq!(bytes_to_hex(&hex_to_bytes("").unwrap()), "");
}

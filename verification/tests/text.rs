use media_server::text::{is_blank_str, split_segment_fields, split_trimmed_segment_fields, trim_str};

fn fields(r: Option<(String, String, String)>) -> Option<(String, String, String)> {
    r
}

#[test]
fn split_fields_keeps_text_rest() {
    let (a, b, c) = split_segment_fields("0 1200  And so").unwrap();
    assert_eq!(a, "0");
    assert_eq!(b, "1200");
    assert_eq!(c, " And so");
}

#[test]
fn split_fields_punctuation() {
    let (a, b, c) = split_segment_fields("2400 3600 ,").unwrap();
    assert_eq!((a.as_str(), b.as_str(), c.as_str()), ("2400", "3600", ","));
}

#[test]
fn split_fields_invalid() {
    assert!(fields(split_segment_fields("invalid")).is_none());
    assert!(split_segment_fields("").is_none());
    assert!(split_segment_fields("100 200").is_none());
    let (a, b, c) = split_segment_fields("100 200 ").unwrap();
    assert_eq!((a.as_str(), b.as_str(), c.as_str()), ("100", "200", ""));
}

#[test]
fn split_trimmed_fields() {
    let (a, b, c) = split_trimmed_segment_fields("  10 20 hello world \n").unwrap();
    assert_eq!((a.as_str(), b.as_str(), c.as_str()), ("10", "20", "hello world"));
    assert!(split_trimmed_segment_fields(" \t\n").is_none());
    assert!(split_trimmed_segment_fields("10 20\n").is_none());
}

#[test]
fn trim_and_blank() {
    assert_eq!(trim_str("\u{3000} a b\u{2003}\n"), "a b");
    assert_eq!(trim_str("   "), "");
    assert!(is_blank_str(" \u{85}\t\r\n\u{a0}"));
    assert!(is_blank_str(""));
    assert!(!is_blank_str(" x "));
    for s in ["x", " y ", "\t\tz\n", "\u{2028}q\u{205f}"] {
        assert_eq!(trim_str(s), s.trim());
    }
}

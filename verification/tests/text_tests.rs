use averagedb_api::text::{
    chars_of, decimal_string, header_text, segment_before_colon, starts_with,
};

#[test]
fn decimal_of_numbers() {
    assert_eq!(decimal_string(0), "0");
    assert_eq!(decimal_string(7), "7");
    assert_eq!(decimal_string(10), "10");
    assert_eq!(decimal_string(1000000), "1000000");
    assert_eq!(decimal_string(u64::MAX), u64::MAX.to_string());
}

#[test]
fn header_text_accepts_visible_ascii_and_tab() {
    assert_eq!(header_text(b"abc 123~"), Some("abc 123~".to_string()));
    assert_eq!(header_text(b"a\tb"), Some("a\tb".to_string()));
    assert_eq!(header_text(b""), Some(String::new()));
}

#[test]
fn header_text_rejects_control_and_non_ascii_bytes() {
    assert_eq!(header_text(b"a\nb"), None);
    assert_eq!(header_text(&[0x7f]), None);
    assert_eq!(header_text("ä".as_bytes()), None);
    assert_eq!(header_text(&[31]), None);
}

#[test]
fn segment_before_colon_cases() {
    assert_eq!(segment_before_colon("abc:def:ghi"), "abc");
    assert_eq!(segment_before_colon("abc"), "abc");
    assert_eq!(segment_before_colon(":x"), "");
    assert_eq!(segment_before_colon(""), "");
    assert_eq!(segment_before_colon("ä:b"), "ä");
}

#[test]
fn starts_with_cases() {
    assert!(starts_with("enterprise-acme", "enterprise-"));
    assert!(!starts_with("enterprise", "enterprise-"));
    assert!(starts_with("x", ""));
    assert!(!starts_with("Enterprise-x", "enterprise-"));
}

#[test]
fn chars_in_order() {
    let v = chars_of("häj");
    assert_eq!(v, vec!['h', 'ä', 'j']);
    assert_eq!(chars_of(""), Vec::<char>::new());
}

use strife::grouping::{standards_root, usable_provider_id, EmailThreadReason, GroupingEvidence};
use strife::text::{push_ascii_lowercase, push_bytes, str_eq, truncate_at_char_boundary};

#[test]
fn header_values_are_trimmed_of_unicode_whitespace() {
    let padded = GroupingEvidence {
        in_reply_to: Some("\u{3000} parent@example.test\u{a0}\t"),
        ..GroupingEvidence::default()
    };
    assert_eq!(
        standards_root(&padded),
        Some(("parent@example.test", EmailThreadReason::References))
    );
    let blank = GroupingEvidence {
        in_reply_to: Some("\u{2003}\u{2003}"),
        ..GroupingEvidence::default()
    };
    assert_eq!(standards_root(&blank), None);
    assert!(usable_provider_id(" 1234567890 "));
    assert!(!usable_provider_id("   "));
}

#[test]
fn string_equality_is_exact_and_case_sensitive() {
    assert!(str_eq("Photos", "Photos"));
    assert!(!str_eq("Photos", "photos"));
    assert!(!str_eq("Photo", "Photos"));
    assert!(str_eq("", ""));
}

#[test]
fn ascii_lowercasing_leaves_other_bytes_alone() {
    let mut out = vec![b'>'];
    push_ascii_lowercase(&mut out, "ÉcOLE Z@".as_bytes());
    assert_eq!(out, ">École z@".as_bytes());
    let mut raw = Vec::new();
    push_bytes(&mut raw, b"abc");
    assert_eq!(raw, b"abc");
}

#[test]
fn truncation_never_splits_a_character() {
    assert_eq!(truncate_at_char_boundary("héllo", 2), "h");
    assert_eq!(truncate_at_char_boundary("héllo", 3), "hé");
    assert_eq!(truncate_at_char_boundary("héllo", 0), "");
    assert_eq!(truncate_at_char_boundary("héllo", 100), "héllo");
}

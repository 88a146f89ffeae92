use strife::grouping::{
    derive_group_id, group_email, standards_root, usable_provider_id, EmailDuplicateReason,
    EmailThreadReason, GroupingEvidence, DUPLICATE_NAMESPACE, THREAD_NAMESPACE,
};
use uuid::Uuid;

fn evidence<'a>() -> GroupingEvidence<'a> {
    GroupingEvidence::default()
}

fn v5(namespace: u128, name: &str) -> u128 {
    Uuid::new_v5(&Uuid::from_u128(namespace), name.as_bytes()).as_u128()
}

#[test]
fn a_reply_chain_shares_one_thread_even_without_its_parent() {
    let root_refs = vec!["root@example.test".to_owned()];
    let parent = group_email(&GroupingEvidence {
        normalized_message_id: Some("root@example.test"),
        ..evidence()
    });
    // The parent itself was never exported; the reply still finds the thread.
    let reply = group_email(&GroupingEvidence {
        normalized_message_id: Some("reply@example.test"),
        reference_ids: &root_refs,
        ..evidence()
    });
    assert_eq!(parent.thread_group_id, reply.thread_group_id);
    assert_eq!(reply.thread_reason, EmailThreadReason::References);
}

#[test]
fn a_fork_keeps_both_branches_in_the_same_thread() {
    let refs = vec!["root@example.test".to_owned()];
    let deeper = vec!["root@example.test".to_owned(), "a@example.test".to_owned()];
    let first = group_email(&GroupingEvidence {
        reference_ids: &refs,
        normalized_message_id: Some("a@example.test"),
        ..evidence()
    });
    let second = group_email(&GroupingEvidence {
        reference_ids: &deeper,
        normalized_message_id: Some("b@example.test"),
        ..evidence()
    });
    // Both hang from the same root, which is the head of References.
    assert_eq!(first.thread_group_id, second.thread_group_id);
}

#[test]
fn mutually_referencing_messages_terminate() {
    let a_refs = vec!["b@example.test".to_owned()];
    let b_refs = vec!["a@example.test".to_owned()];
    let a = group_email(&GroupingEvidence {
        normalized_message_id: Some("a@example.test"),
        reference_ids: &a_refs,
        ..evidence()
    });
    let b = group_email(&GroupingEvidence {
        normalized_message_id: Some("b@example.test"),
        reference_ids: &b_refs,
        ..evidence()
    });
    assert!(a.thread_group_id.is_some());
    assert!(b.thread_group_id.is_some());
}

#[test]
fn subject_is_a_fallback_and_never_outranks_an_identifier() {
    let with_id = group_email(&GroupingEvidence {
        normalized_message_id: Some("x@example.test"),
        normalized_subject: Some("status update"),
        ..evidence()
    });
    assert_eq!(with_id.thread_reason, EmailThreadReason::MessageId);

    let without = group_email(&GroupingEvidence {
        normalized_subject: Some("status update"),
        ..evidence()
    });
    assert_eq!(without.thread_reason, EmailThreadReason::Subject);
    assert_ne!(with_id.thread_group_id, without.thread_group_id);
}

#[test]
fn a_provider_thread_id_wins_but_records_a_conflict() {
    let refs = vec!["root@example.test".to_owned()];
    let grouped = group_email(&GroupingEvidence {
        provider_thread_id: Some("1234567890"),
        reference_ids: &refs,
        normalized_message_id: Some("x@example.test"),
        ..evidence()
    });
    assert_eq!(grouped.thread_reason, EmailThreadReason::Provider);
    assert!(
        grouped.thread_conflict,
        "a disagreement with References must be recorded"
    );
}

#[test]
fn a_malformed_provider_thread_id_is_ignored() {
    let refs = vec!["root@example.test".to_owned()];
    for provider in ["", "   ", "not-a-thrid", "12ab34"] {
        let grouped = group_email(&GroupingEvidence {
            provider_thread_id: Some(provider),
            reference_ids: &refs,
            ..evidence()
        });
        assert_eq!(
            grouped.thread_reason,
            EmailThreadReason::References,
            "{provider:?} was trusted"
        );
        assert!(!grouped.thread_conflict);
    }
}

#[test]
fn duplicates_group_by_message_id_then_by_content() {
    let a = group_email(&GroupingEvidence {
        normalized_message_id: Some("same@example.test"),
        content_hash: Some("aaaa"),
        ..evidence()
    });
    let b = group_email(&GroupingEvidence {
        normalized_message_id: Some("SAME@example.test"),
        content_hash: Some("bbbb"),
        ..evidence()
    });
    // Message-ID comparison is case-insensitive, and it outranks content.
    assert_eq!(a.duplicate_group_id, b.duplicate_group_id);
    assert_eq!(a.duplicate_reason, EmailDuplicateReason::MessageId);

    let c = group_email(&GroupingEvidence {
        content_hash: Some("cccc"),
        ..evidence()
    });
    let d = group_email(&GroupingEvidence {
        content_hash: Some("cccc"),
        ..evidence()
    });
    assert_eq!(c.duplicate_group_id, d.duplicate_group_id);
    assert_eq!(c.duplicate_reason, EmailDuplicateReason::ContentHash);
    assert_ne!(a.duplicate_group_id, c.duplicate_group_id);
}

#[test]
fn a_message_with_no_evidence_is_grouped_with_nothing() {
    let grouped = group_email(&evidence());
    assert!(grouped.thread_group_id.is_none());
    assert!(grouped.duplicate_group_id.is_none());
    assert_eq!(grouped.thread_reason, EmailThreadReason::NoEvidence);
    assert_eq!(grouped.duplicate_reason, EmailDuplicateReason::NoEvidence);
}

#[test]
fn unicode_and_case_variants_of_a_subject_group_together() {
    let a = group_email(&GroupingEvidence {
        normalized_subject: Some("Réunion trimestrielle"),
        ..evidence()
    });
    let b = group_email(&GroupingEvidence {
        normalized_subject: Some("réunion trimestrielle"),
        ..evidence()
    });
    assert_eq!(a.thread_group_id, b.thread_group_id);
}

#[test]
fn group_ids_are_uuid_v5_of_the_namespaced_lowercased_key() {
    let refs = vec!["  Root@Example.TEST ".to_owned()];
    let grouped = group_email(&GroupingEvidence {
        reference_ids: &refs,
        normalized_message_id: Some("X@Example.test"),
        ..evidence()
    });
    assert_eq!(
        grouped.thread_group_id,
        Some(v5(THREAD_NAMESPACE, "root:root@example.test"))
    );
    assert_eq!(
        grouped.duplicate_group_id,
        Some(v5(DUPLICATE_NAMESPACE, "mid:x@example.test"))
    );
    let id = grouped.thread_group_id.unwrap();
    assert_eq!((id >> 76) & 0xf, 5, "version 5");
    assert_eq!((id >> 62) & 0x3, 2, "RFC 4122 variant");
    assert_eq!(
        derive_group_id(THREAD_NAMESPACE, "subject", "Status"),
        v5(THREAD_NAMESPACE, "subject:status")
    );
    assert_ne!(
        derive_group_id(THREAD_NAMESPACE, "subject", "x"),
        derive_group_id(DUPLICATE_NAMESPACE, "subject", "x")
    );
    assert_ne!(
        derive_group_id(THREAD_NAMESPACE, "subject", "x"),
        derive_group_id(THREAD_NAMESPACE, "root", "x")
    );
}

#[test]
fn a_usable_provider_id_is_authoritative_and_trimmed() {
    let refs = vec!["root@example.test".to_owned()];
    let with_headers = group_email(&GroupingEvidence {
        provider_thread_id: Some("  42  "),
        reference_ids: &refs,
        ..evidence()
    });
    let bare = group_email(&GroupingEvidence {
        provider_thread_id: Some("42"),
        ..evidence()
    });
    assert_eq!(with_headers.thread_reason, EmailThreadReason::Provider);
    assert_eq!(with_headers.thread_group_id, bare.thread_group_id);
    assert_eq!(bare.thread_group_id, Some(v5(THREAD_NAMESPACE, "thrid:42")));
    assert!(!bare.thread_conflict, "no headers, nothing to disagree with");
    // A provider that agrees with nothing but a message id is not a conflict:
    // only a References root can disagree.
    let own_id_only = group_email(&GroupingEvidence {
        provider_thread_id: Some("42"),
        normalized_message_id: Some("x@example.test"),
        ..evidence()
    });
    assert!(!own_id_only.thread_conflict);
}

#[test]
fn provider_ids_must_be_short_decimal_integers() {
    assert!(usable_provider_id("1234567890"));
    assert!(usable_provider_id(" \t17\n"));
    assert!(usable_provider_id(&"9".repeat(40)));
    assert!(!usable_provider_id(&"9".repeat(41)));
    assert!(!usable_provider_id(""));
    assert!(!usable_provider_id("   "));
    assert!(!usable_provider_id("12ab34"));
    assert!(!usable_provider_id("-12"));
    assert!(!usable_provider_id("١٢٣"), "non-ASCII digits are not trusted");
}

#[test]
fn in_reply_to_is_the_fallback_root_and_blank_references_are_skipped() {
    let blank_refs = vec!["   ".to_owned(), "".to_owned()];
    let evidence = GroupingEvidence {
        in_reply_to: Some(" parent@example.test "),
        reference_ids: &blank_refs,
        normalized_message_id: Some("me@example.test"),
        ..evidence()
    };
    assert_eq!(
        standards_root(&evidence),
        Some(("parent@example.test", EmailThreadReason::References))
    );
    let grouped = group_email(&evidence);
    assert_eq!(grouped.thread_reason, EmailThreadReason::References);
    assert_eq!(
        grouped.thread_group_id,
        Some(v5(THREAD_NAMESPACE, "root:parent@example.test"))
    );

    let refs = vec!["  ".to_owned(), "second@example.test".to_owned()];
    assert_eq!(
        standards_root(&GroupingEvidence {
            reference_ids: &refs,
            in_reply_to: Some("parent@example.test"),
            ..GroupingEvidence::default()
        }),
        Some(("second@example.test", EmailThreadReason::References))
    );
    assert_eq!(
        standards_root(&GroupingEvidence {
            normalized_message_id: Some(" "),
            ..GroupingEvidence::default()
        }),
        None
    );
}

#[test]
fn blank_values_count_as_absent() {
    let grouped = group_email(&GroupingEvidence {
        normalized_message_id: Some("  "),
        normalized_subject: Some("\t"),
        content_hash: Some(" "),
        ..evidence()
    });
    assert_eq!(grouped.thread_group_id, None);
    assert_eq!(grouped.duplicate_group_id, None);
    assert_eq!(grouped.thread_reason, EmailThreadReason::NoEvidence);
    assert_eq!(grouped.duplicate_reason, EmailDuplicateReason::NoEvidence);
}

#[test]
fn kinds_of_key_never_share_a_group() {
    let value = "same-value";
    let thrid = derive_group_id(THREAD_NAMESPACE, "thrid", value);
    let root = derive_group_id(THREAD_NAMESPACE, "root", value);
    let subject = derive_group_id(THREAD_NAMESPACE, "subject", value);
    assert_ne!(thrid, root);
    assert_ne!(thrid, subject);
    assert_ne!(root, subject);
    assert_ne!(
        derive_group_id(DUPLICATE_NAMESPACE, "mid", value),
        derive_group_id(DUPLICATE_NAMESPACE, "hash", value)
    );
}

#[test]
fn grouping_does_not_depend_on_arrival_order() {
    let refs_a = vec!["root@example.test".to_owned()];
    let refs_b = vec!["root@example.test".to_owned()];
    let first = group_email(&GroupingEvidence {
        reference_ids: &refs_a,
        normalized_message_id: Some("reply@example.test"),
        normalized_subject: Some("status"),
        ..evidence()
    });
    let owned_id = String::from("reply@example.test");
    let owned_subject = String::from("status");
    let later = group_email(&GroupingEvidence {
        reference_ids: &refs_b,
        normalized_message_id: Some(owned_id.as_str()),
        normalized_subject: Some(owned_subject.as_str()),
        ..evidence()
    });
    assert_eq!(first, later);
}

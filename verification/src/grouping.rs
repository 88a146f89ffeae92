//! Deterministic thread and duplicate grouping for archived mail.
//!
//! Grouping is computed per message from that message's own headers, never by
//! walking a chain of other messages. That choice is what makes it safe against
//! the shapes a decade-old export actually contains:
//!
//! - **Missing parents.** A reply whose parent was never exported still lands in
//!   the right thread, because the group is derived from the thread root named
//!   in `References`, not from a parent row that has to exist.
//! - **Cycles.** Two messages that reference each other cannot cause a loop,
//!   because nothing is traversed. The worst case is two groups instead of one.
//! - **Order of arrival.** A message computes the same group whether it is
//!   indexed first or last, so a backfill and a live import agree.
//!
//! Group ids are `UUIDv5` over a namespace and a normalized key, so the same
//! evidence always produces the same id without a lookup table.

use vstd::prelude::*;
use vstd::string::StringSliceAdditionalSpecFns;
use vstd::utf8::{encode_utf8, is_ascii_chars, is_ascii_chars_encode_utf8};

use crate::text::{ascii_lower_bytes, push_ascii_lowercase, push_bytes, trim, trimmed};

verus! {

/// Fixed forever. Changing it would silently re-thread the whole archive.
pub const THREAD_NAMESPACE: u128 = 0x3f8c210e_774b_5a92_b614_0d5a9c31e877u128;

/// Fixed forever; keeps duplicate keys apart from thread keys.
pub const DUPLICATE_NAMESPACE: u128 = 0xc40b93a1_182f_5d36_8e7a_22b041cf6d05u128;

/// The UUID that `uuid::Uuid::new_v5` derives from a namespace and a name.
pub uninterp spec fn uuid_v5_of(namespace: u128, name: Seq<u8>) -> u128;

/// `uuid::Uuid::new_v5`: the name-based (SHA-1) UUID of `name` in `namespace`.
///
/// Trusted: the result is the named function of exactly these two inputs, and
/// carries version 5 and the RFC 4122 variant, which `Builder::from_sha1_bytes`
/// writes into bytes 6 and 8. The hash itself is not restated.
#[verifier::external_body]
pub(crate) fn uuid_new_v5(namespace: u128, name: &[u8]) -> (id: u128)
    ensures
        id == uuid_v5_of(namespace, name@),
        (id >> 76u128) & 0xfu128 == 5,
        (id >> 62u128) & 0x3u128 == 2,
{
    uuid::Uuid::new_v5(&uuid::Uuid::from_u128(namespace), name).as_u128()
}

/// Why a message was placed in its thread.
#[derive(Clone, Copy, Debug, PartialEq, Eq, Structural)]
pub enum EmailThreadReason {
    Provider,
    References,
    MessageId,
    Subject,
    NoEvidence,
}

/// Why a message was placed in its duplicate group.
#[derive(Clone, Copy, Debug, PartialEq, Eq, Structural)]
pub enum EmailDuplicateReason {
    MessageId,
    ContentHash,
    NoEvidence,
}

/// The grouping decision for one message.
#[derive(Clone, Copy, Debug, PartialEq, Eq, Structural)]
pub struct EmailGrouping {
    pub thread_group_id: Option<u128>,
    pub thread_reason: EmailThreadReason,
    /// A provider thread id was used but the RFC headers disagree with it.
    pub thread_conflict: bool,
    pub duplicate_group_id: Option<u128>,
    pub duplicate_reason: EmailDuplicateReason,
}

/// Evidence available for grouping one message.
#[derive(Clone, Copy, Debug, Default)]
pub struct GroupingEvidence<'a> {
    pub provider_thread_id: Option<&'a str>,
    pub normalized_message_id: Option<&'a str>,
    pub in_reply_to: Option<&'a str>,
    pub reference_ids: &'a [String],
    pub normalized_subject: Option<&'a str>,
    pub content_hash: Option<&'a str>,
}

/// The name hashed for a key: the kind, a colon, and the value lowercased in
/// ASCII (the bytes of `format!("{kind}:{}", value.to_ascii_lowercase())`).
pub open spec fn key_name(kind: Seq<char>, value: Seq<char>) -> Seq<u8> {
    encode_utf8(kind) + seq![58u8] + ascii_lower_bytes(encode_utf8(value))
}

/// The group id of one key: namespaced so a value used as two different kinds
/// of key hashes two different names.
pub open spec fn key_id(namespace: u128, kind: Seq<char>, value: Seq<char>) -> u128 {
    uuid_v5_of(namespace, key_name(kind, value))
}

/// A header value that counts as present: trimmed, and not blank.
pub open spec fn present(value: Option<&str>) -> Option<Seq<char>> {
    match value {
        Some(s) => if trimmed(s@).len() > 0 {
            Some(trimmed(s@))
        } else {
            None
        },
        None => None,
    }
}

/// Gmail writes `X-GM-THRID` as a decimal integer of at most 40 bytes.
pub open spec fn is_usable_provider_id(value: Seq<char>) -> bool {
    let t = trimmed(value);
    &&& t.len() > 0
    &&& encode_utf8(t).len() <= 40
    &&& forall|i: int| 0 <= i < t.len() ==> '0' <= #[trigger] t[i] <= '9'
}

/// The provider thread id, when it is trustworthy enough to be authoritative.
pub open spec fn usable_provider(e: GroupingEvidence) -> Option<Seq<char>> {
    match e.provider_thread_id {
        Some(s) => if is_usable_provider_id(trimmed(s@)) {
            Some(trimmed(s@))
        } else {
            None
        },
        None => None,
    }
}

/// The first non-blank entry of `refs` at or after position `i`, trimmed.
pub open spec fn first_nonblank_from(refs: Seq<Seq<char>>, i: int) -> Option<Seq<char>>
    decreases refs.len() - i,
{
    if i < 0 || i >= refs.len() {
        None
    } else if trimmed(refs[i]).len() > 0 {
        Some(trimmed(refs[i]))
    } else {
        first_nonblank_from(refs, i + 1)
    }
}

/// The `References` chain as character sequences, oldest first.
pub open spec fn references(e: GroupingEvidence) -> Seq<Seq<char>> {
    e.reference_ids@.map_values(|s: String| s@)
}

/// The identifier a standards-based thread hangs from: the head of
/// `References`, else `In-Reply-To`, else the message's own id.
pub open spec fn standards_root_of(e: GroupingEvidence) -> Option<(Seq<char>, EmailThreadReason)> {
    match first_nonblank_from(references(e), 0) {
        Some(root) => Some((root, EmailThreadReason::References)),
        None => match present(e.in_reply_to) {
            Some(parent) => Some((parent, EmailThreadReason::References)),
            None => match present(e.normalized_message_id) {
                Some(id) => Some((id, EmailThreadReason::MessageId)),
                None => None,
            },
        },
    }
}

/// The thread decision: group id, reason, and conflict flag.
pub open spec fn thread_decision(e: GroupingEvidence) -> (Option<u128>, EmailThreadReason, bool) {
    let standards = standards_root_of(e);
    match usable_provider(e) {
        Some(provider) => {
            let group = key_id(THREAD_NAMESPACE, "thrid"@, provider);
            let conflict = match standards {
                Some((root, reason)) => reason == EmailThreadReason::References && key_id(
                    THREAD_NAMESPACE,
                    "root"@,
                    root,
                ) != group,
                None => false,
            };
            (Some(group), EmailThreadReason::Provider, conflict)
        },
        None => match standards {
            Some((root, reason)) => (Some(key_id(THREAD_NAMESPACE, "root"@, root)), reason, false),
            None => match present(e.normalized_subject) {
                Some(subject) => (
                    Some(key_id(THREAD_NAMESPACE, "subject"@, subject)),
                    EmailThreadReason::Subject,
                    false,
                ),
                None => (None, EmailThreadReason::NoEvidence, false),
            },
        },
    }
}

/// The duplicate decision: message id first, canonical content second.
pub open spec fn duplicate_decision(e: GroupingEvidence) -> (Option<u128>, EmailDuplicateReason) {
    match present(e.normalized_message_id) {
        Some(id) => (Some(key_id(DUPLICATE_NAMESPACE, "mid"@, id)), EmailDuplicateReason::MessageId),
        None => match present(e.content_hash) {
            Some(hash) => (
                Some(key_id(DUPLICATE_NAMESPACE, "hash"@, hash)),
                EmailDuplicateReason::ContentHash,
            ),
            None => (None, EmailDuplicateReason::NoEvidence),
        },
    }
}

/// The complete grouping decision for one message's evidence.
pub open spec fn grouping_of(e: GroupingEvidence) -> EmailGrouping {
    let (thread_group_id, thread_reason, thread_conflict) = thread_decision(e);
    let (duplicate_group_id, duplicate_reason) = duplicate_decision(e);
    EmailGrouping {
        thread_group_id,
        thread_reason,
        thread_conflict,
        duplicate_group_id,
        duplicate_reason,
    }
}

/// Whether a provider thread id is trustworthy enough to be authoritative.
///
/// Anything but a short decimal integer came from somewhere the archive cannot
/// vouch for, so it is ignored rather than used to merge unrelated messages.
pub fn usable_provider_id(value: &str) -> (r: bool)
    ensures
        r == is_usable_provider_id(value@),
{
    let t = trim(value);
    if t.is_empty() || t.as_bytes().len() > 40 {
        return false;
    }
    let n = t.unicode_len();
    let mut i: usize = 0;
    while i < n
        invariant
            n == t@.len(),
            t@ == trimmed(value@),
            i <= n,
            forall|k: int| 0 <= k < i ==> '0' <= #[trigger] t@[k] <= '9',
        decreases n - i,
    {
        let c = t.get_char(i);
        if !('0' <= c && c <= '9') {
            return false;
        }
        i = i + 1;
    }
    true
}

/// A trimmed, non-blank header value.
fn present_value<'a>(value: Option<&'a str>) -> (r: Option<&'a str>)
    ensures
        match r {
            Some(s) => present(value) == Some(s@),
            None => present(value) is None,
        },
{
    match value {
        Some(v) => {
            let t = trim(v);
            if t.is_empty() {
                None
            } else {
                Some(t)
            }
        },
        None => None,
    }
}

/// The identifier a standards-based thread hangs from.
///
/// The first `References` entry is the thread root: the chain is ordered
/// oldest first, so its head is the message that started the conversation.
/// `In-Reply-To` is the fallback when a client wrote no `References` at all,
/// and the message's own id is used last so a thread of one is still a thread.
pub fn standards_root<'a>(evidence: &GroupingEvidence<'a>) -> (r: Option<(&'a str, EmailThreadReason)>)
    ensures
        match r {
            Some((root, reason)) => standards_root_of(*evidence) == Some((root@, reason)),
            None => standards_root_of(*evidence) is None,
        },
{
    let refs: &'a [String] = evidence.reference_ids;
    let ghost view = references(*evidence);
    let mut i: usize = 0;
    while i < refs.len()
        invariant
            view == refs@.map_values(|s: String| s@),
            view == references(*evidence),
            i <= refs@.len(),
            first_nonblank_from(view, 0) == first_nonblank_from(view, i as int),
        decreases refs@.len() - i,
    {
        let t = trim(refs[i].as_str());
        assert(view[i as int] == refs@[i as int]@);
        if !t.is_empty() {
            assert(first_nonblank_from(view, i as int) == Some(t@));
            return Some((t, EmailThreadReason::References));
        }
        assert(view[i as int] == refs@[i as int]@);
        i = i + 1;
    }
    assert(first_nonblank_from(view, i as int) is None);
    if let Some(parent) = present_value(evidence.in_reply_to) {
        return Some((parent, EmailThreadReason::References));
    }
    match present_value(evidence.normalized_message_id) {
        Some(id) => Some((id, EmailThreadReason::MessageId)),
        None => None,
    }
}

/// Derives a group id from a namespace, a key kind, and a value; the value is
/// compared without regard to ASCII case.
pub fn derive_group_id(namespace: u128, kind: &str, value: &str) -> (id: u128)
    ensures
        id == key_id(namespace, kind@, value@),
{
    let mut name: Vec<u8> = Vec::new();
    push_bytes(&mut name, kind.as_bytes());
    name.push(58u8);
    push_ascii_lowercase(&mut name, value.as_bytes());
    proof {
        assert(name@ =~= key_name(kind@, value@));
    }
    uuid_new_v5(namespace, name.as_slice())
}

/// Decides one message's thread and duplicate groups.
pub fn group_email(evidence: &GroupingEvidence<'_>) -> (g: EmailGrouping)
    ensures
        g == grouping_of(*evidence),
{
    let standards = standards_root(evidence);

    let provider = match evidence.provider_thread_id {
        Some(v) => {
            let t = trim(v);
            if usable_provider_id(t) {
                Some(t)
            } else {
                None
            }
        },
        None => None,
    };

    let (thread_group_id, thread_reason, thread_conflict) = match provider {
        Some(provider) => {
            let provider_group = derive_group_id(THREAD_NAMESPACE, "thrid", provider);
            // The provider id still wins, since the provider knows about moves
            // and merges the headers never recorded, but a disagreement is
            // worth keeping.
            let conflict = match standards {
                Some((root, reason)) => reason == EmailThreadReason::References && derive_group_id(
                    THREAD_NAMESPACE,
                    "root",
                    root,
                ) != provider_group,
                None => false,
            };
            (Some(provider_group), EmailThreadReason::Provider, conflict)
        },
        None => match standards {
            Some((root, reason)) => (Some(derive_group_id(THREAD_NAMESPACE, "root", root)), reason, false),
            None => match present_value(evidence.normalized_subject) {
                // Documented fallback, never the primary key: unrelated
                // messages share a subject far more often than an id.
                Some(subject) => (
                    Some(derive_group_id(THREAD_NAMESPACE, "subject", subject)),
                    EmailThreadReason::Subject,
                    false,
                ),
                None => (None, EmailThreadReason::NoEvidence, false),
            },
        },
    };

    let (duplicate_group_id, duplicate_reason) = match present_value(
        evidence.normalized_message_id,
    ) {
        Some(message_id) => (
            Some(derive_group_id(DUPLICATE_NAMESPACE, "mid", message_id)),
            EmailDuplicateReason::MessageId,
        ),
        // A message with no id can still be recognised as the same message by
        // its canonical content. Never used when an id exists, because two
        // genuinely distinct messages can canonicalize identically.
        None => match present_value(evidence.content_hash) {
            Some(hash) => (
                Some(derive_group_id(DUPLICATE_NAMESPACE, "hash", hash)),
                EmailDuplicateReason::ContentHash,
            ),
            None => (None, EmailDuplicateReason::NoEvidence),
        },
    };

    EmailGrouping {
        thread_group_id,
        thread_reason,
        thread_conflict,
        duplicate_group_id,
        duplicate_reason,
    }
}

/// A reply lands in its conversation's thread even when the messages between
/// it and the root were never exported: two messages without an authoritative
/// provider id whose standards roots name the same identifier share one
/// thread, since the group comes from the root, not from a chain of parents.
pub proof fn lemma_shared_root_shares_thread(a: GroupingEvidence, b: GroupingEvidence)
    requires
        usable_provider(a) is None,
        usable_provider(b) is None,
        standards_root_of(a) is Some,
        standards_root_of(b) is Some,
        standards_root_of(a).unwrap().0 == standards_root_of(b).unwrap().0,
    ensures
        grouping_of(a).thread_group_id is Some,
        grouping_of(a).thread_group_id == grouping_of(b).thread_group_id,
{
}

/// Identifiers are compared without regard to ASCII case: values that agree
/// once lowercased derive the same group id.
pub proof fn lemma_ascii_case_variants_share_id(
    namespace: u128,
    kind: Seq<char>,
    x: Seq<char>,
    y: Seq<char>,
)
    requires
        ascii_lower_bytes(encode_utf8(x)) == ascii_lower_bytes(encode_utf8(y)),
    ensures
        key_id(namespace, kind, x) == key_id(namespace, kind, y),
{
}

/// A usable provider thread id is authoritative: messages carrying the same
/// one share a thread whatever their headers say.
pub proof fn lemma_provider_is_authoritative(a: GroupingEvidence, b: GroupingEvidence)
    requires
        usable_provider(a) is Some,
        usable_provider(a) == usable_provider(b),
    ensures
        grouping_of(a).thread_reason == EmailThreadReason::Provider,
        grouping_of(a).thread_group_id == grouping_of(b).thread_group_id,
{
}

/// A provider thread id that is not usable is ignored: the decision is the
/// one the same headers give without any provider id.
pub proof fn lemma_unusable_provider_is_ignored(a: GroupingEvidence, b: GroupingEvidence)
    requires
        usable_provider(a) is None,
        usable_provider(b) is None,
        a.normalized_message_id == b.normalized_message_id,
        a.in_reply_to == b.in_reply_to,
        a.reference_ids == b.reference_ids,
        a.normalized_subject == b.normalized_subject,
        a.content_hash == b.content_hash,
    ensures
        grouping_of(a) == grouping_of(b),
{
}

/// A conflict is only ever recorded against an authoritative provider id
/// that disagrees with a `References`-based root.
pub proof fn lemma_conflict_needs_provider_and_references(e: GroupingEvidence)
    ensures
        grouping_of(e).thread_conflict ==> {
            &&& grouping_of(e).thread_reason == EmailThreadReason::Provider
            &&& standards_root_of(e) is Some
            &&& standards_root_of(e).unwrap().1 == EmailThreadReason::References
        },
{
}

/// The subject is a fallback and never outranks an identifier.
pub proof fn lemma_subject_is_last_resort(e: GroupingEvidence)
    ensures
        grouping_of(e).thread_reason == EmailThreadReason::Subject <==> {
            &&& usable_provider(e) is None
            &&& standards_root_of(e) is None
            &&& present(e.normalized_subject) is Some
        },
{
}

/// The message id outranks content: the content hash groups duplicates only
/// when a message has no id.
pub proof fn lemma_message_id_outranks_content(e: GroupingEvidence)
    ensures
        present(e.normalized_message_id) is Some ==> grouping_of(e).duplicate_reason
            == EmailDuplicateReason::MessageId,
        grouping_of(e).duplicate_reason == EmailDuplicateReason::ContentHash <==> {
            &&& present(e.normalized_message_id) is None
            &&& present(e.content_hash) is Some
        },
{
}

/// A message is placed in a group exactly when a reason for the group exists;
/// a message with no evidence is grouped with nothing.
pub proof fn lemma_group_exists_iff_reason(e: GroupingEvidence)
    ensures
        grouping_of(e).thread_group_id is Some <==> grouping_of(e).thread_reason
            != EmailThreadReason::NoEvidence,
        grouping_of(e).duplicate_group_id is Some <==> grouping_of(e).duplicate_reason
            != EmailDuplicateReason::NoEvidence,
{
}

/// A header as text, when present.
pub open spec fn opt_text(value: Option<&str>) -> Option<Seq<char>> {
    match value {
        Some(s) => Some(s@),
        None => None,
    }
}

/// A message's groups come from its own headers alone, never from other
/// messages: two messages whose headers read the same are grouped the same,
/// whichever of them is indexed first.
pub proof fn lemma_grouping_depends_only_on_headers(a: GroupingEvidence, b: GroupingEvidence)
    requires
        opt_text(a.provider_thread_id) == opt_text(b.provider_thread_id),
        opt_text(a.normalized_message_id) == opt_text(b.normalized_message_id),
        opt_text(a.in_reply_to) == opt_text(b.in_reply_to),
        references(a) == references(b),
        opt_text(a.normalized_subject) == opt_text(b.normalized_subject),
        opt_text(a.content_hash) == opt_text(b.content_hash),
    ensures
        grouping_of(a) == grouping_of(b),
{
    assert(present(a.provider_thread_id) == present(b.provider_thread_id));
    assert(usable_provider(a) == usable_provider(b));
    assert(present(a.normalized_message_id) == present(b.normalized_message_id));
    assert(present(a.in_reply_to) == present(b.in_reply_to));
    assert(present(a.normalized_subject) == present(b.normalized_subject));
    assert(present(a.content_hash) == present(b.content_hash));
    assert(standards_root_of(a) == standards_root_of(b));
}

/// The first byte of a key's name is the first letter of its kind, when the
/// kind is a non-empty ASCII word.
proof fn lemma_key_name_starts_with_kind(kind: Seq<char>, value: Seq<char>)
    requires
        kind.len() > 0,
        is_ascii_chars(kind),
    ensures
        key_name(kind, value).len() > 0,
        key_name(kind, value)[0] == kind[0] as u8,
{
    is_ascii_chars_encode_utf8(kind);
    let name = key_name(kind, value);
    assert(name == encode_utf8(kind) + (seq![58u8] + ascii_lower_bytes(encode_utf8(value))));
}

/// Keys are namespaced by kind: within the thread namespace a value used as a
/// provider thread id, as a root, or as a subject hashes three different
/// names, and within the duplicate namespace a message id and a content hash
/// never hash the same name, so two kinds of evidence cannot meet in one
/// group by accident.
pub proof fn lemma_key_kinds_hash_distinct_names(v: Seq<char>, w: Seq<char>)
    ensures
        key_name("thrid"@, v) != key_name("root"@, w),
        key_name("thrid"@, v) != key_name("subject"@, w),
        key_name("root"@, v) != key_name("subject"@, w),
        key_name("mid"@, v) != key_name("hash"@, w),
{
    reveal_strlit("thrid");
    reveal_strlit("root");
    reveal_strlit("subject");
    reveal_strlit("mid");
    reveal_strlit("hash");
    lemma_key_name_starts_with_kind("thrid"@, v);
    lemma_key_name_starts_with_kind("root"@, v);
    lemma_key_name_starts_with_kind("root"@, w);
    lemma_key_name_starts_with_kind("subject"@, w);
    lemma_key_name_starts_with_kind("mid"@, v);
    lemma_key_name_starts_with_kind("hash"@, w);
}

/// Each group id is the key of the evidence its reason names: a provider
/// thread is keyed by the trimmed provider id, a subject thread by the
/// trimmed subject, a message-id duplicate by the trimmed Message-ID and a
/// content duplicate by the trimmed content hash. Two subject-only messages
/// therefore get the key of their own subjects, not one shared key.
pub proof fn lemma_group_ids_are_keyed_by_their_evidence(e: GroupingEvidence)
    ensures
        grouping_of(e).thread_reason == EmailThreadReason::Provider ==> (usable_provider(e) is Some
            && grouping_of(e).thread_group_id == Some(
            key_id(THREAD_NAMESPACE, "thrid"@, usable_provider(e)->0),
        )),
        grouping_of(e).thread_reason == EmailThreadReason::Subject ==> (present(
            e.normalized_subject,
        ) is Some && grouping_of(e).thread_group_id == Some(
            key_id(THREAD_NAMESPACE, "subject"@, present(e.normalized_subject)->0),
        )),
        grouping_of(e).thread_reason == EmailThreadReason::References ==> (
        first_nonblank_from(references(e), 0) is Some && grouping_of(e).thread_group_id == Some(
            key_id(THREAD_NAMESPACE, "root"@, first_nonblank_from(references(e), 0)->0),
        )) || (first_nonblank_from(references(e), 0) is None && present(e.in_reply_to) is Some
            && grouping_of(e).thread_group_id == Some(
            key_id(THREAD_NAMESPACE, "root"@, present(e.in_reply_to)->0),
        )),
        grouping_of(e).thread_reason == EmailThreadReason::MessageId ==> (present(
            e.normalized_message_id,
        ) is Some && grouping_of(e).thread_group_id == Some(
            key_id(THREAD_NAMESPACE, "root"@, present(e.normalized_message_id)->0),
        )),
        grouping_of(e).duplicate_reason == EmailDuplicateReason::MessageId ==> (present(
            e.normalized_message_id,
        ) is Some && grouping_of(e).duplicate_group_id == Some(
            key_id(DUPLICATE_NAMESPACE, "mid"@, present(e.normalized_message_id)->0),
        )),
        grouping_of(e).duplicate_reason == EmailDuplicateReason::ContentHash ==> (present(
            e.content_hash,
        ) is Some && grouping_of(e).duplicate_group_id == Some(
            key_id(DUPLICATE_NAMESPACE, "hash"@, present(e.content_hash)->0),
        )),
{
}

/// Subject-only messages whose subjects differ once lowercased get keys
/// named by different byte strings, so they are not forced into one thread.
pub proof fn lemma_distinct_subjects_hash_distinct_names(a: GroupingEvidence, b: GroupingEvidence)
    requires
        grouping_of(a).thread_reason == EmailThreadReason::Subject,
        grouping_of(b).thread_reason == EmailThreadReason::Subject,
        ascii_lower_bytes(encode_utf8(present(a.normalized_subject)->0)) != ascii_lower_bytes(
            encode_utf8(present(b.normalized_subject)->0),
        ),
    ensures
        grouping_of(a).thread_group_id == Some(
            key_id(THREAD_NAMESPACE, "subject"@, present(a.normalized_subject)->0),
        ),
        grouping_of(b).thread_group_id == Some(
            key_id(THREAD_NAMESPACE, "subject"@, present(b.normalized_subject)->0),
        ),
        key_name("subject"@, present(a.normalized_subject)->0) != key_name(
            "subject"@,
            present(b.normalized_subject)->0,
        ),
{
    lemma_group_ids_are_keyed_by_their_evidence(a);
    lemma_group_ids_are_keyed_by_their_evidence(b);
    let x = present(a.normalized_subject)->0;
    let y = present(b.normalized_subject)->0;
    let kx = key_name("subject"@, x);
    let ky = key_name("subject"@, y);
    let p = encode_utf8("subject"@) + seq![58u8];
    assert(kx =~= p + ascii_lower_bytes(encode_utf8(x)));
    assert(ky =~= p + ascii_lower_bytes(encode_utf8(y)));
    if kx == ky {
        assert(ascii_lower_bytes(encode_utf8(x)) =~= kx.skip(p.len() as int));
        assert(ascii_lower_bytes(encode_utf8(y)) =~= ky.skip(p.len() as int));
    }
}

} // verus!

//! Email projection decisions: artifact identity, event subjects, search
//! filter narrowing, and stored counts.

use vstd::prelude::*;
use vstd::string::StringSliceAdditionalSpecFns;
use vstd::utf8::encode_utf8;

use crate::db::states::EmailExtractionStatus;
use crate::grouping::{uuid_new_v5, uuid_v5_of};
use crate::text::{floor_char_boundary, push_bytes, truncate_at_char_boundary};

verus! {

/// Longest subject, in bytes, kept on an event row.
///
/// The console needs enough to recognise a message, not the whole header. A
/// bounded copy also keeps one pathological subject from dominating the table.
pub const EMAIL_EVENT_SUBJECT_LIMIT: usize = 120;

/// Namespace for deterministic attachment artifact ids.
///
/// Fixed forever: changing it would orphan every artifact already written, and
/// the identity it produces is what makes a rerun replace an artifact in place
/// rather than accumulate a second copy.
pub const EMAIL_ATTACHMENT_NAMESPACE: u128 = 0x9d1a4c77_2e63_548f_a10b_6c395e8712d4u128;

/// The subject stored on an email event: at most
/// [`EMAIL_EVENT_SUBJECT_LIMIT`] bytes, cut at a character boundary.
pub fn email_event_subject(subject: Option<&str>) -> (r: Option<&str>)
    ensures
        match subject {
            None => r is None,
            Some(s) => r matches Some(t) && t.spec_bytes() == s.spec_bytes().take(
                floor_char_boundary(
                    s.spec_bytes(),
                    if s.spec_bytes().len() < EMAIL_EVENT_SUBJECT_LIMIT {
                        s.spec_bytes().len() as int
                    } else {
                        EMAIL_EVENT_SUBJECT_LIMIT as int
                    },
                ),
            ) && t.spec_bytes().len() <= EMAIL_EVENT_SUBJECT_LIMIT && (s.spec_bytes().len()
                <= EMAIL_EVENT_SUBJECT_LIMIT ==> t@ == s@),
        },
{
    match subject {
        Some(value) => Some(truncate_at_char_boundary(value, EMAIL_EVENT_SUBJECT_LIMIT)),
        None => None,
    }
}

/// The lowercase hexadecimal digit for a value below sixteen, as a byte.
pub open spec fn hex_digit_byte(n: u128) -> u8 {
    if n < 10 {
        (48 + n) as u8
    } else {
        (87 + n) as u8
    }
}

/// The `k`-th hexadecimal digit of a UUID value, most significant first.
pub open spec fn nibble(value: u128, k: int) -> u128 {
    (value >> ((124 - 4 * k) as u128)) & 0xfu128
}

/// The hexadecimal digits `from..to` of a UUID value.
pub open spec fn hex_run(value: u128, from: int, to: int) -> Seq<u8> {
    Seq::new((to - from) as nat, |i: int| hex_digit_byte(nibble(value, from + i)))
}

/// The bytes of a UUID's canonical text: lowercase, hyphenated 8-4-4-4-12.
pub open spec fn hyphenated_bytes(value: u128) -> Seq<u8> {
    hex_run(value, 0, 8) + seq![45u8] + hex_run(value, 8, 12) + seq![45u8] + hex_run(value, 12, 16)
        + seq![45u8] + hex_run(value, 16, 20) + seq![45u8] + hex_run(value, 20, 32)
}

/// Appends the hexadecimal digits `from..to` of `value`.
fn push_hex_run(out: &mut Vec<u8>, value: u128, from: u128, to: u128)
    requires
        from <= to <= 32,
    ensures
        final(out)@ == old(out)@ + hex_run(value, from as int, to as int),
{
    let ghost start = out@;
    let mut k: u128 = from;
    while k < to
        invariant
            from <= k <= to <= 32,
            out@ == start + hex_run(value, from as int, k as int),
        decreases to - k,
    {
        let shift: u128 = 124 - 4 * k;
        let digit = (value >> shift) & 0xf;
        assert(((value >> shift) & 0xfu128) < 16) by (bit_vector);
        let byte: u8 = if digit < 10 {
            (48 + digit) as u8
        } else {
            (87 + digit) as u8
        };
        out.push(byte);
        proof {
            assert(nibble(value, k as int) == digit);
            assert(hex_run(value, from as int, (k + 1) as int) =~= hex_run(
                value,
                from as int,
                k as int,
            ).push(byte));
        }
        k = k + 1;
    }
}

/// Appends the canonical hyphenated text of a UUID value.
pub fn push_hyphenated(out: &mut Vec<u8>, value: u128)
    ensures
        final(out)@ == old(out)@ + hyphenated_bytes(value),
{
    let ghost start = out@;
    push_hex_run(out, value, 0, 8);
    out.push(45u8);
    push_hex_run(out, value, 8, 12);
    out.push(45u8);
    push_hex_run(out, value, 12, 16);
    out.push(45u8);
    push_hex_run(out, value, 16, 20);
    out.push(45u8);
    push_hex_run(out, value, 20, 32);
    assert(out@ =~= start + hyphenated_bytes(value));
}

/// The name an attachment artifact id is derived from: the message's UUID
/// text, a colon, and the MIME part path.
pub open spec fn artifact_key_name(node_id: u128, part_path: Seq<char>) -> Seq<u8> {
    hyphenated_bytes(node_id) + seq![58u8] + encode_utf8(part_path)
}

/// Derives an attachment artifact's stable id from its message and MIME path.
///
/// Deliberately excludes the filename. A sender controls the filename and could
/// otherwise steer two different attachments (or two different messages) onto
/// one storage object, or influence where bytes are written at all.
pub fn email_attachment_artifact_id(node_id: u128, part_path: &str) -> (id: u128)
    ensures
        id == uuid_v5_of(EMAIL_ATTACHMENT_NAMESPACE, artifact_key_name(node_id, part_path@)),
{
    let mut name: Vec<u8> = Vec::new();
    push_hyphenated(&mut name, node_id);
    name.push(58u8);
    push_bytes(&mut name, part_path.as_bytes());
    proof {
        assert(name@ =~= artifact_key_name(node_id, part_path@));
    }
    uuid_new_v5(EMAIL_ATTACHMENT_NAMESPACE, name.as_slice())
}

/// Structured narrowing applied alongside (or instead of) a text query.
///
/// Times are microseconds since the Unix epoch, UTC.
#[derive(Clone, Debug, Default)]
pub struct EmailSearchFilters {
    pub from: Vec<String>,
    pub participant: Vec<String>,
    pub labels: Vec<String>,
    pub after: Option<i64>,
    pub before: Option<i64>,
    pub has_attachment: Option<bool>,
    pub status: Option<EmailExtractionStatus>,
    pub thread_group_id: Option<u128>,
    pub duplicate_group_id: Option<u128>,
    pub include_trashed: bool,
    pub include_duplicates: bool,
}

/// No structured narrowing is present; the two visibility switches narrow
/// nothing.
pub open spec fn filters_empty(f: EmailSearchFilters) -> bool {
    &&& f.from@.len() == 0
    &&& f.participant@.len() == 0
    &&& f.labels@.len() == 0
    &&& f.after is None
    &&& f.before is None
    &&& f.has_attachment is None
    &&& f.status is None
    &&& f.thread_group_id is None
    &&& f.duplicate_group_id is None
}

impl EmailSearchFilters {
    /// Whether any structured narrowing is present.
    ///
    /// An entirely unconstrained request (no query and no filter) must be
    /// rejected rather than allowed to page the whole archive.
    pub fn is_empty(&self) -> (r: bool)
        ensures
            r == filters_empty(*self),
    {
        self.from.is_empty() && self.participant.is_empty() && self.labels.is_empty()
            && self.after.is_none() && self.before.is_none() && self.has_attachment.is_none()
            && self.status.is_none() && self.thread_group_id.is_none()
            && self.duplicate_group_id.is_none()
    }
}

/// Widening a search to trashed messages or to every duplicate does not
/// constrain it: such a request is still unconstrained.
pub proof fn lemma_visibility_switches_do_not_narrow(f: EmailSearchFilters, g: EmailSearchFilters)
    requires
        f.from == g.from,
        f.participant == g.participant,
        f.labels == g.labels,
        f.after == g.after,
        f.before == g.before,
        f.has_attachment == g.has_attachment,
        f.status == g.status,
        f.thread_group_id == g.thread_group_id,
        f.duplicate_group_id == g.duplicate_group_id,
    ensures
        filters_empty(f) == filters_empty(g),
{
}

/// An address or label filter binds only when it lists something.
pub fn none_if_empty(values: &[String]) -> (r: Option<&[String]>)
    ensures
        r == if values@.len() == 0 {
            None
        } else {
            Some(values)
        },
{
    if values.is_empty() {
        None
    } else {
        Some(values)
    }
}

/// A position or count stored as a 32-bit integer, saturating at its maximum.
pub fn saturating_i32(n: usize) -> (r: i32)
    ensures
        r == if n <= i32::MAX {
            n as i32
        } else {
            i32::MAX
        },
{
    if n <= 0x7fff_ffffusize {
        n as i32
    } else {
        i32::MAX
    }
}

} // verus!

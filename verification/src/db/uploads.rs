//! Resumable upload sessions: recording byte ranges and finalizing.

use vstd::prelude::*;

use crate::db::states::UploadSessionState;

verus! {

/// A persisted inclusive byte range.
#[derive(Clone, Copy, Debug, PartialEq, Eq, Structural)]
pub struct ReceivedRange {
    pub start_byte: i64,
    pub end_byte: i64,
}

/// Typed representation of a row in `upload_sessions`.
///
/// Identifiers are UUID values; times are microseconds since the Unix epoch.
#[derive(Clone, Debug, PartialEq, Eq)]
pub struct UploadSessionRecord {
    pub id: u128,
    pub target_folder_id: u128,
    pub display_name: String,
    pub expected_byte_size: Option<i64>,
    pub received_bytes: i64,
    pub staging_key: String,
    pub state: UploadSessionState,
    pub checksum_sha256: Option<String>,
    pub completed_node_id: Option<u128>,
    pub source_created_at: Option<i64>,
    pub source_modified_at: Option<i64>,
    pub expires_at: i64,
    pub created_at: i64,
    pub updated_at: i64,
}

/// A session and its ordered received ranges.
#[derive(Clone, Debug, PartialEq, Eq)]
pub struct UploadSessionProgress {
    pub session: UploadSessionRecord,
    pub received_ranges: Vec<ReceivedRange>,
}

/// Expected errors while recording a resumable-upload range.
#[derive(Clone, Copy, Debug, PartialEq, Eq, Structural)]
pub enum RecordChunkError {
    NotFound,
    NotActive,
    Overlap,
}

/// Expected failures while atomically finalizing an upload.
#[derive(Clone, Copy, Debug, PartialEq, Eq, Structural)]
pub enum FinalizeUploadError {
    NotFound,
    NotActive,
    Incomplete,
    NameConflict,
}

/// Two inclusive ranges share at least one byte.
pub open spec fn ranges_overlap(a: ReceivedRange, start: i64, end: i64) -> bool {
    a.start_byte <= end && a.end_byte >= start
}

/// No two recorded ranges share a byte.
pub open spec fn pairwise_disjoint(ranges: Seq<ReceivedRange>) -> bool {
    forall|i: int, j: int|
        0 <= i < ranges.len() && 0 <= j < ranges.len() && i != j ==> !ranges_overlap(
            ranges[i],
            ranges[j].start_byte,
            ranges[j].end_byte,
        )
}

/// Decides whether the inclusive range `start..=end` may be recorded on a
/// session (`None` when the session does not exist) that already holds
/// `existing`: the session must exist and be active, and the range may not
/// share a byte with any recorded range.
pub fn admit_chunk(
    state: Option<UploadSessionState>,
    existing: &[ReceivedRange],
    start: i64,
    end: i64,
) -> (r: Result<(), RecordChunkError>)
    ensures
        match state {
            None => r == Err::<(), RecordChunkError>(RecordChunkError::NotFound),
            Some(s) => if s != UploadSessionState::Active {
                r == Err::<(), RecordChunkError>(RecordChunkError::NotActive)
            } else if exists|i: int|
                0 <= i < existing@.len() && #[trigger] ranges_overlap(existing@[i], start, end) {
                r == Err::<(), RecordChunkError>(RecordChunkError::Overlap)
            } else {
                r is Ok
            },
        },
{
    match state {
        None => Err(RecordChunkError::NotFound),
        Some(s) => {
            if s != UploadSessionState::Active {
                return Err(RecordChunkError::NotActive);
            }
            let mut i: usize = 0;
            while i < existing.len()
                invariant
                    state == Some(s),
                    s == UploadSessionState::Active,
                    i <= existing@.len(),
                    forall|k: int| 0 <= k < i ==> !#[trigger] ranges_overlap(existing@[k], start, end),
                decreases existing@.len() - i,
            {
                let range = existing[i];
                if range.start_byte <= end && range.end_byte >= start {
                    assert(ranges_overlap(existing@[i as int], start, end));
                    assert(exists|k: int|
                        0 <= k < existing@.len() && #[trigger] ranges_overlap(
                            existing@[k],
                            start,
                            end,
                        ));
                    return Err(RecordChunkError::Overlap);
                }
                i = i + 1;
            }
            Ok(())
        },
    }
}

/// How many bytes the inclusive range `start..=end` covers, when that count
/// fits in 64 bits.
pub fn chunk_byte_count(start: i64, end: i64) -> (r: Option<i64>)
    ensures
        r == if i64::MIN <= end - start + 1 <= i64::MAX && i64::MIN <= end - start {
            Some((end - start + 1) as i64)
        } else {
            None::<i64>
        },
{
    match end.checked_sub(start) {
        Some(difference) => difference.checked_add(1),
        None => None,
    }
}

/// Admitting a range keeps a session's recorded ranges pairwise disjoint.
pub proof fn lemma_admitted_chunk_keeps_ranges_disjoint(
    existing: Seq<ReceivedRange>,
    start: i64,
    end: i64,
)
    requires
        pairwise_disjoint(existing),
        forall|i: int| 0 <= i < existing.len() ==> !#[trigger] ranges_overlap(existing[i], start, end),
    ensures
        pairwise_disjoint(existing.push(ReceivedRange { start_byte: start, end_byte: end })),
{
    let all = existing.push(ReceivedRange { start_byte: start, end_byte: end });
    assert forall|i: int, j: int|
        0 <= i < all.len() && 0 <= j < all.len() && i != j implies !ranges_overlap(
        all[i],
        all[j].start_byte,
        all[j].end_byte,
    ) by {
        if i == existing.len() {
            assert(!ranges_overlap(existing[j], start, end));
        } else if j == existing.len() {
            assert(!ranges_overlap(existing[i], start, end));
        } else {
            assert(all[i] == existing[i] && all[j] == existing[j]);
        }
    }
}

/// What finalizing an upload does once its session is locked.
#[derive(Clone, Copy, Debug, PartialEq, Eq, Structural)]
pub enum UploadFinalization {
    /// The session already completed: return the node it produced.
    AlreadyCompleted,
    /// Publish the upload as a new file node.
    Publish,
}

/// Decides how to finalize an upload from its locked session (`None` when it
/// does not exist). Repeated calls on a completed session return its node;
/// only an active session whose received bytes match its declared size
/// (if it declared one) is published.
pub fn finalize_upload_gate(session: Option<&UploadSessionRecord>) -> (r: Result<
    UploadFinalization,
    FinalizeUploadError,
>)
    ensures
        match session {
            None => r == Err::<UploadFinalization, FinalizeUploadError>(
                FinalizeUploadError::NotFound,
            ),
            Some(s) => if s.state == UploadSessionState::Completed {
                r == Ok::<UploadFinalization, FinalizeUploadError>(
                    UploadFinalization::AlreadyCompleted,
                )
            } else if s.state != UploadSessionState::Active {
                r == Err::<UploadFinalization, FinalizeUploadError>(
                    FinalizeUploadError::NotActive,
                )
            } else if s.expected_byte_size is Some && s.expected_byte_size.unwrap()
                != s.received_bytes {
                r == Err::<UploadFinalization, FinalizeUploadError>(
                    FinalizeUploadError::Incomplete,
                )
            } else {
                r == Ok::<UploadFinalization, FinalizeUploadError>(UploadFinalization::Publish)
            },
        },
{
    match session {
        None => Err(FinalizeUploadError::NotFound),
        Some(s) => {
            if s.state == UploadSessionState::Completed {
                Ok(UploadFinalization::AlreadyCompleted)
            } else if s.state != UploadSessionState::Active {
                Err(FinalizeUploadError::NotActive)
            } else {
                match s.expected_byte_size {
                    Some(expected) => if expected != s.received_bytes {
                        Err(FinalizeUploadError::Incomplete)
                    } else {
                        Ok(UploadFinalization::Publish)
                    },
                    None => Ok(UploadFinalization::Publish),
                }
            }
        },
    }
}


/// A session that no request will move again: it completed, was cancelled,
/// or expired.
pub open spec fn is_settled(state: UploadSessionState) -> bool {
    match state {
        UploadSessionState::Completed | UploadSessionState::Cancelled
        | UploadSessionState::Expired => true,
        UploadSessionState::Active | UploadSessionState::Finalizing => false,
    }
}

/// A session's state after a cancel request: an active or finalizing session
/// is cancelled, any other keeps its state, which the request reports back.
pub open spec fn state_after_cancel(state: UploadSessionState) -> UploadSessionState {
    match state {
        UploadSessionState::Active | UploadSessionState::Finalizing => UploadSessionState::Cancelled,
        _ => state,
    }
}

/// A session's state after an expiry sweep at `now`: an active session whose
/// deadline lies strictly before `now` expires, any other keeps its state.
pub open spec fn state_after_expiry(state: UploadSessionState, expires_at: i64, now: i64) -> UploadSessionState {
    if state == UploadSessionState::Active && expires_at < now {
        UploadSessionState::Expired
    } else {
        state
    }
}

/// Whether a session may be marked completed: it is active, finalizing, or
/// already completed (completing again is harmless).
pub open spec fn completion_allowed(state: UploadSessionState) -> bool {
    match state {
        UploadSessionState::Active | UploadSessionState::Finalizing
        | UploadSessionState::Completed => true,
        UploadSessionState::Cancelled | UploadSessionState::Expired => false,
    }
}

/// The state a cancel request leaves a session in.
pub fn cancel_outcome(state: UploadSessionState) -> (next: UploadSessionState)
    ensures
        next == state_after_cancel(state),
{
    match state {
        UploadSessionState::Active | UploadSessionState::Finalizing => UploadSessionState::Cancelled,
        _ => state,
    }
}

/// The state an expiry sweep at `now` leaves a session in.
pub fn expiry_outcome(state: UploadSessionState, expires_at: i64, now: i64) -> (next: UploadSessionState)
    ensures
        next == state_after_expiry(state, expires_at, now),
{
    if state == UploadSessionState::Active && expires_at < now {
        UploadSessionState::Expired
    } else {
        state
    }
}

/// Whether marking a session completed applies to it.
pub fn completion_applies(state: UploadSessionState) -> (r: bool)
    ensures
        r == completion_allowed(state),
{
    match state {
        UploadSessionState::Active | UploadSessionState::Finalizing
        | UploadSessionState::Completed => true,
        UploadSessionState::Cancelled | UploadSessionState::Expired => false,
    }
}

/// A settled session stays as it is: neither a cancel request nor an expiry
/// sweep changes it, and a cancelled or expired one cannot be completed.
pub proof fn lemma_settled_sessions_stay_settled(state: UploadSessionState, expires_at: i64, now: i64)
    requires
        is_settled(state),
    ensures
        state_after_cancel(state) == state,
        state_after_expiry(state, expires_at, now) == state,
        completion_allowed(state) <==> state == UploadSessionState::Completed,
{
}

/// Cancelling and expiring are idempotent, and whatever state either leaves
/// is settled or still open to the other: repeating a request never changes
/// the answer.
pub proof fn lemma_session_requests_are_idempotent(state: UploadSessionState, expires_at: i64, now: i64)
    ensures
        state_after_cancel(state_after_cancel(state)) == state_after_cancel(state),
        state_after_expiry(state_after_expiry(state, expires_at, now), expires_at, now)
            == state_after_expiry(state, expires_at, now),
        is_settled(state_after_cancel(state)),
{
}

/// A session may be marked completed exactly when it was neither cancelled
/// nor expired: an active or finalizing session is completed, and completing
/// a completed one again is harmless.
pub proof fn lemma_completion_refused_only_when_abandoned(state: UploadSessionState)
    ensures
        completion_allowed(state) <==> !(state == UploadSessionState::Cancelled || state
            == UploadSessionState::Expired),
{
}

} // verus!

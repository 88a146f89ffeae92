//! Backfill campaign lifecycle and refill decisions.
//!
//! A campaign is created inert (`Draft`), prepared with a frozen candidate
//! snapshot (`Paused`), and from then on moves only along the transitions an
//! operator may request. Refills enumerate candidates only for a prepared,
//! running campaign, in bounded batches that advance a cursor.

use vstd::prelude::*;

use crate::db::states::BackfillState;

verus! {

/// The operator-requested transitions a campaign may take.
pub open spec fn transition_allowed(current: BackfillState, target: BackfillState) -> bool {
    match (current, target) {
        (BackfillState::Paused, BackfillState::Running) => true,
        (BackfillState::Running, BackfillState::Paused) => true,
        (BackfillState::Running, BackfillState::Draining) => true,
        (BackfillState::Paused, BackfillState::Cancelled) => true,
        (BackfillState::Running, BackfillState::Cancelled) => true,
        (BackfillState::Draining, BackfillState::Cancelled) => true,
        (BackfillState::Paused, BackfillState::Failed) => true,
        (BackfillState::Running, BackfillState::Failed) => true,
        (BackfillState::Draining, BackfillState::Failed) => true,
        (BackfillState::Draining, BackfillState::Completed) => true,
        _ => false,
    }
}

/// A state no campaign leaves.
pub open spec fn is_terminal(state: BackfillState) -> bool {
    state == BackfillState::Completed || state == BackfillState::Cancelled || state
        == BackfillState::Failed
}

/// Whether a requested campaign transition is one an operator may make.
pub fn campaign_transition_allowed(current: BackfillState, target: BackfillState) -> (r: bool)
    ensures
        r == transition_allowed(current, target),
{
    match (current, target) {
        (BackfillState::Paused, BackfillState::Running) => true,
        (BackfillState::Running, BackfillState::Paused) => true,
        (BackfillState::Running, BackfillState::Draining) => true,
        (BackfillState::Paused, BackfillState::Cancelled) => true,
        (BackfillState::Running, BackfillState::Cancelled) => true,
        (BackfillState::Draining, BackfillState::Cancelled) => true,
        (BackfillState::Paused, BackfillState::Failed) => true,
        (BackfillState::Running, BackfillState::Failed) => true,
        (BackfillState::Draining, BackfillState::Failed) => true,
        (BackfillState::Draining, BackfillState::Completed) => true,
        _ => false,
    }
}

/// Whether the transition must first find the shared heavy permit free:
/// email, OCR, and attachment campaigns share one `heavy_cpu` admission
/// permit, so only one of them may be running or draining at a time.
pub fn transition_needs_free_heavy_permit(target: BackfillState) -> (r: bool)
    ensures
        r == (target == BackfillState::Running),
{
    target == BackfillState::Running
}

/// A requested transition is applied: the campaign exists, the transition is
/// allowed, and a resume finds no other heavy campaign holding the permit.
pub open spec fn transition_applies(
    current: Option<BackfillState>,
    target: BackfillState,
    competing_heavy_campaigns: i64,
) -> bool {
    match current {
        Some(state) => transition_allowed(state, target) && (target == BackfillState::Running
            ==> competing_heavy_campaigns <= 0),
        None => false,
    }
}

/// Whether a transition is applied, given the campaign's locked state (`None`
/// when it does not exist) and, for a resume, how many other heavy campaigns
/// are running or draining.
pub fn campaign_transition_applies(
    current: Option<BackfillState>,
    target: BackfillState,
    competing_heavy_campaigns: i64,
) -> (r: bool)
    ensures
        r == transition_applies(current, target, competing_heavy_campaigns),
{
    match current {
        None => false,
        Some(state) => {
            if !campaign_transition_allowed(state, target) {
                false
            } else if transition_needs_free_heavy_permit(target) {
                competing_heavy_campaigns <= 0
            } else {
                true
            }
        },
    }
}

/// Whether preparing a campaign applies: only a draft is prepared, and only
/// with a candidate count that is not negative. A prepared campaign is paused.
pub open spec fn preparation_applies(current: Option<BackfillState>, candidate_count: i64) -> bool {
    current == Some(BackfillState::Draft) && candidate_count >= 0
}

/// Whether preparing the campaign (`None` when it does not exist) with the
/// given frozen candidate count applies.
pub fn campaign_preparation_applies(current: Option<BackfillState>, candidate_count: i64) -> (r:
    bool)
    ensures
        r == preparation_applies(current, candidate_count),
{
    match current {
        Some(BackfillState::Draft) => candidate_count >= 0,
        _ => false,
    }
}

/// Whether applying the transition also skips the campaign's pending jobs:
/// a cancelled campaign leaves no queued work behind.
pub fn transition_skips_pending_jobs(target: BackfillState) -> (r: bool)
    ensures
        r == (target == BackfillState::Cancelled),
{
    target == BackfillState::Cancelled
}

/// Completed, cancelled, and failed campaigns are final: no transition
/// leaves them.
pub proof fn lemma_terminal_states_are_final(current: BackfillState, target: BackfillState)
    requires
        is_terminal(current),
    ensures
        !transition_allowed(current, target),
{
}

/// A draft campaign is inert: no requested transition moves it; only
/// preparation, which freezes its candidate snapshot, does. Nothing returns a
/// campaign to draft.
pub proof fn lemma_drafts_are_inert(state: BackfillState)
    ensures
        !transition_allowed(BackfillState::Draft, state),
        !transition_allowed(state, BackfillState::Draft),
{
}

/// A campaign starts running only by an explicit resume of a paused
/// campaign, and completes only after draining.
pub proof fn lemma_running_and_completion_entries(current: BackfillState)
    ensures
        transition_allowed(current, BackfillState::Running) <==> current
            == BackfillState::Paused,
        transition_allowed(current, BackfillState::Completed) <==> current
            == BackfillState::Draining,
{
}

/// An operator can always stop a live campaign, by cancelling it or by
/// marking it failed, and no transition keeps a campaign where it is.
pub proof fn lemma_live_campaigns_can_always_stop(current: BackfillState)
    ensures
        (current == BackfillState::Paused || current == BackfillState::Running || current
            == BackfillState::Draining) ==> transition_allowed(current, BackfillState::Cancelled)
            && transition_allowed(current, BackfillState::Failed),
        !transition_allowed(current, current),
{
}

/// Two heavy campaigns never run together: a resume is applied only when no
/// other heavy campaign is running or draining.
pub proof fn lemma_resume_needs_free_permit(current: Option<BackfillState>, competing: i64)
    requires
        competing > 0,
    ensures
        !transition_applies(current, BackfillState::Running, competing),
{
}

/// Whether a refill may look for candidates at all: an unprepared campaign has
/// no frozen boundary and must not enumerate, and a refill with no allowance
/// has nothing to do. `snapshot_before` is the frozen boundary, if any.
pub fn refill_may_enumerate(snapshot_before: Option<i64>, allowance: i64) -> (r: bool)
    ensures
        r == (snapshot_before is Some && allowance > 0),
{
    snapshot_before.is_some() && allowance > 0
}

/// Whether the campaign's state, re-read under lock inside the refill's
/// transaction, still lets it enqueue: only a running campaign does.
pub fn refill_state_permits(state: Option<BackfillState>) -> (r: bool)
    ensures
        r == (state == Some(BackfillState::Running)),
{
    match state {
        Some(BackfillState::Running) => true,
        _ => false,
    }
}

/// One candidate of a refill, in cursor order.
#[derive(Clone, Copy, Debug, PartialEq, Eq, Structural)]
pub struct RefillCandidate {
    pub node_id: u128,
    pub created_at: i64,
}

/// What one refill batch did: how many jobs it created, whether the candidate
/// set is exhausted, and where the cursor now stands (`None` keeps it).
#[derive(Clone, Copy, Debug, PartialEq, Eq, Structural)]
pub struct RefillBatch {
    pub enqueued: u64,
    pub exhausted: bool,
    pub cursor: Option<RefillCandidate>,
}

/// How many of the insert attempts created a job.
pub open spec fn count_true(flags: Seq<bool>) -> nat
    decreases flags.len(),
{
    if flags.len() == 0 {
        0
    } else {
        count_true(flags.drop_last()) + if flags.last() {
            1nat
        } else {
            0nat
        }
    }
}

/// Summarizes one refill batch from the candidates it selected (at most
/// `allowance` of them, in cursor order) and, for each, whether inserting its
/// job created one (an already-active job creates none).
///
/// The batch is exhausted when fewer candidates than the allowance remained;
/// the cursor moves to the last candidate, and stays put when there was none.
pub fn summarize_refill(allowance: i64, candidates: &[RefillCandidate], inserted: &[bool]) -> (r:
    RefillBatch)
    requires
        candidates@.len() == inserted@.len(),
    ensures
        r.enqueued == count_true(inserted@),
        r.exhausted == (candidates@.len() < allowance),
        r.cursor == if candidates@.len() == 0 {
            None
        } else {
            Some(candidates@.last())
        },
{
    let mut enqueued: u64 = 0;
    let mut i: usize = 0;
    while i < inserted.len()
        invariant
            i <= inserted@.len(),
            enqueued == count_true(inserted@.take(i as int)),
            enqueued <= i,
        decreases inserted@.len() - i,
    {
        proof {
            assert(inserted@.take(i + 1).drop_last() =~= inserted@.take(i as int));
        }
        if inserted[i] {
            enqueued = enqueued + 1;
        }
        i = i + 1;
    }
    proof {
        assert(inserted@.take(i as int) =~= inserted@);
    }
    let count = candidates.len();
    let exhausted = if count as u128 <= 0x7fff_ffff_ffff_ffffu128 {
        (count as i64) < allowance
    } else {
        false
    };
    let cursor = if count == 0 {
        None
    } else {
        Some(candidates[count - 1])
    };
    RefillBatch { enqueued, exhausted, cursor }
}

} // verus!

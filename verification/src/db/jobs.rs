//! Job queue decisions: capacity classes, claim order, and the lifecycle of
//! one job from enqueue to its final outcome.

use vstd::prelude::*;

use crate::db::states::{JobOrigin, JobResourceClass, JobState, JobType};
use crate::text::str_eq;

verus! {

/// The capacity pool an ordinary foreground job of each type draws from.
pub open spec fn resource_class_of(job_type: JobType) -> JobResourceClass {
    match job_type {
        JobType::MetadataExtraction => JobResourceClass::Extractor,
        JobType::PreviewGeneration => JobResourceClass::Preview,
        JobType::Ocr | JobType::EmailExtraction | JobType::AttachmentExtraction => {
            JobResourceClass::HeavyCpu
        },
        JobType::ImportScan => JobResourceClass::HeavyIo,
        JobType::TrashCleanup | JobType::PermanentDeletion => JobResourceClass::Light,
    }
}

/// Default capacity pool for ordinary foreground jobs.
///
/// Email parsing starts under the shared heavy permit even though MIME parsing
/// is cheaper than OCR; attachment extraction runs text extraction and OCR over
/// documents pulled out of messages, so it is the same kind of sustained CPU
/// work as OCR itself and shares the heavy permit rather than competing
/// outside it.
pub fn default_resource_class(job_type: JobType) -> (class: JobResourceClass)
    ensures
        class == resource_class_of(job_type),
{
    match job_type {
        JobType::MetadataExtraction => JobResourceClass::Extractor,
        JobType::PreviewGeneration => JobResourceClass::Preview,
        JobType::Ocr | JobType::EmailExtraction | JobType::AttachmentExtraction => {
            JobResourceClass::HeavyCpu
        },
        JobType::ImportScan => JobResourceClass::HeavyIo,
        JobType::TrashCleanup | JobType::PermanentDeletion => JobResourceClass::Light,
    }
}

/// Every job type that burns sustained CPU shares the one heavy permit, so a
/// second heavy workload queues behind the first instead of competing.
pub proof fn lemma_cpu_heavy_work_shares_one_permit()
    ensures
        resource_class_of(JobType::Ocr) == JobResourceClass::HeavyCpu,
        resource_class_of(JobType::EmailExtraction) == JobResourceClass::HeavyCpu,
        resource_class_of(JobType::AttachmentExtraction) == JobResourceClass::HeavyCpu,
        forall|t: JobType|
            #![trigger resource_class_of(t)]
            resource_class_of(t) == JobResourceClass::HeavyCpu ==> (t == JobType::Ocr || t
                == JobType::EmailExtraction || t == JobType::AttachmentExtraction),
{
}

/// The candidate a claim leases, from the three lookups made in order: a
/// backfill job once the foreground has used its fairness budget, else the
/// best foreground or repair job, else any backfill job that may run.
pub fn select_claim_candidate<T>(
    preferred_backfill: Option<T>,
    foreground: Option<T>,
    fallback_backfill: Option<T>,
) -> (candidate: Option<T>)
    ensures
        candidate == if preferred_backfill is Some {
            preferred_backfill
        } else if foreground is Some {
            foreground
        } else {
            fallback_backfill
        },
{
    match preferred_backfill {
        Some(job) => Some(job),
        None => match foreground {
            Some(job) => Some(job),
            None => fallback_backfill,
        },
    }
}

/// Whether leasing a job of this class must also take a shared capacity slot.
/// Light work is never rationed.
pub fn claim_needs_resource_slot(class: JobResourceClass) -> (r: bool)
    ensures
        r == (class != JobResourceClass::Light),
{
    class != JobResourceClass::Light
}

/// How many foreground claims have been made since the last backfill claim,
/// after one more claim of `origin`: a foreground claim counts up, a backfill
/// claim resets the count, and a repair claim leaves it alone. `None` when the
/// count cannot grow further.
pub fn foreground_claims_after(current: i32, origin: JobOrigin) -> (next: Option<i32>)
    ensures
        match origin {
            JobOrigin::Foreground => if current < i32::MAX {
                next == Some((current + 1) as i32)
            } else {
                next is None
            },
            JobOrigin::Backfill => next == Some(0i32),
            JobOrigin::Repair => next == Some(current),
        },
{
    match origin {
        JobOrigin::Foreground => current.checked_add(1),
        JobOrigin::Backfill => Some(0),
        JobOrigin::Repair => Some(current),
    }
}


/// How many attempts a job gets when an import scan is enqueued.
pub const IMPORT_SCAN_MAX_ATTEMPTS: i32 = 10;

/// How many attempts an ordinary job of each type gets: OCR is retried more
/// often than the rest because its engine fails transiently.
pub open spec fn max_attempts_of(job_type: JobType) -> i32 {
    if job_type == JobType::Ocr {
        5
    } else {
        3
    }
}

/// The attempt budget recorded on a job enqueued with its type's defaults.
pub fn default_max_attempts(job_type: JobType) -> (n: i32)
    ensures
        n == max_attempts_of(job_type),
{
    match job_type {
        JobType::Ocr => 5,
        _ => 3,
    }
}

/// The part of a job row that its lifecycle moves: where the job stands and
/// how many of its allowed attempts it has used.
#[derive(Clone, Copy, Debug, PartialEq, Eq, Structural)]
pub struct JobAttempts {
    pub state: JobState,
    pub attempts: i32,
    pub max_attempts: i32,
}

/// A job that has reached an outcome no worker will change.
pub open spec fn is_finished(state: JobState) -> bool {
    match state {
        JobState::Completed | JobState::Failed | JobState::Cancelled | JobState::Skipped => true,
        JobState::Pending | JobState::Leased => false,
    }
}

/// A pending job once a worker leases it; claiming spends one attempt.
pub open spec fn claimed(job: JobAttempts) -> Option<JobAttempts> {
    if job.state == JobState::Pending && job.attempts < i32::MAX {
        Some(
            JobAttempts {
                state: JobState::Leased,
                attempts: (job.attempts + 1) as i32,
                max_attempts: job.max_attempts,
            },
        )
    } else {
        None
    }
}

/// A leased job once its worker reports it done.
pub open spec fn completed(job: JobAttempts) -> Option<JobAttempts> {
    if job.state == JobState::Leased {
        Some(JobAttempts { state: JobState::Completed, attempts: job.attempts, max_attempts: job.max_attempts })
    } else {
        None
    }
}

/// A leased job once its worker finds nothing to do for it.
pub open spec fn skipped(job: JobAttempts) -> Option<JobAttempts> {
    if job.state == JobState::Leased {
        Some(JobAttempts { state: JobState::Skipped, attempts: job.attempts, max_attempts: job.max_attempts })
    } else {
        None
    }
}

/// A leased job after a failed attempt: back in the queue while attempts
/// remain, failed for good once they are used up.
pub open spec fn failed_attempt(job: JobAttempts) -> Option<JobAttempts> {
    if job.state == JobState::Leased {
        Some(
            JobAttempts {
                state: if job.attempts >= job.max_attempts {
                    JobState::Failed
                } else {
                    JobState::Pending
                },
                attempts: job.attempts,
                max_attempts: job.max_attempts,
            },
        )
    } else {
        None
    }
}

/// A leased job after a failure that retrying cannot fix: it fails at once
/// and is recorded as having used every attempt.
pub open spec fn failed_terminally(job: JobAttempts) -> Option<JobAttempts> {
    if job.state == JobState::Leased {
        Some(JobAttempts { state: JobState::Failed, attempts: job.max_attempts, max_attempts: job.max_attempts })
    } else {
        None
    }
}

/// Whether a lease has run out at `now`: only a leased job with an expiry
/// strictly before `now` has.
pub open spec fn lease_ran_out(state: JobState, lease_expires_at: Option<i64>, now: i64) -> bool {
    state == JobState::Leased && match lease_expires_at {
        Some(at) => at < now,
        None => false,
    }
}

/// A job whose lease ran out goes back to the queue; the attempt it spent
/// stays spent.
pub open spec fn lease_expired(job: JobAttempts, lease_expires_at: Option<i64>, now: i64) -> Option<
    JobAttempts,
> {
    if lease_ran_out(job.state, lease_expires_at, now) {
        Some(JobAttempts { state: JobState::Pending, attempts: job.attempts, max_attempts: job.max_attempts })
    } else {
        None
    }
}

/// A freshly enqueued job: pending, no attempt spent.
pub fn new_job_attempts(max_attempts: i32) -> (job: JobAttempts)
    ensures
        job == (JobAttempts { state: JobState::Pending, attempts: 0, max_attempts }),
{
    JobAttempts { state: JobState::Pending, attempts: 0, max_attempts }
}

/// Leases a pending job; `None` when the job is not pending.
pub fn claim_pending(job: JobAttempts) -> (next: Option<JobAttempts>)
    requires
        job.state == JobState::Pending ==> job.attempts < i32::MAX,
    ensures
        next == claimed(job),
{
    match job.state {
        JobState::Pending => Some(
            JobAttempts { state: JobState::Leased, attempts: job.attempts + 1, max_attempts: job.max_attempts },
        ),
        _ => None,
    }
}

/// Records a finished attempt; `None` when the job is not leased.
pub fn complete_leased(job: JobAttempts) -> (next: Option<JobAttempts>)
    ensures
        next == completed(job),
{
    match job.state {
        JobState::Leased => Some(
            JobAttempts { state: JobState::Completed, attempts: job.attempts, max_attempts: job.max_attempts },
        ),
        _ => None,
    }
}

/// Records that a leased job needed no processing; `None` when the job is
/// not leased.
pub fn skip_leased(job: JobAttempts) -> (next: Option<JobAttempts>)
    ensures
        next == skipped(job),
{
    match job.state {
        JobState::Leased => Some(
            JobAttempts { state: JobState::Skipped, attempts: job.attempts, max_attempts: job.max_attempts },
        ),
        _ => None,
    }
}

/// Records a failed attempt, retrying while attempts remain; `None` when
/// the job is not leased.
pub fn fail_leased(job: JobAttempts) -> (next: Option<JobAttempts>)
    ensures
        next == failed_attempt(job),
{
    match job.state {
        JobState::Leased => {
            let state = if job.attempts >= job.max_attempts {
                JobState::Failed
            } else {
                JobState::Pending
            };
            Some(JobAttempts { state, attempts: job.attempts, max_attempts: job.max_attempts })
        },
        _ => None,
    }
}

/// Fails a leased job without further retries; `None` when the job is not
/// leased.
pub fn fail_leased_terminal(job: JobAttempts) -> (next: Option<JobAttempts>)
    ensures
        next == failed_terminally(job),
{
    match job.state {
        JobState::Leased => Some(
            JobAttempts { state: JobState::Failed, attempts: job.max_attempts, max_attempts: job.max_attempts },
        ),
        _ => None,
    }
}

/// Returns a job whose lease ran out to the queue; `None` when the job is
/// not leased or its lease still runs.
pub fn expire_lease(job: JobAttempts, lease_expires_at: Option<i64>, now: i64) -> (next: Option<
    JobAttempts,
>)
    ensures
        next == lease_expired(job, lease_expires_at, now),
{
    let ran_out = match job.state {
        JobState::Leased => match lease_expires_at {
            Some(at) => at < now,
            None => false,
        },
        _ => false,
    };
    if ran_out {
        Some(JobAttempts { state: JobState::Pending, attempts: job.attempts, max_attempts: job.max_attempts })
    } else {
        None
    }
}

/// Whether `owner` may extend a job's lease: only the worker holding the
/// lease of a leased job may.
pub fn renewal_applies(state: JobState, lease_owner: Option<&str>, owner: &str) -> (r: bool)
    ensures
        r == (state == JobState::Leased && match lease_owner {
            Some(held) => held@ == owner@,
            None => false,
        }),
{
    match state {
        JobState::Leased => match lease_owner {
            Some(held) => str_eq(held, owner),
            None => false,
        },
        _ => false,
    }
}

/// A job that has finished is left alone by every step of the lifecycle:
/// it cannot be claimed, completed, skipped, failed, or expired again.
pub proof fn lemma_finished_jobs_stay_finished(job: JobAttempts, lease_expires_at: Option<i64>, now: i64)
    requires
        is_finished(job.state),
    ensures
        claimed(job) is None,
        completed(job) is None,
        skipped(job) is None,
        failed_attempt(job) is None,
        failed_terminally(job) is None,
        lease_expired(job, lease_expires_at, now) is None,
{
}

/// `n` rounds of a worker claiming the job and the attempt failing.
pub open spec fn failing_rounds(job: JobAttempts, n: nat) -> Option<JobAttempts>
    decreases n,
{
    if n == 0 {
        Some(job)
    } else {
        match claimed(job) {
            Some(leased) => match failed_attempt(leased) {
                Some(next) => failing_rounds(next, (n - 1) as nat),
                None => None,
            },
            None => None,
        }
    }
}

/// A job whose attempts keep failing is offered again after each failure
/// until it has used its whole attempt budget, and then fails for good:
/// after fewer rounds than the attempts it has left it is pending again,
/// and after exactly that many rounds it has failed.
pub proof fn lemma_failures_retry_until_attempts_run_out(job: JobAttempts, n: nat)
    requires
        job.state == JobState::Pending,
        0 <= job.attempts < job.max_attempts,
        n <= job.max_attempts - job.attempts,
    ensures
        failing_rounds(job, n) == Some(
            JobAttempts {
                state: if n == job.max_attempts - job.attempts {
                    JobState::Failed
                } else {
                    JobState::Pending
                },
                attempts: (job.attempts + n) as i32,
                max_attempts: job.max_attempts,
            },
        ),
    decreases n,
{
    if n > 0 {
        let leased = claimed(job)->0;
        let next = failed_attempt(leased)->0;
        if n > 1 {
            lemma_failures_retry_until_attempts_run_out(next, (n - 1) as nat);
        }
    }
}

/// The instant before which a finished job's row may go: successes and
/// skips use the completed cutoff, failures and cancellations the failed one.
/// Each cutoff is the database's `now() - N * interval '1 day'`, counted in
/// calendar days of its session time zone. Jobs still pending or leased have
/// no cutoff: they are never purged.
pub open spec fn retention_cutoff(state: JobState, completed_cutoff: i64, failed_cutoff: i64) -> Option<
    i64,
> {
    match state {
        JobState::Completed | JobState::Skipped => Some(completed_cutoff),
        JobState::Failed | JobState::Cancelled => Some(failed_cutoff),
        JobState::Pending | JobState::Leased => None,
    }
}

/// Whether a job's row may be purged: it finished (at `finished_at`) before
/// its outcome's cutoff, and it is not a failure behind an unresolved import
/// error, which the user can still see and retry.
pub open spec fn job_purgeable(
    state: JobState,
    finished_at: i64,
    completed_cutoff: i64,
    failed_cutoff: i64,
    backs_unresolved_import_failure: bool,
) -> bool {
    match retention_cutoff(state, completed_cutoff, failed_cutoff) {
        Some(cutoff) => finished_at < cutoff && !(state == JobState::Failed
            && backs_unresolved_import_failure),
        None => false,
    }
}

/// Decides whether one finished job's row is past its retention.
pub fn job_is_purgeable(
    state: JobState,
    finished_at: i64,
    completed_cutoff: i64,
    failed_cutoff: i64,
    backs_unresolved_import_failure: bool,
) -> (r: bool)
    ensures
        r == job_purgeable(
            state,
            finished_at,
            completed_cutoff,
            failed_cutoff,
            backs_unresolved_import_failure,
        ),
{
    let cutoff: i64 = match state {
        JobState::Completed | JobState::Skipped => completed_cutoff,
        JobState::Failed | JobState::Cancelled => failed_cutoff,
        JobState::Pending | JobState::Leased => {
            return false;
        },
    };
    if state == JobState::Failed && backs_unresolved_import_failure {
        return false;
    }
    finished_at < cutoff
}

/// Work that is still queued or running is never purged, however old it is,
/// and a failure the user can still retry from an import error stays.
pub proof fn lemma_unfinished_work_is_never_purged(
    state: JobState,
    finished_at: i64,
    completed_cutoff: i64,
    failed_cutoff: i64,
    backs_unresolved_import_failure: bool,
)
    requires
        state == JobState::Pending || state == JobState::Leased || (state == JobState::Failed
            && backs_unresolved_import_failure),
    ensures
        !job_purgeable(
            state,
            finished_at,
            completed_cutoff,
            failed_cutoff,
            backs_unresolved_import_failure,
        ),
{
}

/// Failures are kept longer than successes: when the failed retention
/// reaches back at least as far as the completed one (its cutoff is no
/// later), a failure that may be purged finished so long ago that a success
/// finished at the same time may be purged too.
pub proof fn lemma_failures_outlive_successes(
    finished_at: i64,
    completed_cutoff: i64,
    failed_cutoff: i64,
)
    requires
        failed_cutoff <= completed_cutoff,
    ensures
        job_purgeable(JobState::Failed, finished_at, completed_cutoff, failed_cutoff, false)
            ==> job_purgeable(JobState::Completed, finished_at, completed_cutoff, failed_cutoff, false),
        job_purgeable(JobState::Cancelled, finished_at, completed_cutoff, failed_cutoff, false)
            ==> job_purgeable(JobState::Skipped, finished_at, completed_cutoff, failed_cutoff, false),
{
}

/// Whether resizing a resource class to `target` slots removes the slot
/// numbered `slot_number` at `now`: only a slot above the target, and only
/// while no unexpired lease holds it.
pub open spec fn slot_removable(slot_number: i32, target: i32, lease_expires_at: Option<i64>, now: i64) -> bool {
    slot_number > target && match lease_expires_at {
        Some(at) => at < now,
        None => true,
    }
}

/// Decides whether a resize removes one slot.
pub fn slot_is_removable(slot_number: i32, target: i32, lease_expires_at: Option<i64>, now: i64) -> (r: bool)
    ensures
        r == slot_removable(slot_number, target, lease_expires_at, now),
{
    slot_number > target && match lease_expires_at {
        Some(at) => at < now,
        None => true,
    }
}

/// Shrinking a resource class never revokes a slot a running job holds: a
/// slot whose lease has not run out stays, whatever the new size.
pub proof fn lemma_shrinking_never_revokes_a_running_slot(
    slot_number: i32,
    target: i32,
    lease_expires_at: i64,
    now: i64,
)
    requires
        now <= lease_expires_at,
    ensures
        !slot_removable(slot_number, target, Some(lease_expires_at), now),
{
}

/// Each finished outcome has its window: a success or a skip goes once it
/// finished before the completed cutoff; a cancellation once it finished
/// before the failed cutoff; a failure likewise, unless it backs an
/// unresolved import error.
pub proof fn lemma_retention_by_outcome(
    finished_at: i64,
    completed_cutoff: i64,
    failed_cutoff: i64,
    backs_unresolved_import_failure: bool,
)
    ensures
        job_purgeable(JobState::Completed, finished_at, completed_cutoff, failed_cutoff, backs_unresolved_import_failure)
            == (finished_at < completed_cutoff),
        job_purgeable(JobState::Skipped, finished_at, completed_cutoff, failed_cutoff, backs_unresolved_import_failure)
            == (finished_at < completed_cutoff),
        job_purgeable(JobState::Cancelled, finished_at, completed_cutoff, failed_cutoff, backs_unresolved_import_failure)
            == (finished_at < failed_cutoff),
        job_purgeable(JobState::Failed, finished_at, completed_cutoff, failed_cutoff, backs_unresolved_import_failure)
            == (finished_at < failed_cutoff && !backs_unresolved_import_failure),
{
}

} // verus!

//! Bounds on how much one call may read or write, whatever the caller asks.

use vstd::prelude::*;
use vstd::string::StringSliceAdditionalSpecFns;

verus! {

/// The most events one page of an event feed returns.
pub const EVENT_PAGE_MAX: i64 = 200;

/// The most campaign events one page returns.
pub const CAMPAIGN_EVENT_PAGE_MAX: i64 = 500;

/// The most results one search page returns, and the most nodes one manual
/// reprocessing request enqueues.
pub const REQUEST_BATCH_MAX: u32 = 100;

/// The most rows one maintenance batch touches.
pub const MAINTENANCE_BATCH_MAX: u32 = 10_000;

/// `value` brought into `low..=high`.
pub open spec fn clamped(value: int, low: int, high: int) -> int {
    if value < low {
        low
    } else if value > high {
        high
    } else {
        value
    }
}

/// The page size an event feed uses for a requested `limit`: at least one
/// event, at most [`EVENT_PAGE_MAX`].
pub fn event_page_limit(limit: i64) -> (r: i64)
    ensures
        r == clamped(limit as int, 1, EVENT_PAGE_MAX as int),
{
    if limit < 1 {
        1
    } else if limit > EVENT_PAGE_MAX {
        EVENT_PAGE_MAX
    } else {
        limit
    }
}

/// The page size the campaign event feed uses: at least one event, at most
/// [`CAMPAIGN_EVENT_PAGE_MAX`].
pub fn campaign_event_page_limit(limit: i64) -> (r: i64)
    ensures
        r == clamped(limit as int, 1, CAMPAIGN_EVENT_PAGE_MAX as int),
{
    if limit < 1 {
        1
    } else if limit > CAMPAIGN_EVENT_PAGE_MAX {
        CAMPAIGN_EVENT_PAGE_MAX
    } else {
        limit
    }
}

/// The bound a search page or a manual reprocessing request uses: at least
/// one, at most [`REQUEST_BATCH_MAX`].
pub fn request_batch_limit(limit: u32) -> (r: i64)
    ensures
        r == clamped(limit as int, 1, REQUEST_BATCH_MAX as int),
{
    if limit < 1 {
        1
    } else if limit > REQUEST_BATCH_MAX {
        REQUEST_BATCH_MAX as i64
    } else {
        limit as i64
    }
}

/// The bound one maintenance batch uses: at least one row, at most
/// [`MAINTENANCE_BATCH_MAX`].
pub fn maintenance_batch_limit(batch: u32) -> (r: i64)
    ensures
        r == clamped(batch as int, 1, MAINTENANCE_BATCH_MAX as int),
{
    if batch < 1 {
        1
    } else if batch > MAINTENANCE_BATCH_MAX {
        MAINTENANCE_BATCH_MAX as i64
    } else {
        batch as i64
    }
}

/// How many slots a resource class is resized to: as asked, but never fewer
/// than one, so a class can always make progress.
pub fn resource_slot_target(slots: i32) -> (r: i32)
    ensures
        r == if slots < 1 {
            1
        } else {
            slots
        },
{
    if slots < 1 {
        1
    } else {
        slots
    }
}

/// The slot count a resize reports from the rows it counted: the count when
/// it fits in 32 bits, else the target it aimed at.
pub fn reported_slot_count(count: i64, target: i32) -> (r: i32)
    ensures
        r == if i32::MIN <= count <= i32::MAX {
            count as i32
        } else {
            target
        },
{
    if i32::MIN as i64 <= count && count <= i32::MAX as i64 {
        count as i32
    } else {
        target
    }
}

/// The total byte length of the given texts.
pub open spec fn total_len(texts: Seq<&str>) -> int
    decreases texts.len(),
{
    if texts.len() == 0 {
        0
    } else {
        total_len(texts.drop_last()) + texts.last().spec_bytes().len()
    }
}

/// The number of text bytes recorded for an attachment's extracted pages:
/// the sum of the pages' UTF-8 byte lengths.
pub fn text_byte_total(pages: &[&str]) -> (r: i64)
    requires
        total_len(pages@) <= i64::MAX,
    ensures
        r == total_len(pages@),
{
    let mut total: i64 = 0;
    let mut i: usize = 0;
    while i < pages.len()
        invariant
            i <= pages@.len(),
            total == total_len(pages@.take(i as int)),
            total_len(pages@) <= i64::MAX,
        decreases pages@.len() - i,
    {
        let length = pages[i].as_bytes().len();
        proof {
            let next = pages@.take((i + 1) as int);
            assert(next.drop_last() == pages@.take(i as int));
            assert(next.last() == pages@[i as int]);
            assert(total_len(next) == total + length);
            lemma_total_len_prefix(pages@, (i + 1) as int);
            lemma_total_len_prefix(pages@, i as int);
        }
        total = total + length as i64;
        i = i + 1;
    }
    proof {
        assert(pages@.take(pages@.len() as int) == pages@);
    }
    total
}

/// A prefix never holds more text than the whole.
proof fn lemma_total_len_prefix(texts: Seq<&str>, n: int)
    requires
        0 <= n <= texts.len(),
    ensures
        0 <= total_len(texts.take(n)) <= total_len(texts),
    decreases texts.len(),
{
    if n < texts.len() {
        assert(texts.drop_last().take(n) == texts.take(n));
        lemma_total_len_prefix(texts.drop_last(), n);
    } else {
        assert(texts.take(n) == texts);
    }
    lemma_total_len_nonnegative(texts.take(n));
}

proof fn lemma_total_len_nonnegative(texts: Seq<&str>)
    ensures
        total_len(texts) >= 0,
    decreases texts.len(),
{
    if texts.len() > 0 {
        lemma_total_len_nonnegative(texts.drop_last());
    }
}

} // verus!

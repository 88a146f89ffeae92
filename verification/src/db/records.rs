//! Plain records exchanged with the persistence layer, and the aggregates
//! computed over them.
//!
//! Identifiers are UUID values (`u128`); timestamps are microseconds since the
//! Unix epoch, UTC.

use vstd::prelude::*;

use crate::db::states::{
    DocumentTextStatus, EmailAddressRole, EmailExtractionStatus, LifecycleState, MediaStreamType,
    NodeKind,
};

verus! {

/// Typed representation of a row in `nodes`.
#[derive(Clone, Debug, PartialEq, Eq)]
pub struct NodeRecord {
    pub id: u128,
    pub parent_id: Option<u128>,
    pub name: String,
    pub kind: NodeKind,
    pub lifecycle_state: LifecycleState,
    pub source_created_at: Option<i64>,
    pub source_modified_at: Option<i64>,
    pub created_at: i64,
    pub updated_at: i64,
}

/// Number of document text records in one durable state.
#[derive(Clone, Copy, Debug, PartialEq, Eq)]
pub struct DocumentTextStatusCount {
    pub status: DocumentTextStatus,
    pub count: i64,
}

/// Indexed aggregate OCR workload and durable outcome counts.
#[derive(Clone, Copy, Debug, PartialEq, Eq)]
pub struct OcrStatusCounts {
    pub pending: i64,
    pub running: i64,
    pub completed: i64,
    pub failed: i64,
    pub skipped: i64,
    pub unsupported: i64,
    pub remaining: i64,
}

/// Indexed aggregate state for metadata extraction jobs.
#[derive(Clone, Copy, Debug, PartialEq, Eq)]
pub struct MetadataStatusCounts {
    pub pending: i64,
    pub running: i64,
    pub completed: i64,
    pub failed: i64,
    pub skipped: i64,
    pub cancelled: i64,
    pub remaining: i64,
    pub total: i64,
    pub completed_per_hour: i64,
}

/// Normalized media stream values written after a successful probe.
#[derive(Clone, Copy, Debug)]
pub struct MediaStreamInput<'a> {
    pub stream_index: i32,
    pub stream_type: MediaStreamType,
    pub codec: &'a str,
    pub width: Option<i32>,
    pub height: Option<i32>,
    pub duration_ms: Option<i64>,
    pub bitrate_bps: Option<i64>,
    pub frame_rate: Option<&'a str>,
    pub language: Option<&'a str>,
}

/// One address of a parsed message, in the role it was written under.
#[derive(Clone, Copy, Debug)]
pub struct EmailAddressInput<'a> {
    pub role: EmailAddressRole,
    pub display_name: Option<&'a str>,
    pub address: &'a str,
}

/// One raw header of a parsed message.
#[derive(Clone, Copy, Debug)]
pub struct EmailHeaderInput<'a> {
    pub name: &'a str,
    pub value: &'a str,
}

/// One attachment manifest entry of a parsed message.
#[derive(Clone, Copy, Debug)]
pub struct EmailAttachmentInput<'a> {
    pub part_path: &'a str,
    pub filename: Option<&'a str>,
    pub media_type: &'a str,
    pub disposition: Option<&'a str>,
    pub content_id: Option<&'a str>,
    pub transfer_encoding: Option<&'a str>,
    pub decoded_size: Option<i64>,
    pub checksum_sha256: Option<&'a str>,
    pub is_inline: bool,
    pub is_message: bool,
    pub warnings: &'a [String],
}

/// One version value and how many rows carry it.
#[derive(Clone, Debug, PartialEq, Eq)]
pub struct VersionCount {
    pub version: String,
    pub count: i64,
}

/// Version distributions across the independent reprocessing axes.
///
/// These are separate fields rather than one "email version" because a change
/// to each requires different work: a parser change means reparsing messages,
/// an attachment-extractor change means re-extracting text without touching
/// the message, and a search-index change means rebuilding vectors from data
/// already stored.
#[derive(Clone, Debug, Default, PartialEq, Eq)]
pub struct EmailVersionReport {
    pub parser: Vec<VersionCount>,
    pub attachment_materializer: Vec<VersionCount>,
    pub attachment_extractor: Vec<VersionCount>,
    /// Messages whose parser version differs from the running one.
    pub messages_needing_reparse: i64,
    /// Attachments whose extractor version differs from the running one.
    pub attachments_needing_reextraction: i64,
    /// Completed messages with no search vector.
    pub messages_needing_reindex: i64,
}

/// What a repair scan found, without changing anything.
#[derive(Clone, Copy, Debug, Default, PartialEq, Eq)]
pub struct EmailRepairReport {
    /// Finalized `.eml`-shaped nodes with no projection at all.
    pub missing_projections: i64,
    /// Artifact rows whose message no longer exists.
    pub orphan_artifacts: i64,
    /// Manifest entries with no artifact, and artifacts with no manifest entry.
    pub manifest_without_artifact: i64,
    pub artifact_without_manifest: i64,
    /// Jobs leased past their expiry, which a live worker would have renewed.
    pub stale_leases: i64,
    /// Campaigns whose recorded counts disagree with the jobs table.
    pub campaigns_with_count_drift: i64,
    pub messages_needing_reindex: i64,
}

/// Aggregate email extraction workload and durable outcome counts.
///
/// Queued work is split by origin because a paused historical campaign and a
/// stalled inbox look identical in a single total.
#[derive(Clone, Copy, Debug, PartialEq, Eq)]
pub struct EmailStatusCounts {
    pub foreground_pending: i64,
    pub foreground_running: i64,
    pub backfill_pending: i64,
    pub backfill_running: i64,
    pub completed: i64,
    pub failed: i64,
    pub skipped: i64,
    pub unsupported: i64,
    pub remaining: i64,
    pub indexed: i64,
    /// Messages that have an extraction row of any kind.
    pub candidates: i64,
    /// Attachment artifacts still awaiting text extraction.
    pub attachments_pending: i64,
    pub attachments_completed: i64,
    pub attachments_failed: i64,
    /// Messages parsed in the last hour, the basis for throughput and ETA.
    pub completed_last_hour: i64,
}

/// The extraction outcome recorded against an attachment.
#[derive(Clone, Copy, Debug)]
pub struct EmailAttachmentTextOutcome<'a> {
    pub status: EmailExtractionStatus,
    pub extractor_name: Option<&'a str>,
    pub extractor_version: Option<&'a str>,
    pub warnings: &'a [String],
}

/// One facet bucket.
#[derive(Clone, Debug, PartialEq, Eq)]
pub struct EmailFacet {
    pub value: String,
    pub count: i64,
}

/// One MIME family bucket in the read-only OCR preflight report.
#[derive(Clone, Debug, PartialEq, Eq)]
pub struct OcrPreflightFamily {
    pub detected_mime: String,
    pub candidates: i64,
    pub total_bytes: i64,
    pub p50_bytes: i64,
    pub p95_bytes: i64,
    pub max_bytes: i64,
}

/// Sum of the families' candidate counts.
pub open spec fn sum_candidates(families: Seq<OcrPreflightFamily>) -> int
    decreases families.len(),
{
    if families.len() == 0 {
        0
    } else {
        sum_candidates(families.drop_last()) + families.last().candidates
    }
}

/// Sum of the families' candidate bytes.
pub open spec fn sum_total_bytes(families: Seq<OcrPreflightFamily>) -> int
    decreases families.len(),
{
    if families.len() == 0 {
        0
    } else {
        sum_total_bytes(families.drop_last()) + families.last().total_bytes
    }
}

/// Every running total of the two sums stays within 64 bits.
pub open spec fn preflight_sums_fit(families: Seq<OcrPreflightFamily>) -> bool {
    forall|k: int|
        0 <= k <= families.len() ==> i64::MIN <= #[trigger] sum_candidates(families.take(k))
            <= i64::MAX && i64::MIN <= sum_total_bytes(families.take(k)) <= i64::MAX
}

/// The report's totals: candidates and candidate bytes across every family.
pub fn ocr_preflight_totals(families: &[OcrPreflightFamily]) -> (r: (i64, i64))
    requires
        preflight_sums_fit(families@),
    ensures
        r.0 == sum_candidates(families@),
        r.1 == sum_total_bytes(families@),
{
    let mut candidates: i64 = 0;
    let mut bytes: i64 = 0;
    let mut i: usize = 0;
    while i < families.len()
        invariant
            i <= families@.len(),
            preflight_sums_fit(families@),
            candidates == sum_candidates(families@.take(i as int)),
            bytes == sum_total_bytes(families@.take(i as int)),
        decreases families@.len() - i,
    {
        proof {
            assert(families@.take(i + 1).drop_last() =~= families@.take(i as int));
            assert(families@.take(i + 1).last() == families@[i as int]);
            assert(i64::MIN <= sum_candidates(families@.take(i + 1)) <= i64::MAX);
        }
        candidates = candidates + families[i].candidates;
        bytes = bytes + families[i].total_bytes;
        i = i + 1;
    }
    proof {
        assert(families@.take(i as int) =~= families@);
    }
    (candidates, bytes)
}

} // verus!

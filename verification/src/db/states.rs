//! Persisted enumerations: the values the database stores as its own types.

use vstd::prelude::*;

verus! {

/// Persisted node kind.
#[derive(Clone, Copy, Debug, PartialEq, Eq, Structural)]
pub enum NodeKind {
    Folder,
    File,
}

/// Persisted node lifecycle state.
#[derive(Clone, Copy, Debug, PartialEq, Eq, Structural)]
pub enum LifecycleState {
    Active,
    Trashed,
    Deleted,
}

/// Persistence state for a managed file object.
#[derive(Clone, Copy, Debug, PartialEq, Eq, Structural)]
pub enum FileUploadState {
    Staging,
    Finalized,
}

/// Durable resumable-upload lifecycle state.
#[derive(Clone, Copy, Debug, PartialEq, Eq, Structural)]
pub enum UploadSessionState {
    Active,
    Finalizing,
    Completed,
    Cancelled,
    Expired,
}

/// Durable lifecycle of a file discovered in the import inbox.
#[derive(Clone, Copy, Debug, PartialEq, Eq, Structural)]
pub enum ImportEntryState {
    Discovered,
    Stable,
    Importing,
    Imported,
    Failed,
}

/// Provenance of text persisted for a document.
#[derive(Clone, Copy, Debug, PartialEq, Eq, Structural)]
pub enum DocumentTextSource {
    Embedded,
    Ocr,
}

/// Durable extraction state for a document's text.
#[derive(Clone, Copy, Debug, PartialEq, Eq, Structural)]
pub enum DocumentTextStatus {
    Pending,
    Completed,
    Failed,
    Skipped,
    Unsupported,
}

/// Kind of durable background work.
#[derive(Clone, Copy, Debug, PartialEq, Eq, Structural)]
pub enum JobType {
    MetadataExtraction,
    PreviewGeneration,
    TrashCleanup,
    PermanentDeletion,
    ImportScan,
    Ocr,
    EmailExtraction,
    AttachmentExtraction,
}

/// Lifecycle state of a durable background job.
#[derive(Clone, Copy, Debug, PartialEq, Eq, Structural)]
pub enum JobState {
    Pending,
    Leased,
    Completed,
    Failed,
    Cancelled,
    Skipped,
}

/// Why a job entered the queue. Claiming always favors interactive work.
#[derive(Clone, Copy, Debug, PartialEq, Eq, Hash, Structural)]
pub enum JobOrigin {
    Foreground,
    Repair,
    Backfill,
}

/// Shared capacity pool consumed by a job while it is leased.
#[derive(Clone, Copy, Debug, PartialEq, Eq, Hash, Structural)]
pub enum JobResourceClass {
    Light,
    Extractor,
    Preview,
    HeavyCpu,
    HeavyIo,
}

/// A bounded historical enrichment workload.
#[derive(Clone, Copy, Debug, PartialEq, Eq, Hash, Structural)]
pub enum BackfillKind {
    Email,
    Ocr,
    AttachmentText,
    AttachmentOcr,
}

/// Durable operator-controlled lifecycle for a backfill campaign.
#[derive(Clone, Copy, Debug, PartialEq, Eq, Hash, Structural)]
pub enum BackfillState {
    Draft,
    Paused,
    Running,
    Draining,
    Completed,
    Cancelled,
    Failed,
}

/// Persisted kind of an audio-visual stream.
#[derive(Clone, Copy, Debug, PartialEq, Eq, Structural)]
pub enum MediaStreamType {
    Video,
    Audio,
    Subtitle,
}

/// Kind of a cached derived artifact.
#[derive(Clone, Copy, Debug, PartialEq, Eq, Structural)]
pub enum ArtifactType {
    Thumbnail,
    Preview,
}

/// Generation state of a cached derived artifact.
#[derive(Clone, Copy, Debug, PartialEq, Eq, Structural)]
pub enum ArtifactState {
    Generating,
    Ready,
    Failed,
}

/// Lifecycle of one email parsing attempt.
#[derive(Clone, Copy, Debug, PartialEq, Eq, Structural)]
pub enum EmailExtractionStatus {
    Pending,
    Completed,
    Failed,
    Skipped,
    Unsupported,
}

/// RFC role an address was written under.
#[derive(Clone, Copy, Debug, PartialEq, Eq, Structural)]
pub enum EmailAddressRole {
    From,
    Sender,
    ReplyTo,
    To,
    Cc,
    Bcc,
}

/// Lifecycle of one materialized attachment artifact.
#[derive(Clone, Copy, Debug, PartialEq, Eq, Structural)]
pub enum EmailArtifactState {
    Pending,
    Ready,
    Failed,
    Skipped,
}

/// Where an attachment's text came from.
#[derive(Clone, Copy, Debug, PartialEq, Eq, Structural)]
pub enum EmailAttachmentTextSource {
    Embedded,
    Ocr,
}

} // verus!

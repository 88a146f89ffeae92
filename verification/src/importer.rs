//! Watched-folder ingestion decisions.
//!
//! The scanner walks the inbox, skips hidden and special entries, reports
//! regular files to a sink, and stages a file only when its observed metadata
//! is unchanged before and after it is copied. The walking and copying run in
//! the application; the choices are made here.

use vstd::prelude::*;

verus! {

/// Scanner behavior that is safe for the fixed v1 inbox by default.
#[derive(Clone, Copy, Debug, Default, PartialEq, Eq, Structural)]
pub struct ScanOptions {
    pub include_hidden: bool,
}

/// One component of a relative path, as `std::path::Component` yields it.
#[derive(Clone, Debug, PartialEq, Eq)]
pub enum PathPart {
    /// The root directory `/`.
    RootDir,
    /// A leading `.`.
    CurDir,
    /// A `..`.
    ParentDir,
    /// An ordinary name that is valid UTF-8.
    Normal(String),
    /// A name that is not valid UTF-8, or a platform prefix.
    Opaque,
}

/// A component whose name starts with a dot.
pub open spec fn part_is_hidden(part: PathPart) -> bool {
    match part {
        PathPart::CurDir | PathPart::ParentDir => true,
        PathPart::Normal(name) => name@.len() > 0 && name@[0] == '.',
        _ => false,
    }
}

/// Whether any component of a path starts with a dot.
pub fn is_hidden(parts: &[PathPart]) -> (r: bool)
    ensures
        r == exists|i: int| 0 <= i < parts@.len() && part_is_hidden(#[trigger] parts@[i]),
{
    let mut i: usize = 0;
    while i < parts.len()
        invariant
            i <= parts@.len(),
            forall|k: int| 0 <= k < i ==> !part_is_hidden(#[trigger] parts@[k]),
        decreases parts@.len() - i,
    {
        let hidden = match &parts[i] {
            PathPart::CurDir | PathPart::ParentDir => true,
            PathPart::Normal(name) => {
                let n = name.as_str();
                n.unicode_len() > 0 && n.get_char(0) == '.'
            },
            _ => false,
        };
        if hidden {
            assert(part_is_hidden(parts@[i as int]));
            return true;
        }
        i = i + 1;
    }
    false
}

/// Whether the scanner skips an entry before inspecting it: hidden entries
/// are skipped unless the scan includes them.
pub fn skip_as_hidden(options: ScanOptions, relative: &[PathPart]) -> (r: bool)
    ensures
        r == (!options.include_hidden && exists|i: int|
            0 <= i < relative@.len() && part_is_hidden(#[trigger] relative@[i])),
{
    !options.include_hidden && is_hidden(relative)
}

/// What an inspected entry is. Symbolic links and every other special entry
/// are `Special`: they are never followed.
#[derive(Clone, Copy, Debug, PartialEq, Eq, Structural)]
pub enum ScanEntryKind {
    Directory,
    RegularFile,
    Special,
}

/// Classifies an entry from its own (not followed) metadata.
pub fn classify_entry(is_dir: bool, is_file: bool) -> (k: ScanEntryKind)
    ensures
        k == if is_dir {
            ScanEntryKind::Directory
        } else if is_file {
            ScanEntryKind::RegularFile
        } else {
            ScanEntryKind::Special
        },
{
    if is_dir {
        ScanEntryKind::Directory
    } else if is_file {
        ScanEntryKind::RegularFile
    } else {
        ScanEntryKind::Special
    }
}

/// Summary of a single explicitly requested filesystem scan.
///
/// `directories` holds each discovered directory's path relative to the root.
#[derive(Clone, Debug, Default, PartialEq, Eq)]
pub struct ScanReport {
    pub directories: Vec<String>,
    pub files_discovered: usize,
    pub hidden_entries_skipped: usize,
    pub special_entries_skipped: usize,
}

/// Everything a report has accounted for.
pub open spec fn entries_seen(report: ScanReport) -> int {
    report.directories@.len() + report.files_discovered + report.hidden_entries_skipped
        + report.special_entries_skipped
}

impl ScanReport {
    /// Records a hidden entry that was skipped.
    pub fn record_hidden(&mut self)
        requires
            old(self).hidden_entries_skipped < usize::MAX,
        ensures
            entries_seen(*final(self)) == entries_seen(*old(self)) + 1,
            final(self).hidden_entries_skipped == old(self).hidden_entries_skipped + 1,
            final(self).files_discovered == old(self).files_discovered,
            final(self).special_entries_skipped == old(self).special_entries_skipped,
            final(self).directories@ == old(self).directories@,
    {
        self.hidden_entries_skipped = self.hidden_entries_skipped + 1;
    }

    /// Records an inspected entry of the given kind; `relative` is a
    /// directory's path relative to the scan root.
    pub fn record_entry(&mut self, kind: ScanEntryKind, relative: String)
        requires
            old(self).files_discovered < usize::MAX,
            old(self).special_entries_skipped < usize::MAX,
        ensures
            entries_seen(*final(self)) == entries_seen(*old(self)) + 1,
            final(self).hidden_entries_skipped == old(self).hidden_entries_skipped,
            final(self).directories@ == if kind == ScanEntryKind::Directory {
                old(self).directories@.push(relative)
            } else {
                old(self).directories@
            },
            final(self).files_discovered == old(self).files_discovered + if kind
                == ScanEntryKind::RegularFile {
                1int
            } else {
                0int
            },
            final(self).special_entries_skipped == old(self).special_entries_skipped + if kind
                == ScanEntryKind::Special {
                1int
            } else {
                0int
            },
    {
        match kind {
            ScanEntryKind::Directory => self.directories.push(relative),
            ScanEntryKind::RegularFile => self.files_discovered = self.files_discovered + 1,
            ScanEntryKind::Special => self.special_entries_skipped = self.special_entries_skipped
                + 1,
        }
    }
}

/// A regular file's observed size and modification time (seconds and
/// nanoseconds since the Unix epoch).
#[derive(Clone, Copy, Debug, PartialEq, Eq, Structural)]
pub struct FileSnapshot {
    pub byte_size: u64,
    pub modified_secs: i64,
    pub modified_nanos: u32,
}

/// Whether a file may be streamed: what is on disk now is what discovery saw.
pub fn unchanged_since_discovery(before: FileSnapshot, expected: FileSnapshot) -> (r: bool)
    ensures
        r == (before == expected),
{
    before == expected
}

/// Whether a streamed copy is kept: the file could be inspected again after
/// streaming (`None` when it could not, or is no longer a regular file) and
/// is still what it was before.
pub fn unchanged_after_stream(after: Option<FileSnapshot>, before: FileSnapshot) -> (r: bool)
    ensures
        r == (after == Some(before)),
{
    match after {
        Some(snapshot) => snapshot == before,
        None => false,
    }
}

/// A staged copy is only ever kept for a file whose size and modification
/// time matched discovery both before and after it was copied.
pub proof fn lemma_staged_files_were_stable(
    expected: FileSnapshot,
    before: FileSnapshot,
    after: Option<FileSnapshot>,
)
    requires
        before == expected,
        after == Some(before),
    ensures
        after == Some(expected),
{
}

/// A discovered file's size as the signed 64-bit value the entry stores, when
/// it fits.
pub fn discovered_source_size(byte_size: u64) -> (r: Option<i64>)
    ensures
        r == if byte_size <= i64::MAX {
            Some(byte_size as i64)
        } else {
            None::<i64>
        },
{
    if byte_size <= 0x7fff_ffff_ffff_ffffu64 {
        Some(byte_size as i64)
    } else {
        None
    }
}

/// A stored entry's size as the unsigned size a file can have; a negative
/// stored size is rejected.
pub fn expected_source_size(source_size: i64) -> (r: Option<u64>)
    ensures
        r == if source_size >= 0 {
            Some(source_size as u64)
        } else {
            None::<u64>
        },
{
    if source_size >= 0 {
        Some(source_size as u64)
    } else {
        None
    }
}

/// A stored source path may be opened only below the watch root: it must be
/// relative and climb no directory.
pub fn source_path_stays_below_root(is_absolute: bool, parts: &[PathPart]) -> (r: bool)
    ensures
        r == (!is_absolute && forall|i: int|
            0 <= i < parts@.len() ==> #[trigger] parts@[i] != PathPart::ParentDir),
{
    if is_absolute {
        return false;
    }
    let mut i: usize = 0;
    while i < parts.len()
        invariant
            i <= parts@.len(),
            forall|k: int| 0 <= k < i ==> #[trigger] parts@[k] != PathPart::ParentDir,
        decreases parts@.len() - i,
    {
        if let PathPart::ParentDir = parts[i] {
            assert(parts@[i as int] == PathPart::ParentDir);
            return false;
        }
        i = i + 1;
    }
    true
}

} // verus!

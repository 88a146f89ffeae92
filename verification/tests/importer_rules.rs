use strife::directories::{bytes_le_exec, parent_first_order};
use strife::importer::{
    classify_entry, discovered_source_size, expected_source_size, is_hidden, skip_as_hidden,
    source_path_stays_below_root, unchanged_after_stream, unchanged_since_discovery,
    FileSnapshot, PathPart, ScanEntryKind, ScanOptions, ScanReport,
};

fn parts(path: &str) -> Vec<PathPart> {
    path.split('/')
        .filter(|part| !part.is_empty())
        .map(|part| match part {
            "." => PathPart::CurDir,
            ".." => PathPart::ParentDir,
            name => PathPart::Normal(name.to_owned()),
        })
        .collect()
}

#[test]
fn any_dotted_component_hides_a_path() {
    assert!(is_hidden(&parts(".private/secret.txt")));
    assert!(is_hidden(&parts("photos/.cache/x")));
    assert!(!is_hidden(&parts("photos/2024/image.jpg")));
    assert!(!is_hidden(&parts("note.txt")));
    assert!(is_hidden(&[PathPart::CurDir, PathPart::Normal("a".to_owned())]));
    assert!(!is_hidden(&[PathPart::RootDir, PathPart::Opaque]));
    assert!(!is_hidden(&[]));
}

#[test]
fn hidden_entries_are_skipped_unless_requested() {
    let hidden = parts(".private");
    assert!(skip_as_hidden(ScanOptions::default(), &hidden));
    assert!(!skip_as_hidden(ScanOptions { include_hidden: true }, &hidden));
    assert!(!skip_as_hidden(ScanOptions::default(), &parts("visible")));
}

#[test]
fn entries_are_classified_without_following_links() {
    assert_eq!(classify_entry(true, false), ScanEntryKind::Directory);
    assert_eq!(classify_entry(false, true), ScanEntryKind::RegularFile);
    assert_eq!(classify_entry(false, false), ScanEntryKind::Special);
}

#[test]
fn a_report_counts_every_visited_entry_once() {
    let mut report = ScanReport::default();
    report.record_hidden();
    report.record_entry(ScanEntryKind::Directory, "photos".to_owned());
    report.record_entry(ScanEntryKind::RegularFile, String::new());
    report.record_entry(ScanEntryKind::RegularFile, String::new());
    report.record_entry(ScanEntryKind::Special, String::new());
    assert_eq!(
        report,
        ScanReport {
            directories: vec!["photos".to_owned()],
            files_discovered: 2,
            hidden_entries_skipped: 1,
            special_entries_skipped: 1,
        }
    );
}

#[test]
fn only_unchanged_files_are_staged() {
    let seen = FileSnapshot { byte_size: 5, modified_secs: 1_700_000_000, modified_nanos: 7 };
    let touched = FileSnapshot { modified_nanos: 8, ..seen };
    assert!(unchanged_since_discovery(seen, seen));
    assert!(!unchanged_since_discovery(touched, seen));
    assert!(unchanged_after_stream(Some(seen), seen));
    assert!(!unchanged_after_stream(Some(touched), seen));
    assert!(!unchanged_after_stream(None, seen));
}

#[test]
fn sizes_convert_only_when_they_fit() {
    assert_eq!(discovered_source_size(5), Some(5));
    assert_eq!(discovered_source_size(i64::MAX as u64), Some(i64::MAX));
    assert_eq!(discovered_source_size(i64::MAX as u64 + 1), None);
    assert_eq!(expected_source_size(0), Some(0));
    assert_eq!(expected_source_size(-1), None);
}

#[test]
fn staged_paths_stay_below_the_watch_root() {
    assert!(source_path_stays_below_root(false, &parts("photos/two.jpg")));
    assert!(!source_path_stays_below_root(true, &parts("etc/passwd")));
    assert!(!source_path_stays_below_root(false, &parts("photos/../../etc")));
}

fn dir(parts: &[&str]) -> Vec<Vec<u8>> {
    parts.iter().map(|part| part.as_bytes().to_vec()).collect()
}

#[test]
fn directories_are_listed_parent_first() {
    let dirs = vec![
        dir(&["photos", "2024"]),
        dir(&["photos"]),
        dir(&["notes"]),
        dir(&["photos-old"]),
    ];
    let order = parent_first_order(&dirs);
    assert_eq!(order, vec![2, 1, 0, 3]);
    assert_eq!(parent_first_order(&[]), Vec::<usize>::new());
}

#[test]
fn bytes_compare_lexicographically() {
    assert!(bytes_le_exec(b"", b"a"));
    assert!(bytes_le_exec(b"ab", b"ab"));
    assert!(bytes_le_exec(b"ab", b"abc"));
    assert!(!bytes_le_exec(b"abc", b"ab"));
    assert!(bytes_le_exec(b"abc", b"abd"));
    assert!(!bytes_le_exec(b"b", b"abc"));
}

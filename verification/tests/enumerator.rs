use std::path::PathBuf;

use kingfisher::cli::commands::inputs::{ContentFilteringArgs, InputSpecifierArgs};
use kingfisher::cli::commands::scan::ScanArgs;
use kingfisher::filesystem::{
    open_git_repo, EntryKind, EnumeratorError, FilesystemEnumerator, FoundInput, IgnoreReader,
    IgnoreStep, OpenFailure, Visitor, WalkEntry,
};

fn scan_args(max_file_size: Option<u64>, no_dedup: bool) -> ScanArgs {
    ScanArgs {
        input_specifier_args: InputSpecifierArgs {
            path_inputs: Vec::new(),
            commit_metadata: true,
        },
        content_filtering_args: ContentFilteringArgs {
            max_file_size,
            no_extract_archives: false,
            extraction_depth: 2,
        },
        no_dedup,
        no_validate: true,
        rule_stats: false,
        num_jobs: 2,
        ignore_certs: false,
        use_progress: false,
    }
}

fn file(path: &str, size: u64) -> Option<WalkEntry> {
    Some(WalkEntry { path: PathBuf::from(path), kind: EntryKind::File(size) })
}

fn entry(path: &str, kind: EntryKind) -> Option<WalkEntry> {
    Some(WalkEntry { path: PathBuf::from(path), kind })
}

#[test]
fn negative_sizes_fall_back_to_the_default() {
    let asked = |size: Option<u64>| scan_args(size, false).content_filtering_args;
    assert_eq!(asked(None).max_file_size_bytes(), Some(26_214_400));
    assert_eq!(asked(Some(0)).max_file_size_bytes(), Some(0));
    assert_eq!(asked(Some(5 * 1024 * 1024)).max_file_size_bytes(), Some(5_242_880));
}

#[test]
fn enumerator_needs_an_input() {
    match FilesystemEnumerator::new(Vec::new(), &scan_args(None, false)) {
        Err(e) => {
            assert!(matches!(e, EnumeratorError::NoInputs));
            assert_eq!(e.message(), "No inputs provided");
        }
        Ok(_) => panic!("an enumeration of nothing was set up"),
    }
}

#[test]
fn enumerator_starts_with_the_defaults() {
    let inputs = vec![PathBuf::from("a"), PathBuf::from("b")];
    let enumerator = FilesystemEnumerator::new(inputs, &scan_args(Some(9), false)).unwrap();
    assert_eq!(enumerator.roots(), &vec![PathBuf::from("a"), PathBuf::from("b")]);
    let walk = enumerator.walk_settings();
    assert!(!walk.follow_links);
    assert!(!walk.standard_filters);
    assert_eq!(walk.max_filesize, Some(9));
    assert_eq!(walk.threads, 0);
    let visitor = enumerator.run();
    assert_eq!(visitor.max_file_size, Some(9));
    assert!(visitor.extract_archives);
    assert_eq!(visitor.extraction_depth, 2);
    assert!(FilesystemEnumerator::DEFAULT_ENUMERATE_GIT_HISTORY);
    assert!(!FilesystemEnumerator::DEFAULT_FOLLOW_LINKS);
    assert_eq!(FilesystemEnumerator::DEFAULT_MAX_FILESIZE, 104_857_600);
}

#[test]
fn enumerator_settings_chain() {
    let mut enumerator =
        FilesystemEnumerator::new(vec![PathBuf::from(".")], &scan_args(Some(9), false)).unwrap();
    enumerator
        .no_dedup(true)
        .threads(4)
        .follow_links(true)
        .collect_git_metadata(false)
        .enumerate_git_history(false)
        .max_filesize(None);
    let walk = enumerator.walk_settings();
    assert_eq!(walk.threads, 4);
    assert!(walk.follow_links);
    assert_eq!(walk.max_filesize, None);
    assert_eq!(enumerator.run().max_file_size, None);
    enumerator.max_filesize(Some(3));
    assert_eq!(enumerator.walk_settings().max_filesize, Some(3));
    assert_eq!(enumerator.run().max_file_size, Some(3));
    assert_eq!(enumerator.walk_settings().threads, 4);
}

#[test]
fn archives_are_extracted_unless_told_otherwise() {
    let mut args = scan_args(None, false);
    args.content_filtering_args.no_extract_archives = true;
    args.content_filtering_args.extraction_depth = 25;
    let visitor = FilesystemEnumerator::new(vec![PathBuf::from(".")], &args).unwrap().run();
    assert!(!visitor.extract_archives);
    assert_eq!(visitor.extraction_depth, 25);
}

#[test]
fn visitor_reports_files_within_the_limit() {
    let visitor =
        Visitor { max_file_size: Some(100), extract_archives: true, extraction_depth: 3 };
    assert!(!visitor.file_too_big(100));
    assert!(visitor.file_too_big(101));
    match visitor.visit(file("x", 100)) {
        Some(FoundInput::File(found)) => {
            assert_eq!(found.path, PathBuf::from("x"));
            assert_eq!(found.num_bytes, 100);
            assert!(found.extract_archives);
            assert_eq!(found.extraction_depth, 3);
        }
        other => panic!("unexpected: {other:?}"),
    }
    assert!(visitor.visit(file("x", 101)).is_none());
    assert!(visitor.visit(file("empty", 0)).is_some());
}

#[test]
fn visitor_without_limit_reports_every_file() {
    let visitor = Visitor { max_file_size: None, extract_archives: false, extraction_depth: 1 };
    assert!(!visitor.file_too_big(u64::MAX));
    assert!(visitor.visit(file("x", u64::MAX)).is_some());
}

#[test]
fn higher_limits_find_more() {
    let low = Visitor { max_file_size: Some(10), extract_archives: false, extraction_depth: 1 };
    let high = Visitor { max_file_size: Some(20), ..low };
    for size in [0, 10, 11, 20, 21] {
        if low.visit(file("x", size)).is_some() {
            assert!(high.visit(file("x", size)).is_some());
        }
    }
    assert!(high.visit(file("x", 20)).is_some());
    assert!(low.visit(file("x", 20)).is_none());
}

#[test]
fn visitor_reports_directories_and_passes_over_the_rest() {
    let visitor = Visitor { max_file_size: Some(0), extract_archives: false, extraction_depth: 1 };
    match visitor.visit(entry("d", EntryKind::Directory)) {
        Some(FoundInput::Directory(found)) => assert_eq!(found.path, PathBuf::from("d")),
        other => panic!("unexpected: {other:?}"),
    }
    assert!(visitor.visit(entry("l", EntryKind::Symlink)).is_none());
    assert!(visitor.visit(entry("s", EntryKind::Other)).is_none());
    assert!(visitor.visit(None).is_none());
}

#[test]
fn ignore_files_go_to_the_matcher_and_then_to_the_walk() {
    assert!(matches!(
        FilesystemEnumerator::add_ignore(None, None),
        IgnoreStep::Read(IgnoreReader::Matcher)
    ));
    assert!(matches!(
        FilesystemEnumerator::add_ignore(Some(IgnoreReader::Matcher), None),
        IgnoreStep::Read(IgnoreReader::Walk)
    ));
    assert!(matches!(
        FilesystemEnumerator::add_ignore(Some(IgnoreReader::Walk), None),
        IgnoreStep::Added
    ));
}

#[test]
fn ignore_files_that_are_refused_end_the_addition() {
    for reader in [IgnoreReader::Matcher, IgnoreReader::Walk] {
        match FilesystemEnumerator::add_ignore(Some(reader), Some("bad glob".to_string())) {
            IgnoreStep::Failed(e) => assert_eq!(e.message(), "bad glob"),
            other => panic!("unexpected: {other:?}"),
        }
    }
}

#[test]
fn no_repository_is_no_fault() {
    assert_eq!(open_git_repo::<u8, String>(Ok(7)), Ok(Some(7)));
    assert_eq!(open_git_repo::<u8, String>(Err(OpenFailure::NotARepository)), Ok(None));
    assert_eq!(
        open_git_repo::<u8, String>(Err(OpenFailure::Other("broken".to_string()))),
        Err("broken".to_string())
    );
}

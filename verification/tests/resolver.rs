//! The path resolver and the scanner filter, over both run modes.

use imgopt::resolve::{
    plan_entry, resolve_entries, scan_work_items, EntryInfo, EntryPlan, RunMode, SkipReason,
};

fn p(s: &str) -> Vec<u8> {
    s.as_bytes().to_vec()
}

fn entry(path: &str, exists: bool, is_dir: bool) -> EntryInfo {
    EntryInfo { path: p(path), exists, is_dir }
}

#[test]
fn missing_path_is_skipped() {
    let plan = plan_entry(&entry("nowhere.jpg", false, false), RunMode::SafeCopy);
    match plan {
        EntryPlan::Skip { reason } => assert_eq!(reason, SkipReason::NotFound),
        _ => panic!("a missing path must be skipped"),
    }
}

#[test]
fn unsupported_extension_is_skipped() {
    let plan = plan_entry(&entry("notes.txt", true, false), RunMode::Replace);
    match plan {
        EntryPlan::Skip { reason } => assert_eq!(reason, SkipReason::UnsupportedExtension),
        _ => panic!("an unsupported file must be skipped"),
    }
}

#[test]
fn directory_is_never_skipped() {
    let plan = plan_entry(&entry("assets", true, true), RunMode::Replace);
    match plan {
        EntryPlan::Directory { root, needs_copy } => {
            assert_eq!(root, p("assets"));
            assert!(!needs_copy);
        },
        _ => panic!("a directory must be walked"),
    }
}

#[test]
fn safe_copy_directory_gets_mirror_root() {
    let plan = plan_entry(&entry("assets", true, true), RunMode::SafeCopy);
    match plan {
        EntryPlan::Directory { root, needs_copy } => {
            assert_eq!(root, p("assets__optimized"));
            assert!(needs_copy);
        },
        _ => panic!("a directory must be walked"),
    }
}

#[test]
fn replace_mode_processes_file_in_place() {
    let plan = plan_entry(&entry("a/cat.jpg", true, false), RunMode::Replace);
    match plan {
        EntryPlan::File { item, needs_copy } => {
            assert_eq!(item.processing, p("a/cat.jpg"));
            assert_eq!(item.naming_base, p("a/cat.jpg"));
            assert!(!needs_copy);
        },
        _ => panic!("a supported file must be processed"),
    }
}

#[test]
fn safe_copy_file_names_derived_outputs_after_original() {
    let plan = plan_entry(&entry("a/cat.jpg", true, false), RunMode::SafeCopy);
    match plan {
        EntryPlan::File { item, needs_copy } => {
            assert_eq!(item.processing, p("a/cat__optimized.jpg"));
            assert_eq!(item.naming_base, p("a/cat.jpg"));
            assert!(needs_copy);
        },
        _ => panic!("a supported file must be processed"),
    }
}

#[test]
fn resolver_counts_skips_and_keeps_order() {
    let entries = vec![
        entry("missing.png", false, false),
        entry("pics", true, true),
        entry("readme.md", true, false),
        entry("dog.jpeg", true, false),
    ];
    let (plans, skipped) = resolve_entries(&entries, RunMode::SafeCopy);
    assert_eq!(plans.len(), 4);
    assert_eq!(skipped, 2);
    assert!(matches!(plans[0], EntryPlan::Skip { reason: SkipReason::NotFound }));
    assert!(matches!(plans[1], EntryPlan::Directory { .. }));
    assert!(matches!(plans[2], EntryPlan::Skip { reason: SkipReason::UnsupportedExtension }));
    assert!(matches!(plans[3], EntryPlan::File { .. }));
}

#[test]
fn single_missing_path_yields_empty_run() {
    let entries = vec![entry("nowhere", false, false)];
    let (plans, skipped) = resolve_entries(&entries, RunMode::SafeCopy);
    assert_eq!(plans.len(), 1);
    assert_eq!(skipped, 1);
    assert!(matches!(plans[0], EntryPlan::Skip { reason: SkipReason::NotFound }));
    // No directory to walk, no file to process: the run finds no supported
    // files and creates no output.
    let work = scan_work_items(&Vec::new());
    assert!(work.is_empty());
}

#[test]
fn scanner_keeps_only_supported_files_in_walk_order() {
    let walked = vec![
        p("t/a.png"),
        p("t/readme.md"),
        p("t/sub/b.JPG"),
        p("t/sub/noext"),
        p("t/c.jpeg"),
    ];
    let items = scan_work_items(&walked);
    assert_eq!(items.len(), 3);
    assert_eq!(items[0].processing, p("t/a.png"));
    assert_eq!(items[1].processing, p("t/sub/b.JPG"));
    assert_eq!(items[2].processing, p("t/c.jpeg"));
    for item in &items {
        assert_eq!(item.processing, item.naming_base);
    }
}

#[test]
fn replace_mode_never_names_an_optimized_output() {
    let entries = vec![
        entry("mix", true, true),
        entry("mix/a.png", true, false),
        entry("mix/b.bin", true, false),
    ];
    let (plans, skipped) = resolve_entries(&entries, RunMode::Replace);
    assert_eq!(skipped, 1);
    for plan in &plans {
        match plan {
            EntryPlan::Directory { root, needs_copy } => {
                assert!(!needs_copy);
                assert!(!root.windows(11).any(|w| w == b"__optimized"));
            },
            EntryPlan::File { item, needs_copy } => {
                assert!(!needs_copy);
                assert!(!item.processing.windows(11).any(|w| w == b"__optimized"));
            },
            EntryPlan::Skip { .. } => {},
        }
    }
}

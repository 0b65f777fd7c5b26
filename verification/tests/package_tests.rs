use std::io::Read;

use camera_server::error::Error;
use camera_server::package::DirSnapshot;
use camera_server::package::PackageManager;
use camera_server::package::PackageTaskStatus;
use camera_server::package::SourceEntry;
use camera_server::package::source_totals;

fn file_entry(rel_path: &str, data: Vec<u8>) -> SourceEntry {
    SourceEntry { rel_path: rel_path.to_string(), is_dir: false, data }
}

fn dir_entry(rel_path: &str) -> SourceEntry {
    SourceEntry { rel_path: rel_path.to_string(), is_dir: true, data: Vec::new() }
}

fn sample_snapshot() -> DirSnapshot {
    DirSnapshot {
        entries: vec![
            file_entry("a.jpg", vec![0xAA; 1000]),
            dir_entry("sub"),
            file_entry("sub/b.jpg", vec![0xBB; 2000]),
        ],
    }
}

#[test]
fn source_totals_count_files_and_sizes() {
    let snap = sample_snapshot();
    let (files, size) = source_totals(&snap.entries);
    assert_eq!(files, 2);
    assert_eq!(size, 3000);
}

#[test]
fn start_task_records_totals_and_completes() {
    let mut manager = PackageManager::new("/packages");
    let snap = sample_snapshot();
    let out = manager.start_package_task("src", Some(&snap), "bundle").unwrap();
    assert_eq!(out.target_file, "/packages/bundle.zip");
    assert!(out.task_id.starts_with("package_"));
    let task = manager.get_current_task().unwrap();
    assert_eq!(task.total_files, 2);
    assert_eq!(task.total_size, 3000);
    assert_eq!(task.processed_files, 2);
    assert_eq!(task.processed_size, 3000);
    assert!(matches!(task.status, PackageTaskStatus::Completed));
    assert_eq!(task.progress_permille, 1000);
    assert_eq!(task.source_dir, "src");
    assert_eq!(task.target_file, "/packages/bundle.zip");
    assert!(task.completed_at.is_some());
    assert!(task.error.is_none());
}

#[test]
fn archive_round_trips_byte_identical() {
    let mut manager = PackageManager::new("/packages");
    let snap = sample_snapshot();
    let out = manager.start_package_task("src", Some(&snap), "bundle").unwrap();

    let cursor = std::io::Cursor::new(out.archive);
    let mut archive = zip::ZipArchive::new(cursor).unwrap();

    let mut a = Vec::new();
    archive.by_name("a.jpg").unwrap().read_to_end(&mut a).unwrap();
    assert_eq!(a, vec![0xAA; 1000]);

    let mut b = Vec::new();
    archive.by_name("sub/b.jpg").unwrap().read_to_end(&mut b).unwrap();
    assert_eq!(b, vec![0xBB; 2000]);

    let sub = archive.by_name("sub/").unwrap();
    assert!(sub.is_dir());
}

#[test]
fn archive_entries_use_unix_permissions() {
    let mut manager = PackageManager::new("/packages");
    let snap = DirSnapshot { entries: vec![file_entry("a.bin", vec![1, 2, 3])] };
    let out = manager.start_package_task("src", Some(&snap), "perm").unwrap();
    let cursor = std::io::Cursor::new(out.archive);
    let mut archive = zip::ZipArchive::new(cursor).unwrap();
    let entry = archive.by_name("a.bin").unwrap();
    assert_eq!(entry.unix_mode().unwrap() & 0o777, 0o755);
}

#[test]
fn missing_source_fails_not_found_and_sets_no_task() {
    let mut manager = PackageManager::new("/packages");
    let r = manager.start_package_task("/gone", None, "bundle");
    assert!(matches!(r, Err(Error::NotFound(_))));
    assert!(manager.get_current_task().is_none());
}

#[test]
fn empty_snapshot_completes_with_zero_totals() {
    let mut manager = PackageManager::new("/packages");
    let snap = DirSnapshot { entries: Vec::new() };
    let out = manager.start_package_task("src", Some(&snap), "empty").unwrap();
    let task = manager.get_current_task().unwrap();
    assert_eq!(task.total_files, 0);
    assert_eq!(task.total_size, 0);
    assert!(matches!(task.status, PackageTaskStatus::Completed));
    assert_eq!(task.progress_permille, 1000);
    // still a valid, readable archive with no entries
    let cursor = std::io::Cursor::new(out.archive);
    let archive = zip::ZipArchive::new(cursor).unwrap();
    assert_eq!(archive.len(), 0);
}

#[test]
fn terminal_task_is_replaced_by_a_fresh_start() {
    let mut manager = PackageManager::new("/packages");
    let snap = sample_snapshot();
    let first = manager.start_package_task("src", Some(&snap), "one").unwrap();
    let second = manager.start_package_task("src", Some(&snap), "two").unwrap();
    assert_ne!(first.task_id, second.task_id);
    let task = manager.get_current_task().unwrap();
    assert_eq!(task.target_file, "/packages/two.zip");
}

#[test]
fn a_refused_archive_write_marks_the_task_failed() {
    let mut manager = PackageManager::new("/packages");
    // two entries at the same relative path: the encoder refuses the second
    let snap = DirSnapshot {
        entries: vec![file_entry("a.jpg", vec![1]), file_entry("a.jpg", vec![2])],
    };
    let r = manager.start_package_task("src", Some(&snap), "dup");
    assert!(matches!(r, Err(Error::FormatFailure(_))));
    let task = manager.get_current_task().unwrap();
    assert!(matches!(task.status, PackageTaskStatus::Failed));
    assert!(task.error.is_some());
    assert_eq!(task.total_files, 2);
}

#[test]
fn cancel_on_completed_task_is_a_no_op() {
    let mut manager = PackageManager::new("/packages");
    let snap = sample_snapshot();
    manager.start_package_task("src", Some(&snap), "bundle").unwrap();
    let applied = manager.cancel_current_task().unwrap();
    assert!(!applied);
    let task = manager.get_current_task().unwrap();
    assert!(matches!(task.status, PackageTaskStatus::Completed));
}

#[test]
fn cancel_with_no_task_is_a_no_op() {
    let mut manager = PackageManager::new("/packages");
    let applied = manager.cancel_current_task().unwrap();
    assert!(!applied);
    assert!(manager.get_current_task().is_none());
}

#[test]
fn clear_frees_the_task_slot() {
    let mut manager = PackageManager::new("/packages");
    let snap = sample_snapshot();
    manager.start_package_task("src", Some(&snap), "bundle").unwrap();
    assert!(manager.get_current_task().is_some());
    manager.clear_current_task();
    assert!(manager.get_current_task().is_none());
}

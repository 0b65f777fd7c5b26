use camera_server::error::Error;
use camera_server::file_manager::FileManager;
use camera_server::file_manager::FileType;
use camera_server::file_manager::RemovalKind;
use camera_server::file_manager::dirs_from_entries;
use camera_server::file_manager::files_from_entries;
use camera_server::fs_scan::FsEntry;
use camera_server::fs_scan::PathKind;
use camera_server::paths::join_path;
use camera_server::paths::path_in_root;
use camera_server::paths::str_eq;

fn entry(name: &str, is_file: bool, size: u64) -> FsEntry {
    FsEntry {
        path: format!("/videos/{}", name),
        name: name.to_string(),
        is_file,
        is_dir: !is_file,
        size,
        created_at: 11,
        modified_at: 22,
    }
}

#[test]
fn path_confinement_is_component_wise() {
    assert!(path_in_root("/data/videos/a.mp4", "/data/videos"));
    assert!(path_in_root("/data/videos", "/data/videos"));
    assert!(!path_in_root("/data/videos-other/a.mp4", "/data/videos"));
    assert!(!path_in_root("/data", "/data/videos"));
}

#[test]
fn join_path_inserts_one_separator() {
    assert_eq!(join_path("/data/frames", "clip"), "/data/frames/clip");
}

#[test]
fn str_eq_compares_contents() {
    assert!(str_eq("abc", "abc"));
    assert!(!str_eq("abc", "abd"));
    assert!(!str_eq("abc", "abcd"));
    assert!(str_eq("", ""));
}

#[test]
fn files_from_entries_keeps_files_only_and_tags_them() {
    let entries = vec![
        entry("a.mp4", true, 100),
        entry("nested", false, 0),
        entry("b.mp4", true, 200),
    ];
    let records = files_from_entries(&entries, FileType::Video);
    assert_eq!(records.len(), 2);
    assert_eq!(records[0].name, "a.mp4");
    assert_eq!(records[0].path, "/videos/a.mp4");
    assert_eq!(records[0].size, 100);
    assert_eq!(records[0].created_at, 11);
    assert_eq!(records[0].modified_at, 22);
    assert!(matches!(records[0].file_type, FileType::Video));
    assert_eq!(records[1].name, "b.mp4");
}

#[test]
fn dirs_from_entries_keeps_directories_only() {
    let entries = vec![
        entry("a.mp4", true, 100),
        entry("clip_01", false, 4096),
        entry("clip_02", false, 4096),
    ];
    let records = dirs_from_entries(&entries);
    assert_eq!(records.len(), 2);
    assert_eq!(records[0].name, "clip_01");
    assert!(matches!(records[0].file_type, FileType::Other));
}

#[test]
fn delete_outside_both_roots_fails_not_allowed() {
    let manager = FileManager::new("/data/videos", "/data/frames");
    let r = manager.delete_file_plan("/etc/passwd", PathKind::File);
    assert!(matches!(r, Err(Error::NotAllowed(_))));
    let r = manager.rename_file_plan("/etc/passwd", PathKind::File);
    assert!(matches!(r, Err(Error::NotAllowed(_))));
}

#[test]
fn delete_missing_path_fails_not_found() {
    let manager = FileManager::new("/data/videos", "/data/frames");
    let r = manager.delete_file_plan("/data/videos/a.mp4", PathKind::Missing);
    assert!(matches!(r, Err(Error::NotFound(_))));
}

#[test]
fn delete_inside_a_root_releases_the_right_removal() {
    let manager = FileManager::new("/data/videos", "/data/frames");
    let r = manager.delete_file_plan("/data/videos/a.mp4", PathKind::File);
    assert!(matches!(r, Ok(RemovalKind::SingleFile)));
    let r = manager.delete_file_plan("/data/frames/clip", PathKind::Directory);
    assert!(matches!(r, Ok(RemovalKind::DirectoryTree)));
}

#[test]
fn rename_inside_a_root_is_released() {
    let manager = FileManager::new("/data/videos", "/data/frames");
    let r = manager.rename_file_plan("/data/frames/clip", PathKind::Directory);
    assert!(matches!(r, Ok(())));
}

#[test]
fn delete_file_refuses_existing_path_outside_roots() {
    // "/" exists on any platform the tests run on, and escapes both roots
    let manager = FileManager::new("/video-root-that-does-not-exist", "/frame-root-that-does-not-exist");
    let r = manager.delete_file("/");
    assert!(matches!(r, Err(Error::NotAllowed(_))));
    let r = manager.rename_file("/", "/elsewhere");
    assert!(matches!(r, Err(Error::NotAllowed(_))));
}

#[test]
fn delete_file_fails_not_found_on_missing_path() {
    let manager = FileManager::new("/video-root-that-does-not-exist", "/frame-root-that-does-not-exist");
    let r = manager.delete_file("/video-root-that-does-not-exist/a.mp4");
    assert!(matches!(r, Err(Error::NotFound(_))));
}

#[test]
fn listings_of_missing_roots_are_empty() {
    let manager = FileManager::new("/video-root-that-does-not-exist", "/frame-root-that-does-not-exist");
    assert!(manager.list_videos().is_empty());
    assert!(manager.list_frame_dirs().is_empty());
}

#[test]
fn listing_a_real_directory_yields_its_files() {
    // the crate's own sources: present wherever the tests build
    let manager = FileManager::new("./src", "/frame-root-that-does-not-exist");
    let records = manager.list_videos();
    assert!(!records.is_empty());
    assert!(records.iter().any(|r| r.name == "lib.rs"));
    assert!(records.iter().all(|r| matches!(r.file_type, FileType::Video)));
    assert!(records.iter().all(|r| r.size > 0));
}

#[test]
fn error_message_carries_the_offending_path() {
    let manager = FileManager::new("/data/videos", "/data/frames");
    match manager.delete_file_plan("/etc/passwd", PathKind::File) {
        Err(e) => assert_eq!(e.message(), "/etc/passwd"),
        Ok(_) => panic!("expected a refusal"),
    }
}

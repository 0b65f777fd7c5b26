use camera_server::frame_manager::parse_frame_number;
use camera_server::frame_manager::frames_from_entries;
use camera_server::frame_manager::frame_dir_record;
use camera_server::frame_manager::frame_dirs_from_scans;
use camera_server::frame_manager::dir_totals;
use camera_server::frame_manager::FrameManager;
use camera_server::error::Error;
use camera_server::fs_scan::FsEntry;
use camera_server::fs_scan::PathKind;

fn entry(name: &str, is_file: bool, size: u64) -> FsEntry {
    FsEntry {
        path: format!("/frames/clip/{}", name),
        name: name.to_string(),
        is_file,
        is_dir: !is_file,
        size,
        created_at: 0,
        modified_at: 0,
    }
}

#[test]
fn parses_trailing_number_before_extension() {
    assert_eq!(parse_frame_number("frame_0012.jpg"), 12);
    assert_eq!(parse_frame_number("clip_a_7.png"), 7);
    assert_eq!(parse_frame_number("0042.jpg"), 42);
    assert_eq!(parse_frame_number("frame_3"), 3);
}

#[test]
fn unparsable_names_default_to_zero() {
    assert_eq!(parse_frame_number("abc.jpg"), 0);
    assert_eq!(parse_frame_number("frame_.jpg"), 0);
    assert_eq!(parse_frame_number("frame_12a.jpg"), 0);
    assert_eq!(parse_frame_number(""), 0);
    assert_eq!(parse_frame_number("frame_+.jpg"), 0);
}

#[test]
fn plus_sign_and_overflow_follow_decimal_parsing() {
    assert_eq!(parse_frame_number("frame_+9.jpg"), 9);
    // far beyond what the platform can hold
    assert_eq!(parse_frame_number("frame_99999999999999999999999999.jpg"), 0);
    assert_eq!(parse_frame_number(&format!("frame_{}.jpg", usize::MAX)), usize::MAX);
}

#[test]
fn number_is_taken_after_last_underscore_and_before_first_dot() {
    assert_eq!(parse_frame_number("a_12.b_5.jpg"), 5);
    assert_eq!(parse_frame_number("a_5.tar.gz"), 5);
}

#[test]
fn frames_sorted_ascending_by_number() {
    let entries = vec![
        entry("frame_3.jpg", true, 30),
        entry("frame_1.jpg", true, 10),
        entry("frame_2.jpg", true, 20),
    ];
    let frames = frames_from_entries(&entries);
    let numbers: Vec<usize> = frames.iter().map(|f| f.frame_number).collect();
    assert_eq!(numbers, vec![1, 2, 3]);
    assert_eq!(frames[0].name, "frame_1.jpg");
    assert_eq!(frames[0].size, 10);
}

#[test]
fn listing_is_independent_of_enumeration_order() {
    let a = vec![
        entry("frame_9.jpg", true, 9),
        entry("frame_4.jpg", true, 4),
        entry("frame_7.jpg", true, 7),
    ];
    let b = vec![
        entry("frame_4.jpg", true, 4),
        entry("frame_7.jpg", true, 7),
        entry("frame_9.jpg", true, 9),
    ];
    let fa = frames_from_entries(&a);
    let fb = frames_from_entries(&b);
    assert_eq!(fa.len(), fb.len());
    for (x, y) in fa.iter().zip(fb.iter()) {
        assert_eq!(x.name, y.name);
        assert_eq!(x.frame_number, y.frame_number);
        assert_eq!(x.size, y.size);
    }
}

#[test]
fn ties_keep_enumeration_order() {
    let entries = vec![
        entry("first_0.jpg", true, 1),
        entry("unparsable.jpg", true, 2),
        entry("second_0.jpg", true, 3),
    ];
    let frames = frames_from_entries(&entries);
    // all three parse to 0, so scan order is kept
    assert_eq!(frames[0].name, "first_0.jpg");
    assert_eq!(frames[1].name, "unparsable.jpg");
    assert_eq!(frames[2].name, "second_0.jpg");
}

#[test]
fn directories_are_not_frames() {
    let entries = vec![
        entry("frame_1.jpg", true, 10),
        entry("nested", false, 0),
    ];
    let frames = frames_from_entries(&entries);
    assert_eq!(frames.len(), 1);
}

#[test]
fn dir_totals_count_files_and_sum_sizes() {
    let entries = vec![
        entry("frame_1.jpg", true, 10),
        entry("nested", false, 999),
        entry("frame_2.jpg", true, 20),
    ];
    let (count, size) = dir_totals(&entries);
    assert_eq!(count, 2);
    assert_eq!(size, 30);
}

#[test]
fn dir_totals_saturate_instead_of_overflowing() {
    let entries = vec![
        entry("frame_1.bin", true, u64::MAX),
        entry("frame_2.bin", true, 100),
    ];
    let (count, size) = dir_totals(&entries);
    assert_eq!(count, 2);
    assert_eq!(size, u64::MAX);
}

#[test]
fn frame_dir_record_carries_identity_and_aggregates() {
    let outer = FsEntry {
        path: "/frames/clip".to_string(),
        name: "clip".to_string(),
        is_file: false,
        is_dir: true,
        size: 4096,
        created_at: 77,
        modified_at: 88,
    };
    let inner = vec![entry("frame_1.jpg", true, 10), entry("frame_2.jpg", true, 20)];
    let record = frame_dir_record(&outer, &inner);
    assert_eq!(record.path, "/frames/clip");
    assert_eq!(record.name, "clip");
    assert_eq!(record.created_at, 77);
    assert_eq!(record.frame_count, 2);
    assert_eq!(record.total_size, 30);
    let empty = frame_dir_record(&outer, &Vec::new());
    assert_eq!(empty.frame_count, 0);
    assert_eq!(empty.total_size, 0);
}

#[test]
fn frame_dirs_from_scans_maps_each_subdirectory_in_order() {
    let outer = vec![
        entry("stray.txt", true, 5),
        entry("clip_a", false, 4096),
        entry("clip_b", false, 4096),
    ];
    let inners = vec![
        vec![entry("frame_1.jpg", true, 10), entry("frame_2.jpg", true, 20)],
        Vec::new(),
    ];
    let records = frame_dirs_from_scans(&outer, &inners);
    assert_eq!(records.len(), 2);
    assert_eq!(records[0].name, "clip_a");
    assert_eq!(records[0].frame_count, 2);
    assert_eq!(records[0].total_size, 30);
    assert_eq!(records[1].name, "clip_b");
    assert_eq!(records[1].frame_count, 0);
    assert_eq!(records[1].total_size, 0);
}

#[test]
fn list_frames_plan_decides_on_the_probe() {
    let manager = FrameManager::new("/frames");
    let entries = vec![entry("frame_2.jpg", true, 2), entry("frame_1.jpg", true, 1)];
    let frames = manager.list_frames_plan("/frames/clip", PathKind::Directory, &entries).unwrap();
    assert_eq!(frames.len(), 2);
    assert_eq!(frames[0].frame_number, 1);
    let r = manager.list_frames_plan("/frames/clip", PathKind::Missing, &entries);
    assert!(matches!(r, Err(Error::NotFound(_))));
    let r = manager.list_frames_plan("/frames/clip", PathKind::File, &entries);
    assert!(matches!(r, Err(Error::NotFound(_))));
}

#[test]
fn list_frames_fails_not_found_on_missing_directory() {
    let manager = FrameManager::new("/frames-root-that-does-not-exist");
    let r = manager.list_frames("/frames-root-that-does-not-exist/clip");
    assert!(matches!(r, Err(Error::NotFound(_))));
}

#[test]
fn listing_a_real_directory_yields_sorted_frames() {
    // the crate's own sources: every name parses to 0, so scan order is kept
    let manager = FrameManager::new(".");
    let frames = manager.list_frames("./src").unwrap();
    assert!(!frames.is_empty());
    assert!(frames.iter().any(|f| f.name == "lib.rs"));
    for pair in frames.windows(2) {
        assert!(pair[0].frame_number <= pair[1].frame_number);
    }
}

#[test]
fn create_frame_dir_refuses_existing_target() {
    let manager = FrameManager::new("");
    // "" joined with "." is "/.", the root directory, which exists
    let r = manager.create_frame_dir(".");
    assert!(matches!(r, Err(Error::AlreadyExists(_))));
}

#[test]
fn create_frame_dir_returns_the_joined_path() {
    let manager = FrameManager::new("/frames-root-that-does-not-exist");
    let r = manager.create_frame_dir("clip_01");
    assert_eq!(r.unwrap(), "/frames-root-that-does-not-exist/clip_01");
}

#[test]
fn delete_frame_dir_refuses_paths_outside_the_root() {
    let manager = FrameManager::new("/frames-root-that-does-not-exist");
    // "/" exists and is a directory, but lies outside the root
    let r = manager.delete_frame_dir("/");
    assert!(matches!(r, Err(Error::NotAllowed(_))));
}

#[test]
fn delete_frame_dir_fails_not_found_on_missing_directory() {
    let manager = FrameManager::new("/frames-root-that-does-not-exist");
    let r = manager.delete_frame_dir("/frames-root-that-does-not-exist/clip");
    assert!(matches!(r, Err(Error::NotFound(_))));
}

use camera_server::disk::DiskManager;
use camera_server::disk::DiskSpaceInfo;
use camera_server::disk::disk_space_from;
use camera_server::disk::enough_space;
use camera_server::error::Error;
use camera_server::fs_scan::FsEntry;
use camera_server::fs_scan::PathKind;

#[test]
fn boundary_is_inclusive() {
    let info = DiskSpaceInfo { total: 100, used: 50, available: 50 };
    assert!(enough_space(&info, 49));
    assert!(enough_space(&info, 50));
    assert!(!enough_space(&info, 51));
    assert!(enough_space(&info, 0));
}

#[test]
fn snapshot_arithmetic_scales_blocks() {
    let info = disk_space_from(4096, 1000, 250);
    assert_eq!(info.total, 4096000);
    assert_eq!(info.available, 1024000);
    assert_eq!(info.used, 4096000 - 1024000);
}

#[test]
fn snapshot_arithmetic_saturates() {
    let info = disk_space_from(u64::MAX, 2, 1);
    assert_eq!(info.total, u64::MAX);
    assert_eq!(info.available, u64::MAX);
    assert_eq!(info.used, 0);
}

#[test]
fn usage_permille_is_exact() {
    let info = DiskSpaceInfo { total: 1000, used: 250, available: 750 };
    assert_eq!(info.usage_permille(), 250);
    let empty = DiskSpaceInfo { total: 0, used: 0, available: 0 };
    assert_eq!(empty.usage_permille(), 0);
    let full = DiskSpaceInfo { total: 7, used: 7, available: 0 };
    assert_eq!(full.usage_permille(), 1000);
}

#[test]
fn disk_space_plan_decides_on_probe_and_report() {
    let manager = DiskManager::new();
    let r = manager.disk_space_plan("/data", PathKind::Missing, Some((4096, 10, 5)));
    assert!(matches!(r, Err(Error::NotFound(_))));
    let r = manager.disk_space_plan("/data", PathKind::Directory, None);
    assert!(matches!(r, Err(Error::IOFailure(_))));
    let info = manager.disk_space_plan("/data", PathKind::Directory, Some((4096, 10, 5))).unwrap();
    assert_eq!(info.total, 40960);
    assert_eq!(info.available, 20480);
    assert_eq!(info.used, 20480);
}

#[test]
fn enough_space_plan_answers_the_boundary() {
    let manager = DiskManager::new();
    let report = Some((1, 100, 50));
    assert_eq!(manager.enough_space_plan("/d", PathKind::Directory, report, 50).unwrap(), true);
    assert_eq!(manager.enough_space_plan("/d", PathKind::Directory, report, 51).unwrap(), false);
    let r = manager.enough_space_plan("/d", PathKind::Missing, report, 0);
    assert!(matches!(r, Err(Error::NotFound(_))));
}

#[test]
fn directory_size_plan_sums_the_scan() {
    let manager = DiskManager::new();
    let entries = vec![
        FsEntry {
            path: "/d/a".to_string(),
            name: "a".to_string(),
            is_file: true,
            is_dir: false,
            size: 70,
            created_at: 0,
            modified_at: 0,
        },
        FsEntry {
            path: "/d/sub".to_string(),
            name: "sub".to_string(),
            is_file: false,
            is_dir: true,
            size: 4096,
            created_at: 0,
            modified_at: 0,
        },
    ];
    assert_eq!(manager.directory_size_plan("/d", PathKind::Directory, &entries).unwrap(), 70);
    let r = manager.directory_size_plan("/d", PathKind::File, &entries);
    assert!(matches!(r, Err(Error::NotFound(_))));
}

#[test]
fn live_snapshot_of_the_working_directory() {
    let manager = DiskManager::new();
    let info = manager.get_disk_space(".").unwrap();
    assert!(info.used <= info.total);
    // asking for nothing always fits
    assert_eq!(manager.has_enough_space(".", 0).unwrap(), true);
}

#[test]
fn directory_size_of_a_real_tree_counts_its_files() {
    let manager = DiskManager::new();
    // the crate's own sources: present wherever the tests build
    let size = manager.get_directory_size("./src").unwrap();
    assert!(size > 0);
}

#[test]
fn missing_path_fails_not_found() {
    let manager = DiskManager::new();
    let r = manager.get_disk_space("/path-that-does-not-exist");
    assert!(matches!(r, Err(Error::NotFound(_))));
    let r = manager.has_enough_space("/path-that-does-not-exist", 1);
    assert!(matches!(r, Err(Error::NotFound(_))));
    let r = manager.get_directory_size("/path-that-does-not-exist");
    assert!(matches!(r, Err(Error::NotFound(_))));
}

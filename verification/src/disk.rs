//! The disk-quota guard: free-space snapshots and directory sizes.
//!
//! The free-space numbers come from the platform's `statvfs` query, which
//! is machine state: the contracts here pin down the arithmetic performed
//! on whatever the platform reported, and [`enough_space`] answers the
//! quota question exactly for any snapshot.

use vstd::prelude::*;

use crate::error::Error;
use crate::frame_manager::dir_totals;
use crate::fs_scan::FsEntry;
use crate::fs_scan::PathKind;
use crate::fs_scan::probe_path;
use crate::fs_scan::scan_dir_deep;
use crate::fs_scan::total_file_size;

verus! {

/// A point-in-time snapshot of a filesystem's space.
#[derive(Debug, Clone, Copy, PartialEq, Eq, Structural)]
pub struct DiskSpaceInfo {
    /// Total space in bytes.
    pub total: u64,
    /// Used space in bytes; never more than `total`.
    pub used: u64,
    /// Available space in bytes.
    pub available: u64,
}

impl DiskSpaceInfo {
    /// The usage ratio in thousandths: `used * 1000 / total`, 0 when the
    /// total is 0.
    pub fn usage_permille(&self) -> (r: u64)
        requires
            self.used <= self.total,
        ensures
            r as int == if self.total == 0 {
                0int
            } else {
                self.used * 1000 / self.total as int
            },
            r <= 1000,
    {
        if self.total == 0 {
            0
        } else {
            proof {
                assert(self.used * 1000 / self.total as int <= 1000) by (nonlinear_arith)
                    requires
                        self.used <= self.total,
                        self.total > 0,
                ;
            }
            ((self.used as u128 * 1000) / (self.total as u128)) as u64
        }
    }
}

/// Relies on nix::sys::statvfs::statvfs: the filesystem's block size,
/// block count and available block count for the given path, or nothing
/// when the query fails.
#[verifier::external_body]
fn statvfs_blocks(path: &str) -> Option<(u64, u64, u64)> {
    match nix::sys::statvfs::statvfs(path) {
        Ok(s) => Some((s.block_size() as u64, s.blocks() as u64, s.blocks_available() as u64)),
        Err(_) => None,
    }
}

/// The snapshot a raw free-space report denotes: sizes are the block
/// counts scaled by the block size (saturating), and the used space is
/// what the total exceeds the available by.
pub open spec fn spec_disk_space(block_size: u64, blocks: u64, blocks_available: u64)
    -> DiskSpaceInfo {
    let total = crate::clamp_u64(block_size * blocks);
    let available = crate::clamp_u64(block_size * blocks_available);
    let used = if available <= total {
        total - available
    } else {
        0int
    };
    DiskSpaceInfo { total: total as u64, used: used as u64, available: available as u64 }
}

/// Turns a raw free-space report into exactly the snapshot it denotes.
pub fn disk_space_from(block_size: u64, blocks: u64, blocks_available: u64) -> (r: DiskSpaceInfo)
    ensures
        r == spec_disk_space(block_size, blocks, blocks_available),
        r.used <= r.total,
{
    let total = match block_size.checked_mul(blocks) {
        Some(t) => t,
        None => u64::MAX,
    };
    let available = match block_size.checked_mul(blocks_available) {
        Some(a) => a,
        None => u64::MAX,
    };
    let used = total.saturating_sub(available);
    DiskSpaceInfo { total, used, available }
}

/// Whether a snapshot leaves room for `required_space` more bytes; the
/// boundary is inclusive: exactly the available amount still fits.
pub fn enough_space(info: &DiskSpaceInfo, required_space: u64) -> (r: bool)
    ensures
        r == (info.available >= required_space),
{
    info.available >= required_space
}

/// The disk-quota guard.
pub struct DiskManager;

impl DiskManager {
    /// Makes a guard; it holds no state of its own.
    pub fn new() -> Self {
        DiskManager
    }

    /// Decides what a free-space request yields, given what a probe of the
    /// path found and what the platform query reported: a missing path is
    /// `NotFound`, a failed query is `IOFailure`, and a report becomes
    /// exactly the snapshot it denotes.
    pub fn disk_space_plan(
        &self,
        path: &str,
        found: PathKind,
        report: Option<(u64, u64, u64)>,
    ) -> (r: Result<DiskSpaceInfo, Error>)
        ensures
            found is Missing ==> (r matches Err(e) && e matches Error::NotFound(m) && m@ == path@),
            !(found is Missing) && report is None ==> (r matches Err(e)
                && e matches Error::IOFailure(m) && m@ == path@),
            !(found is Missing) ==> (report matches Some(t) ==> r == Ok::<DiskSpaceInfo, Error>(
                spec_disk_space(t.0, t.1, t.2),
            )),
            r matches Ok(i) ==> i.used <= i.total,
    {
        if matches!(found, PathKind::Missing) {
            return Err(Error::NotFound(String::from_str(path)));
        }
        match report {
            Some((block_size, blocks, blocks_available)) => Ok(
                disk_space_from(block_size, blocks, blocks_available),
            ),
            None => Err(Error::IOFailure(String::from_str(path))),
        }
    }

    /// Takes a free-space snapshot of the filesystem holding `path`: fails
    /// `NotFound` when the path is missing and `IOFailure` when the
    /// platform query fails. The decision over the probe and the query's
    /// report is [`Self::disk_space_plan`]; the query is not made for a
    /// missing path.
    pub fn get_disk_space(&self, path: &str) -> (r: Result<DiskSpaceInfo, Error>)
        ensures
            r matches Ok(i) ==> i.used <= i.total,
            r matches Err(e) ==> ((e matches Error::NotFound(m) && m@ == path@) || (e matches Error::IOFailure(
                m,
            ) && m@ == path@)),
    {
        let found = probe_path(path);
        let report = if matches!(found, PathKind::Missing) {
            None
        } else {
            statvfs_blocks(path)
        };
        self.disk_space_plan(path, found, report)
    }

    /// Decides what a quota question yields for a given probe and report:
    /// the errors of [`Self::disk_space_plan`], and otherwise exactly
    /// whether the denoted snapshot leaves room for `required_space` more
    /// bytes, the boundary inclusive.
    pub fn enough_space_plan(
        &self,
        path: &str,
        found: PathKind,
        report: Option<(u64, u64, u64)>,
        required_space: u64,
    ) -> (r: Result<bool, Error>)
        ensures
            found is Missing ==> (r matches Err(e) && e matches Error::NotFound(m) && m@ == path@),
            !(found is Missing) && report is None ==> (r matches Err(e)
                && e matches Error::IOFailure(m) && m@ == path@),
            !(found is Missing) ==> (report matches Some(t) ==> r == Ok::<bool, Error>(
                spec_disk_space(t.0, t.1, t.2).available >= required_space,
            )),
    {
        match self.disk_space_plan(path, found, report) {
            Ok(info) => Ok(enough_space(&info, required_space)),
            Err(e) => Err(e),
        }
    }

    /// Whether the filesystem holding `path` has at least `required_space`
    /// bytes available, the boundary inclusive. The decision over the
    /// probe and the query's report is [`Self::enough_space_plan`].
    pub fn has_enough_space(&self, path: &str, required_space: u64) -> (r: Result<bool, Error>)
        ensures
            r matches Err(e) ==> ((e matches Error::NotFound(m) && m@ == path@) || (e matches Error::IOFailure(
                m,
            ) && m@ == path@)),
    {
        let found = probe_path(path);
        let report = if matches!(found, PathKind::Missing) {
            None
        } else {
            statvfs_blocks(path)
        };
        self.enough_space_plan(path, found, report, required_space)
    }

    /// Decides what a directory-size request yields, given what a probe of
    /// the path found and what a recursive scan read: anything but a
    /// directory is `NotFound`, and a directory yields exactly the
    /// (saturating) sum of the scan's file sizes.
    pub fn directory_size_plan(&self, dir: &str, found: PathKind, entries: &Vec<FsEntry>) -> (r:
        Result<u64, Error>)
        ensures
            !(found is Directory) ==> (r matches Err(e) && e matches Error::NotFound(m) && m@
                == dir@),
            found is Directory ==> (r matches Ok(sz) && sz as int == crate::clamp_u64(
                total_file_size(entries@),
            )),
    {
        if !matches!(found, PathKind::Directory) {
            return Err(Error::NotFound(String::from_str(dir)));
        }
        let totals = dir_totals(entries);
        Ok(totals.1)
    }

    /// Sums the sizes of all regular files under `dir`, recursively
    /// (saturating); fails `NotFound` when `dir` is not an existing
    /// directory, in which case nothing is scanned. The decision over the
    /// probe and the scan is [`Self::directory_size_plan`].
    pub fn get_directory_size(&self, dir: &str) -> (r: Result<u64, Error>)
        ensures
            r matches Err(e) ==> e matches Error::NotFound(m) && m@ == dir@,
    {
        let found = probe_path(dir);
        let entries = if matches!(found, PathKind::Directory) {
            scan_dir_deep(dir)
        } else {
            Vec::new()
        };
        self.directory_size_plan(dir, found, &entries)
    }
}

} // verus!

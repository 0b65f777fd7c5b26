//! The confined file catalog: listing, deletion and renaming of files
//! inside two roots, a video root and a frame root.
//!
//! Listing reads the filesystem through the scan wrappers and tags each
//! record; mutation is decided here and performed by the caller, and the
//! confinement check always precedes the action: a path outside both roots
//! is refused before anything could be removed or renamed.

use vstd::prelude::*;
use vstd::string::StringExecFns;

use crate::error::Error;
use crate::fs_scan::dirs_of;
use crate::fs_scan::files_of;
use crate::fs_scan::FsEntry;
use crate::fs_scan::PathKind;
use crate::fs_scan::probe_path;
use crate::fs_scan::scan_dir_top;
use crate::paths::path_in_root;
use crate::paths::spec_path_in_root;

verus! {

/// The kind a catalog record is tagged with.
#[derive(Debug, Clone, Copy, PartialEq, Eq, Structural)]
pub enum FileType {
    /// A video file.
    Video,
    /// A frame image.
    Image,
    /// Anything else, directories included.
    Other,
}

/// One record of the catalog: a top-level file or directory of a root.
#[derive(Debug, Clone)]
pub struct FileInfo {
    /// Full path of the entry.
    pub path: String,
    /// Final component of the path.
    pub name: String,
    /// Size in bytes.
    pub size: u64,
    /// The kind the listing tagged the entry with.
    pub file_type: FileType,
    /// Creation time as Unix seconds (0 where unavailable).
    pub created_at: u64,
    /// Modification time as Unix seconds (0 where unavailable).
    pub modified_at: u64,
}

/// What the caller is to remove after a delete request was accepted.
#[derive(Debug, Clone, Copy, PartialEq, Eq, Structural)]
pub enum RemovalKind {
    /// Remove the single file at the path.
    SingleFile,
    /// Remove the directory tree at the path.
    DirectoryTree,
}

/// The record a scan entry denotes under a given tag.
pub open spec fn file_record_matches(f: FileInfo, e: FsEntry, t: FileType) -> bool {
    &&& f.path@ == e.path@
    &&& f.name@ == e.name@
    &&& f.size == e.size
    &&& f.file_type == t
    &&& f.created_at == e.created_at
    &&& f.modified_at == e.modified_at
}

/// Builds one catalog record per regular file of a scan, in scan order,
/// tagged `t`.
#[verifier::loop_isolation(false)]
pub fn files_from_entries(entries: &Vec<FsEntry>, t: FileType) -> (r: Vec<FileInfo>)
    ensures
        r@.len() == files_of(entries@).len(),
        forall|i: int|
            0 <= i < r@.len() ==> file_record_matches(#[trigger] r@[i], files_of(entries@)[i], t),
{
    let mut out: Vec<FileInfo> = Vec::new();
    let n = entries.len();
    let mut k: usize = 0;
    while k < n
        invariant
            0 <= k <= n,
            n == entries@.len(),
            out@.len() == files_of(entries@.take(k as int)).len(),
            forall|i: int|
                0 <= i < out@.len() ==> file_record_matches(
                    #[trigger] out@[i],
                    files_of(entries@.take(k as int))[i],
                    t,
                ),
        decreases n - k,
    {
        proof {
            let pre = entries@.take(k as int);
            let cur = entries@.take(k as int + 1);
            assert(cur.drop_last() =~= pre);
            assert(cur.last() == entries@[k as int]);
        }
        let e = &entries[k];
        if e.is_file {
            out.push(
                FileInfo {
                    path: e.path.clone(),
                    name: e.name.clone(),
                    size: e.size,
                    file_type: t,
                    created_at: e.created_at,
                    modified_at: e.modified_at,
                },
            );
        }
        k += 1;
    }
    proof {
        assert(entries@.take(n as int) =~= entries@);
    }
    out
}

/// Builds one catalog record per immediate directory of a scan, in scan
/// order, tagged [`FileType::Other`].
#[verifier::loop_isolation(false)]
pub fn dirs_from_entries(entries: &Vec<FsEntry>) -> (r: Vec<FileInfo>)
    ensures
        r@.len() == dirs_of(entries@).len(),
        forall|i: int|
            0 <= i < r@.len() ==> file_record_matches(
                #[trigger] r@[i],
                dirs_of(entries@)[i],
                FileType::Other,
            ),
{
    let mut out: Vec<FileInfo> = Vec::new();
    let n = entries.len();
    let mut k: usize = 0;
    while k < n
        invariant
            0 <= k <= n,
            n == entries@.len(),
            out@.len() == dirs_of(entries@.take(k as int)).len(),
            forall|i: int|
                0 <= i < out@.len() ==> file_record_matches(
                    #[trigger] out@[i],
                    dirs_of(entries@.take(k as int))[i],
                    FileType::Other,
                ),
        decreases n - k,
    {
        proof {
            let pre = entries@.take(k as int);
            let cur = entries@.take(k as int + 1);
            assert(cur.drop_last() =~= pre);
            assert(cur.last() == entries@[k as int]);
        }
        let e = &entries[k];
        if e.is_dir {
            out.push(
                FileInfo {
                    path: e.path.clone(),
                    name: e.name.clone(),
                    size: e.size,
                    file_type: FileType::Other,
                    created_at: e.created_at,
                    modified_at: e.modified_at,
                },
            );
        }
        k += 1;
    }
    proof {
        assert(entries@.take(n as int) =~= entries@);
    }
    out
}

/// The confined file catalog over a video root and a frame root.
pub struct FileManager {
    video_dir: String,
    frames_dir: String,
}

impl FileManager {
    /// The video root.
    pub closed spec fn video_root(&self) -> Seq<char> {
        self.video_dir@
    }

    /// The frame root.
    pub closed spec fn frames_root(&self) -> Seq<char> {
        self.frames_dir@
    }

    /// Whether a path lies inside one of the two confined roots.
    pub open spec fn confines(&self, path: Seq<char>) -> bool {
        spec_path_in_root(path, self.video_root()) || spec_path_in_root(path, self.frames_root())
    }

    /// Makes a catalog over the two roots. The caller is expected to have
    /// created both directories.
    pub fn new(video_dir: &str, frames_dir: &str) -> (r: Self)
        ensures
            r.video_root() == video_dir@,
            r.frames_root() == frames_dir@,
    {
        FileManager {
            video_dir: String::from_str(video_dir),
            frames_dir: String::from_str(frames_dir),
        }
    }

    /// Lists the top-level files of the video root, tagged as videos. What
    /// the filesystem holds is machine state; the records are built by
    /// [`files_from_entries`].
    pub fn list_videos(&self) -> (r: Vec<FileInfo>)
        ensures
            forall|i: int| 0 <= i < r@.len() ==> #[trigger] r@[i].file_type == FileType::Video,
    {
        let entries = scan_dir_top(self.video_dir.as_str());
        files_from_entries(&entries, FileType::Video)
    }

    /// Lists the immediate subdirectories of the frame root as catalog
    /// records; their contents are the frame catalog's business.
    pub fn list_frame_dirs(&self) -> (r: Vec<FileInfo>)
        ensures
            forall|i: int| 0 <= i < r@.len() ==> #[trigger] r@[i].file_type == FileType::Other,
    {
        let entries = scan_dir_top(self.frames_dir.as_str());
        dirs_from_entries(&entries)
    }

    /// Decides what a delete request should do, given what a probe of the
    /// path found: a missing path is `NotFound`, a path outside both roots
    /// is `NotAllowed` and nothing may be removed, and only inside a root
    /// is a removal released. The confinement check precedes any mutation
    /// by construction: the caller removes only on `Ok`.
    pub fn delete_file_plan(&self, path: &str, found: PathKind) -> (r: Result<RemovalKind, Error>)
        ensures
            found is Missing ==> (r matches Err(e) && e matches Error::NotFound(m) && m@ == path@),
            !(found is Missing) && !self.confines(path@) ==> (r matches Err(e) && e matches Error::NotAllowed(m)
                && m@ == path@),
            !(found is Missing) && self.confines(path@) ==> r == if found is Directory {
                Ok::<RemovalKind, Error>(RemovalKind::DirectoryTree)
            } else {
                Ok::<RemovalKind, Error>(RemovalKind::SingleFile)
            },
    {
        match found {
            PathKind::Missing => Err(Error::NotFound(String::from_str(path))),
            _ => {
                let allowed = path_in_root(path, self.video_dir.as_str()) || path_in_root(
                    path,
                    self.frames_dir.as_str(),
                );
                if !allowed {
                    Err(Error::NotAllowed(String::from_str(path)))
                } else if matches!(found, PathKind::Directory) {
                    Ok(RemovalKind::DirectoryTree)
                } else {
                    Ok(RemovalKind::SingleFile)
                }
            },
        }
    }

    /// Deletes the file or directory tree at `path`: fails `NotFound` when
    /// the path is missing and `NotAllowed` when it escapes both confined
    /// roots; otherwise the caller performs the returned removal.
    pub fn delete_file(&self, path: &str) -> (r: Result<RemovalKind, Error>)
        ensures
            r is Ok ==> self.confines(path@),
            !self.confines(path@) ==> r is Err,
            r matches Err(e) ==> ((e matches Error::NotFound(m) && m@ == path@) || (e matches Error::NotAllowed(
                m,
            ) && m@ == path@ && !self.confines(path@))),
    {
        let found = probe_path(path);
        self.delete_file_plan(path, found)
    }

    /// Decides what a rename request should do, given what a probe of the
    /// source path found; the destination is the caller's to choose. The
    /// same confinement rule as for deletion applies to the source.
    pub fn rename_file_plan(&self, from: &str, found: PathKind) -> (r: Result<(), Error>)
        ensures
            found is Missing ==> (r matches Err(e) && e matches Error::NotFound(m) && m@ == from@),
            !(found is Missing) && !self.confines(from@) ==> (r matches Err(e) && e matches Error::NotAllowed(
                m,
            ) && m@ == from@),
            !(found is Missing) && self.confines(from@) ==> r is Ok,
    {
        match found {
            PathKind::Missing => Err(Error::NotFound(String::from_str(from))),
            _ => {
                let allowed = path_in_root(from, self.video_dir.as_str()) || path_in_root(
                    from,
                    self.frames_dir.as_str(),
                );
                if allowed {
                    Ok(())
                } else {
                    Err(Error::NotAllowed(String::from_str(from)))
                }
            },
        }
    }

    /// Renames `from` to `to`: fails `NotFound` when the source is missing
    /// and `NotAllowed` when the source escapes both confined roots;
    /// otherwise the caller performs the rename.
    pub fn rename_file(&self, from: &str, to: &str) -> (r: Result<(), Error>)
        ensures
            r is Ok ==> self.confines(from@),
            !self.confines(from@) ==> r is Err,
            r matches Err(e) ==> ((e matches Error::NotFound(m) && m@ == from@) || (e matches Error::NotAllowed(
                m,
            ) && m@ == from@ && !self.confines(from@))),
    {
        let _ = to;
        let found = probe_path(from);
        self.rename_file_plan(from, found)
    }
}

} // verus!

//! Trusted view of the filesystem, read through `walkdir`.
//!
//! What a directory holds is machine state: none of these wrappers can
//! promise anything about the values they return, so every contract in the
//! crate is carried by the verified functions that take the returned
//! entries as arguments. Each wrapper makes one call into `walkdir` or
//! `std::path` and converts the result to plain values.

use vstd::prelude::*;
use walkdir::Error as WalkError;

verus! {

/// What a probe of a path found.
#[derive(Debug, Clone, Copy, PartialEq, Eq, Structural)]
pub enum PathKind {
    /// The path does not exist.
    Missing,
    /// The path exists and is not a directory.
    File,
    /// The path exists and is a directory.
    Directory,
}

/// One filesystem entry, as a directory scan reports it: plain values only.
#[derive(Debug, Clone)]
pub struct FsEntry {
    /// Full path of the entry.
    pub path: String,
    /// Final component of the path.
    pub name: String,
    /// Whether the entry is a regular file.
    pub is_file: bool,
    /// Whether the entry is a directory.
    pub is_dir: bool,
    /// Size in bytes (0 where the metadata could not be read).
    pub size: u64,
    /// Creation time as Unix seconds (0 where unavailable).
    pub created_at: u64,
    /// Modification time as Unix seconds (0 where unavailable).
    pub modified_at: u64,
}

/// One step of a directory walk.
pub enum WalkItem {
    /// A readable entry.
    Entry(walkdir::DirEntry),
    /// An entry the walk could not read; the scan skips it.
    Unreadable,
    /// The walk is exhausted.
    Done,
}

#[verifier::external_type_specification]
#[verifier::external_body]
pub struct ExWalkDirIntoIter(walkdir::IntoIter);

#[verifier::external_type_specification]
#[verifier::external_body]
pub struct ExWalkDirError(WalkError);

#[verifier::external_type_specification]
#[verifier::external_body]
pub struct ExWalkDirDirEntry(walkdir::DirEntry);

/// Relies on std::path::Path::exists and is_dir to classify a path.
#[verifier::external_body]
pub(crate) fn probe_path(path: &str) -> PathKind {
    let p = std::path::Path::new(path);
    if !p.exists() {
        PathKind::Missing
    } else if p.is_dir() {
        PathKind::Directory
    } else {
        PathKind::File
    }
}

/// Relies on walkdir::WalkDir::new with max_depth(1): a walk over a
/// directory's immediate entries, the root itself first.
#[verifier::external_body]
fn walk_shallow(path: &str) -> walkdir::IntoIter {
    walkdir::WalkDir::new(path).max_depth(1).into_iter()
}

/// Relies on walkdir::WalkDir::new: a depth-first walk over a whole tree,
/// the root itself first.
#[verifier::external_body]
fn walk_deep(path: &str) -> walkdir::IntoIter {
    walkdir::WalkDir::new(path).into_iter()
}

/// Relies on walkdir::IntoIter::next; an erroring entry becomes Unreadable.
#[verifier::external_body]
fn walk_next(it: &mut walkdir::IntoIter) -> WalkItem {
    match it.next() {
        Some(Ok(entry)) => WalkItem::Entry(entry),
        Some(Err(_)) => WalkItem::Unreadable,
        None => WalkItem::Done,
    }
}

/// Relies on walkdir::DirEntry::path, rendered lossily as a string.
#[verifier::external_body]
fn entry_path(e: &walkdir::DirEntry) -> String {
    e.path().to_string_lossy().into_owned()
}

/// Relies on walkdir::DirEntry::file_name, rendered lossily as a string.
#[verifier::external_body]
fn entry_name(e: &walkdir::DirEntry) -> String {
    e.file_name().to_string_lossy().into_owned()
}

/// Relies on walkdir::DirEntry::file_type().is_file().
#[verifier::external_body]
fn entry_is_file(e: &walkdir::DirEntry) -> bool {
    e.file_type().is_file()
}

/// Relies on walkdir::DirEntry::file_type().is_dir().
#[verifier::external_body]
fn entry_is_dir(e: &walkdir::DirEntry) -> bool {
    e.file_type().is_dir()
}

/// Relies on walkdir::DirEntry::depth: 0 for the walk's root.
#[verifier::external_body]
fn entry_depth(e: &walkdir::DirEntry) -> usize {
    e.depth()
}

/// Relies on walkdir::DirEntry::metadata and its len; 0 when unreadable.
#[verifier::external_body]
fn entry_size(e: &walkdir::DirEntry) -> u64 {
    e.metadata().map(|m| m.len()).unwrap_or(0)
}

/// Relies on walkdir::DirEntry::metadata and its created time, as Unix
/// seconds; 0 when the platform or the clock cannot give it.
#[verifier::external_body]
fn entry_created_secs(e: &walkdir::DirEntry) -> u64 {
    e.metadata()
        .ok()
        .and_then(|m| m.created().ok())
        .and_then(|t| t.duration_since(std::time::UNIX_EPOCH).ok())
        .map(|d| d.as_secs())
        .unwrap_or(0)
}

/// Relies on walkdir::DirEntry::metadata and its modified time, as Unix
/// seconds; 0 when the platform or the clock cannot give it.
#[verifier::external_body]
fn entry_modified_secs(e: &walkdir::DirEntry) -> u64 {
    e.metadata()
        .ok()
        .and_then(|m| m.modified().ok())
        .and_then(|t| t.duration_since(std::time::UNIX_EPOCH).ok())
        .map(|d| d.as_secs())
        .unwrap_or(0)
}

/// Reads one walk entry into plain values.
fn read_entry(e: &walkdir::DirEntry) -> FsEntry {
    FsEntry {
        path: entry_path(e),
        name: entry_name(e),
        is_file: entry_is_file(e),
        is_dir: entry_is_dir(e),
        size: entry_size(e),
        created_at: entry_created_secs(e),
        modified_at: entry_modified_secs(e),
    }
}

/// Lists a directory's immediate entries, the root itself excluded.
/// Unreadable entries are skipped, as is a missing root: the result is
/// whatever the walk could read, and the contracts of this crate live on
/// the functions that consume it.
pub(crate) fn scan_dir_top(path: &str) -> Vec<FsEntry> {
    let it = walk_shallow(path);
    collect_walk(it)
}

/// Walks a directory tree depth-first, the root itself excluded, and
/// returns every readable entry in walk order.
pub(crate) fn scan_dir_deep(path: &str) -> Vec<FsEntry> {
    let it = walk_deep(path);
    collect_walk(it)
}

/// Drains a walk into plain entries, skipping its root and anything
/// unreadable. The fuel bound only makes termination evident; no real
/// directory tree comes near it.
fn collect_walk(it: walkdir::IntoIter) -> Vec<FsEntry> {
    let mut it = it;
    let mut out: Vec<FsEntry> = Vec::new();
    let mut fuel: u64 = u64::MAX;
    while fuel > 0
        decreases fuel,
    {
        fuel = fuel - 1;
        match walk_next(&mut it) {
            WalkItem::Done => {
                break;
            },
            WalkItem::Unreadable => {},
            WalkItem::Entry(e) => {
                if entry_depth(&e) != 0 {
                    out.push(read_entry(&e));
                }
            },
        }
    }
    out
}

/// The regular files among a scan's entries, in scan order.
pub open spec fn files_of(s: Seq<FsEntry>) -> Seq<FsEntry>
    decreases s.len(),
{
    if s.len() == 0 {
        s
    } else {
        files_of(s.drop_last()) + if s.last().is_file {
            seq![s.last()]
        } else {
            Seq::empty()
        }
    }
}

/// The immediate directories among a scan's entries, in scan order.
pub open spec fn dirs_of(s: Seq<FsEntry>) -> Seq<FsEntry>
    decreases s.len(),
{
    if s.len() == 0 {
        s
    } else {
        dirs_of(s.drop_last()) + if s.last().is_dir {
            seq![s.last()]
        } else {
            Seq::empty()
        }
    }
}

/// The total size of the regular files among a scan's entries.
pub open spec fn total_file_size(s: Seq<FsEntry>) -> int
    decreases s.len(),
{
    if s.len() == 0 {
        0
    } else {
        total_file_size(s.drop_last()) + if s.last().is_file {
            s.last().size as int
        } else {
            0
        }
    }
}

/// A scan with no regular files has no file bytes either.
pub proof fn lemma_no_files_no_size(s: Seq<FsEntry>)
    requires
        files_of(s).len() == 0,
    ensures
        total_file_size(s) == 0,
    decreases s.len(),
{
    if s.len() > 0 {
        assert(!s.last().is_file) by {
            if s.last().is_file {
                assert(files_of(s).len() == files_of(s.drop_last()).len() + 1);
            }
        }
        assert(files_of(s) =~= files_of(s.drop_last()));
        lemma_no_files_no_size(s.drop_last());
    }
}

/// A prefix of a scan never holds more immediate directories than the
/// whole of it.
pub proof fn lemma_dirs_of_len_mono(s: Seq<FsEntry>, k: int)
    requires
        0 <= k <= s.len(),
    ensures
        dirs_of(s.take(k)).len() <= dirs_of(s).len(),
    decreases s.len() - k,
{
    if k == s.len() {
        assert(s.take(k) =~= s);
    } else {
        assert(s.take(k + 1).drop_last() =~= s.take(k));
        lemma_dirs_of_len_mono(s, k + 1);
    }
}

} // verus!

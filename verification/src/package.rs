//! The packaging engine: bundles a source directory's snapshot into a ZIP
//! archive under an explicit task lifecycle.
//!
//! One task slot exists per manager. A task is created on `start_package_task`
//! and moves `Preparing -> Packaging -> {Completed | Failed}` before the
//! call returns; `cancel_current_task` turns an active task into
//! `Canceled`, and `clear_current_task` frees the slot. The caller hands
//! in the source as plain values (relative paths and file bytes) and
//! receives the archive bytes to write at the returned target path, so the
//! whole lifecycle and all accounting are decided here.

use vstd::prelude::*;
use vstd::string::StringExecFns;

use crate::archive::ArchiveEntry;
use crate::archive::data_fits;
use crate::archive::entry_stored_name;
use crate::archive::name_fits;
use crate::archive::name_fresh;
use crate::archive::zip_add_directory;
use crate::archive::zip_add_file;
use crate::archive::zip_encoding;
use crate::archive::zip_entries;
use crate::archive::zip_finish;
use crate::archive::zip_writer_new;
use crate::archive::zip_writer_ok;
use crate::clock::now_unix_secs;
use crate::error::Error;
use crate::paths::join_path;

verus! {

/// The lifecycle state of one packaging task.
#[derive(Debug, Clone, Copy, PartialEq, Eq, Structural)]
pub enum PackageTaskStatus {
    /// Accepted; totals are being computed.
    Preparing,
    /// The archive is being written.
    Packaging,
    /// The archive was written in full.
    Completed,
    /// Writing the archive failed.
    Failed,
    /// A cancel request ended the task.
    Canceled,
}

/// Whether a status still occupies the task slot.
pub open spec fn status_active(s: PackageTaskStatus) -> bool {
    s == PackageTaskStatus::Preparing || s == PackageTaskStatus::Packaging
}

/// One entry of a source-directory snapshot, as the caller read it:
/// a path relative to the snapshot's root, and the file's bytes.
pub struct SourceEntry {
    /// Path relative to the packaged root, `/`-separated; never names the
    /// root itself (which would be empty and is skipped).
    pub rel_path: String,
    /// Whether the entry is a directory.
    pub is_dir: bool,
    /// The file's contents; empty for a directory.
    pub data: Vec<u8>,
}

/// A source directory, read into plain values in walk order (directories
/// before their contents).
pub struct DirSnapshot {
    /// The entries below the root, in walk order.
    pub entries: Vec<SourceEntry>,
}

/// What an accepted packaging run hands back to the caller.
pub struct PackageOutput {
    /// The new task's id.
    pub task_id: String,
    /// Where the caller is to write the archive.
    pub target_file: String,
    /// The archive bytes.
    pub archive: Vec<u8>,
}

/// The record of one packaging task.
pub struct PackageTaskInfo {
    /// Task id, unique per run.
    pub id: String,
    /// The source directory the snapshot was read from.
    pub source_dir: String,
    /// The archive path under the output root.
    pub target_file: String,
    /// Lifecycle state.
    pub status: PackageTaskStatus,
    /// Progress in thousandths, 1000 when completed.
    pub progress_permille: u32,
    /// Number of files in the snapshot.
    pub total_files: usize,
    /// Number of files already written to the archive.
    pub processed_files: usize,
    /// Total size of the snapshot's files, in bytes (saturating).
    pub total_size: u64,
    /// Bytes of files already written (saturating).
    pub processed_size: u64,
    /// When the task was created, as Unix seconds.
    pub created_at: u64,
    /// When the task completed, as Unix seconds.
    pub completed_at: Option<u64>,
    /// The failure message of a failed task.
    pub error: Option<String>,
}

/// The number of files (non-directories) in a snapshot.
pub open spec fn source_file_count(s: Seq<SourceEntry>) -> int
    decreases s.len(),
{
    if s.len() == 0 {
        0
    } else {
        source_file_count(s.drop_last()) + if s.last().is_dir {
            0int
        } else {
            1int
        }
    }
}

/// The total size of a snapshot's files.
pub open spec fn source_data_total(s: Seq<SourceEntry>) -> int
    decreases s.len(),
{
    if s.len() == 0 {
        0
    } else {
        source_data_total(s.drop_last()) + if s.last().is_dir {
            0int
        } else {
            s.last().data.len() as int
        }
    }
}

/// Counts a snapshot's files and sums their sizes, the sum saturating at
/// the largest representable value.
#[verifier::loop_isolation(false)]
pub fn source_totals(entries: &Vec<SourceEntry>) -> (r: (usize, u64))
    ensures
        r.0 as int == source_file_count(entries@),
        r.1 as int == crate::clamp_u64(source_data_total(entries@)),
{
    let n = entries.len();
    let mut count: usize = 0;
    let mut size: u64 = 0;
    let mut k: usize = 0;
    while k < n
        invariant
            0 <= k <= n,
            n == entries@.len(),
            count <= k,
            count as int == source_file_count(entries@.take(k as int)),
            size as int == crate::clamp_u64(source_data_total(entries@.take(k as int))),
        decreases n - k,
    {
        proof {
            let pre = entries@.take(k as int);
            let cur = entries@.take(k as int + 1);
            assert(cur.drop_last() =~= pre);
            assert(cur.last() == entries@[k as int]);
        }
        let e = &entries[k];
        if !e.is_dir {
            count += 1;
            size = size.saturating_add(e.data.len() as u64);
        }
        k += 1;
    }
    proof {
        assert(entries@.take(n as int) =~= entries@);
    }
    (count, size)
}

/// Relies on uuid::Uuid::new_v4, rendered in its hyphenated form. The
/// value is random, so nothing is promised of it.
#[verifier::external_body]
fn new_uuid_string() -> String {
    uuid::Uuid::new_v4().to_string()
}

/// The archive entry a snapshot entry is written as.
pub open spec fn archive_entry_of(e: SourceEntry) -> ArchiveEntry {
    ArchiveEntry {
        name: e.rel_path@,
        is_dir: e.is_dir,
        data: if e.is_dir {
            Seq::<u8>::empty()
        } else {
            e.data@
        },
    }
}

/// Whether a snapshot entry gets an archive entry: every file does, and
/// every directory but the root itself (whose relative path is empty).
pub open spec fn snapshot_entry_included(e: SourceEntry) -> bool {
    !e.is_dir || e.rel_path@.len() > 0
}

/// The archive entries a snapshot is written as, in snapshot order.
pub open spec fn snapshot_archive_entries(s: Seq<SourceEntry>) -> Seq<ArchiveEntry>
    decreases s.len(),
{
    if s.len() == 0 {
        Seq::empty()
    } else {
        snapshot_archive_entries(s.drop_last()) + if snapshot_entry_included(s.last()) {
            seq![archive_entry_of(s.last())]
        } else {
            Seq::empty()
        }
    }
}

/// No two archive entries share a stored name.
pub open spec fn distinct_stored_names(es: Seq<ArchiveEntry>) -> bool {
    forall|i: int, j: int|
        0 <= i < j < es.len() ==> entry_stored_name(#[trigger] es[i]) != entry_stored_name(
            #[trigger] es[j],
        )
}

/// A snapshot the archive writer is promised to accept: stored names
/// pairwise distinct, every name and every file's data within the
/// format's limits. Packaging such a snapshot is owed to succeed.
pub open spec fn snapshot_encodable(s: Seq<SourceEntry>) -> bool {
    &&& distinct_stored_names(snapshot_archive_entries(s))
    &&& forall|i: int| 0 <= i < s.len() ==> name_fits(#[trigger] s[i].rel_path@)
    &&& forall|i: int| 0 <= i < s.len() ==> (#[trigger] s[i].is_dir || data_fits(s[i].data@))
}

/// A prefix of a snapshot writes a prefix of the snapshot's archive
/// entries.
proof fn lemma_snapshot_entries_prefix(s: Seq<SourceEntry>, k: int)
    requires
        0 <= k <= s.len(),
    ensures
        snapshot_archive_entries(s.take(k)).len() <= snapshot_archive_entries(s).len(),
        snapshot_archive_entries(s.take(k)) == snapshot_archive_entries(s).take(
            snapshot_archive_entries(s.take(k)).len() as int,
        ),
    decreases s.len() - k,
{
    let a = snapshot_archive_entries(s.take(k));
    if k == s.len() {
        assert(s.take(k) =~= s);
        assert(a =~= snapshot_archive_entries(s).take(a.len() as int));
    } else {
        assert(s.take(k + 1).drop_last() =~= s.take(k));
        let b = snapshot_archive_entries(s.take(k + 1));
        lemma_snapshot_entries_prefix(s, k + 1);
        assert(a =~= b.take(a.len() as int));
        assert(a =~= snapshot_archive_entries(s).take(a.len() as int));
    }
}

/// The entry a snapshot position writes is stored under a name no earlier
/// position used, whenever the whole snapshot's stored names are distinct.
proof fn lemma_fresh_at(s: Seq<SourceEntry>, k: int)
    requires
        0 <= k < s.len(),
        distinct_stored_names(snapshot_archive_entries(s)),
        snapshot_entry_included(s[k]),
    ensures
        name_fresh(
            snapshot_archive_entries(s.take(k)),
            entry_stored_name(archive_entry_of(s[k])),
        ),
{
    let full = snapshot_archive_entries(s);
    let a = snapshot_archive_entries(s.take(k));
    let b = snapshot_archive_entries(s.take(k + 1));
    assert(s.take(k + 1).drop_last() =~= s.take(k));
    assert(s.take(k + 1).last() == s[k]);
    assert(b =~= a.push(archive_entry_of(s[k])));
    lemma_snapshot_entries_prefix(s, k);
    lemma_snapshot_entries_prefix(s, k + 1);
    assert(full[a.len() as int] == archive_entry_of(s[k])) by {
        assert(full.take(b.len() as int)[a.len() as int] == full[a.len() as int]);
        assert(b[a.len() as int] == archive_entry_of(s[k]));
    }
    assert forall|i: int| 0 <= i < a.len() implies entry_stored_name(#[trigger] a[i])
        != entry_stored_name(archive_entry_of(s[k])) by {
        assert(full.take(a.len() as int)[i] == full[i]);
        assert(a[i] == full[i]);
        assert(entry_stored_name(full[i]) != entry_stored_name(full[a.len() as int]));
    }
}

/// A prefix of a snapshot never holds more file bytes than the whole of it.
proof fn lemma_source_data_total_mono(s: Seq<SourceEntry>, k: int)
    requires
        0 <= k <= s.len(),
    ensures
        source_data_total(s.take(k)) <= source_data_total(s),
    decreases s.len() - k,
{
    if k == s.len() {
        assert(s.take(k) =~= s);
    } else {
        assert(s.take(k + 1).drop_last() =~= s.take(k));
        lemma_source_data_total_mono(s, k + 1);
    }
}

/// Writes a snapshot into a fresh in-memory archive, advancing the task's
/// progress accounting exactly as each file goes in: directories (other
/// than the root) become directory entries, files become compressed
/// entries at their relative paths. An encodable snapshot (names distinct
/// and within limits) is owed to succeed with the bytes encoding exactly
/// the snapshot's entries in order; on an encoder failure the accounting
/// stops where it stood, within its bounds, and the message is returned.
#[verifier::loop_isolation(false)]
#[verifier::rlimit(100)]
#[verifier::spinoff_prover]
fn build_archive(entries: &Vec<SourceEntry>, task: &mut PackageTaskInfo) -> (r: Result<
    Vec<u8>,
    String,
>)
    requires
        old(task).processed_files == 0,
        old(task).processed_size == 0,
        old(task).progress_permille == 0,
        old(task).total_files as int == source_file_count(entries@),
        old(task).total_size as int == crate::clamp_u64(source_data_total(entries@)),
    ensures
        *final(task) == (PackageTaskInfo {
            processed_files: final(task).processed_files,
            processed_size: final(task).processed_size,
            progress_permille: final(task).progress_permille,
            ..*old(task)
        }),
        final(task).processed_files <= old(task).total_files,
        final(task).processed_size <= old(task).total_size,
        final(task).progress_permille <= 1000,
        r is Ok ==> final(task).processed_files == old(task).total_files,
        r is Ok ==> final(task).processed_size == old(task).total_size,
        snapshot_encodable(entries@) ==> r is Ok,
        snapshot_encodable(entries@) ==> (r matches Ok(bytes) ==> bytes@ == zip_encoding(
            snapshot_archive_entries(entries@),
        )),
{
    let mut zw = zip_writer_new();
    let n = entries.len();
    let total = task.total_files;
    let mut k: usize = 0;
    while k < n
        invariant
            0 <= k <= n,
            n == entries@.len(),
            *task == (PackageTaskInfo {
                processed_files: task.processed_files,
                processed_size: task.processed_size,
                progress_permille: task.progress_permille,
                ..*old(task)
            }),
            total == old(task).total_files,
            task.processed_files as int == source_file_count(entries@.take(k as int)),
            task.processed_files <= total,
            task.processed_size as int == crate::clamp_u64(
                source_data_total(entries@.take(k as int)),
            ),
            task.processed_size <= old(task).total_size,
            task.progress_permille <= 1000,
            snapshot_encodable(entries@) ==> zip_writer_ok(zw) && zip_entries(zw)
                == snapshot_archive_entries(entries@.take(k as int)),
        decreases n - k,
    {
        proof {
            let pre = entries@.take(k as int);
            let cur = entries@.take(k as int + 1);
            assert(cur.drop_last() =~= pre);
            assert(cur.last() == entries@[k as int]);
            lemma_source_file_count_bounded(entries@, k as int + 1);
            lemma_source_file_count_mono(entries@, k as int + 1);
            lemma_source_data_total_mono(entries@, k as int + 1);
            if snapshot_encodable(entries@) && snapshot_entry_included(entries@[k as int]) {
                lemma_fresh_at(entries@, k as int);
            }
        }
        let e = &entries[k];
        if !e.is_dir {
            task.processed_files += 1;
            if total > 0 {
                proof {
                    assert(task.processed_files * 1000 / total as int <= 1000) by (nonlinear_arith)
                        requires
                            0 < task.processed_files <= total,
                    ;
                }
                task.progress_permille = ((task.processed_files as u128 * 1000) / (
                total as u128)) as u32;
            }
            match zip_add_file(&mut zw, e.rel_path.as_str(), e.data.as_slice()) {
                Ok(_) => {},
                Err(m) => {
                    return Err(m);
                },
            }
            task.processed_size = task.processed_size.saturating_add(e.data.len() as u64);
        } else if !e.rel_path.as_str().is_empty() {
            match zip_add_directory(&mut zw, e.rel_path.as_str()) {
                Ok(_) => {},
                Err(m) => {
                    return Err(m);
                },
            }
        }
        proof {
            if snapshot_encodable(entries@) {
                assert(zip_entries(zw) =~= snapshot_archive_entries(
                    entries@.take(k as int + 1),
                ));
            }
        }
        k += 1;
    }
    proof {
        assert(entries@.take(n as int) =~= entries@);
    }
    zip_finish(zw)
}

/// A prefix of a snapshot never holds more files than it has entries.
proof fn lemma_source_file_count_bounded(s: Seq<SourceEntry>, k: int)
    requires
        0 <= k <= s.len(),
    ensures
        source_file_count(s.take(k)) <= k,
    decreases k,
{
    if k > 0 {
        assert(s.take(k).drop_last() =~= s.take(k - 1));
        lemma_source_file_count_bounded(s, k - 1);
    }
}

/// A prefix of a snapshot never holds more files than the whole of it.
proof fn lemma_source_file_count_mono(s: Seq<SourceEntry>, k: int)
    requires
        0 <= k <= s.len(),
    ensures
        source_file_count(s.take(k)) <= source_file_count(s),
    decreases s.len() - k,
{
    if k == s.len() {
        assert(s.take(k) =~= s);
    } else {
        assert(s.take(k + 1).drop_last() =~= s.take(k));
        lemma_source_file_count_mono(s, k + 1);
    }
}

/// The packaging engine: one task slot over one output root.
pub struct PackageManager {
    output_dir: String,
    current_task: Option<PackageTaskInfo>,
}

impl PackageManager {
    /// The output root archives are written under.
    pub closed spec fn out_root(&self) -> Seq<char> {
        self.output_dir@
    }

    /// The task currently holding the slot, whatever its state.
    pub closed spec fn spec_current_task(&self) -> Option<PackageTaskInfo> {
        self.current_task
    }

    /// Whether a task is active (Preparing or Packaging) in the slot.
    pub open spec fn has_active_task(&self) -> bool {
        match self.spec_current_task() {
            Some(t) => status_active(t.status),
            None => false,
        }
    }

    /// Makes an engine over the given output root, its task slot empty.
    /// The caller is expected to have created the output directory.
    pub fn new(output_dir: &str) -> (r: Self)
        ensures
            r.out_root() == output_dir@,
            r.spec_current_task() is None,
    {
        PackageManager { output_dir: String::from_str(output_dir), current_task: None }
    }

    /// Packages a source directory's snapshot into an archive under the
    /// output root, named `<name>.zip`.
    ///
    /// A missing source (`None`) fails `NotFound`; while a task is active
    /// the request fails `AlreadyInProgress` and changes nothing. An
    /// accepted run fills the slot with a fresh task whose totals are the
    /// snapshot's, and leaves it `Completed` with the archive bytes
    /// returned, or `Failed` with the encoder's message recorded. An
    /// encodable snapshot is owed to succeed, and the returned archive
    /// encodes exactly the snapshot's file and directory entries in order.
    pub fn start_package_task(
        &mut self,
        source_dir: &str,
        source: Option<&DirSnapshot>,
        name: &str,
    ) -> (r: Result<PackageOutput, Error>)
        ensures
            source is None ==> (r matches Err(e) && e matches Error::NotFound(m) && m@
                == source_dir@) && *final(self) == *old(self),
            source is Some && old(self).has_active_task() ==> (r matches Err(e)
                && e is AlreadyInProgress) && *final(self) == *old(self),
            source matches Some(s) ==> !old(self).has_active_task() ==> {
                &&& final(self).out_root() == old(self).out_root()
                &&& final(self).spec_current_task() matches Some(t) && {
                    &&& exists|u: Seq<char>| t.id@ == "package_"@ + u
                    &&& t.source_dir@ == source_dir@
                    &&& t.target_file@ == old(self).out_root() + "/"@ + name@ + ".zip"@
                    &&& t.total_files as int == source_file_count(s.entries@)
                    &&& t.total_size as int == crate::clamp_u64(source_data_total(s.entries@))
                    &&& (snapshot_encodable(s.entries@) ==> r is Ok)
                    &&& (r matches Ok(out) ==> {
                        &&& t.status == PackageTaskStatus::Completed
                        &&& t.progress_permille == 1000
                        &&& t.processed_files == t.total_files
                        &&& t.processed_size == t.total_size
                        &&& t.completed_at is Some
                        &&& t.error is None
                        &&& out.task_id == t.id
                        &&& out.target_file == t.target_file
                        &&& (snapshot_encodable(s.entries@) ==> out.archive@ == zip_encoding(
                            snapshot_archive_entries(s.entries@),
                        ))
                    })
                    &&& (r matches Err(e) ==> {
                        &&& e is FormatFailure
                        &&& t.status == PackageTaskStatus::Failed
                        &&& t.error is Some
                        &&& t.processed_files <= t.total_files
                        &&& t.processed_size <= t.total_size
                        &&& t.progress_permille <= 1000
                    })
                }
            },
    {
        let snapshot = match source {
            None => {
                return Err(Error::NotFound(String::from_str(source_dir)));
            },
            Some(s) => s,
        };
        let active = match &self.current_task {
            Some(t) => matches!(t.status, PackageTaskStatus::Preparing
                | PackageTaskStatus::Packaging),
            None => false,
        };
        if active {
            return Err(Error::AlreadyInProgress);
        }
        let uid = new_uuid_string();
        let task_id = String::from_str("package_").concat(uid.as_str());
        proof {
            assert(exists|u: Seq<char>| task_id@ == "package_"@ + u) by {
                assert(task_id@ == "package_"@ + uid@);
            }
        }
        let target_file = join_path(self.output_dir.as_str(), name).concat(".zip");
        proof {
            assert(target_file@ =~= self.out_root() + "/"@ + name@ + ".zip"@);
        }
        let totals = source_totals(&snapshot.entries);
        let mut task = PackageTaskInfo {
            id: task_id,
            source_dir: String::from_str(source_dir),
            target_file,
            status: PackageTaskStatus::Preparing,
            progress_permille: 0,
            total_files: totals.0,
            processed_files: 0,
            total_size: totals.1,
            processed_size: 0,
            created_at: now_unix_secs(),
            completed_at: None,
            error: None,
        };
        task.status = PackageTaskStatus::Packaging;
        match build_archive(&snapshot.entries, &mut task) {
            Ok(bytes) => {
                task.status = PackageTaskStatus::Completed;
                task.progress_permille = 1000;
                task.completed_at = Some(now_unix_secs());
                let out = PackageOutput {
                    task_id: task.id.clone(),
                    target_file: task.target_file.clone(),
                    archive: bytes,
                };
                self.current_task = Some(task);
                Ok(out)
            },
            Err(msg) => {
                task.status = PackageTaskStatus::Failed;
                task.error = Some(msg.clone());
                self.current_task = Some(task);
                Err(Error::FormatFailure(msg))
            },
        }
    }

    /// The task in the slot, if any, whatever its state.
    pub fn get_current_task(&self) -> (r: Option<&PackageTaskInfo>)
        ensures
            r is Some <==> self.spec_current_task() is Some,
            r matches Some(t) ==> self.spec_current_task() == Some(*t),
    {
        self.current_task.as_ref()
    }

    /// Cancels the task in the slot if it is still active: it becomes
    /// `Canceled` and `true` comes back, and the caller then removes any
    /// partial archive at its target path. On a terminal or absent task
    /// this is a no-op that returns `false`: nothing changes and nothing
    /// is to be removed.
    pub fn cancel_current_task(&mut self) -> (r: Result<bool, Error>)
        ensures
            !old(self).has_active_task() ==> r == Ok::<bool, Error>(false) && *final(self)
                == *old(self),
            old(self).has_active_task() ==> {
                &&& r == Ok::<bool, Error>(true)
                &&& final(self).out_root() == old(self).out_root()
                &&& old(self).spec_current_task() matches Some(t)
                    && final(self).spec_current_task() == Some(
                    PackageTaskInfo { status: PackageTaskStatus::Canceled, ..t },
                )
            },
    {
        let active = match &self.current_task {
            Some(t) => matches!(t.status, PackageTaskStatus::Preparing
                | PackageTaskStatus::Packaging),
            None => false,
        };
        if !active {
            return Ok(false);
        }
        match self.current_task.take() {
            Some(mut t) => {
                t.status = PackageTaskStatus::Canceled;
                self.current_task = Some(t);
                Ok(true)
            },
            None => Ok(false),
        }
    }

    /// Discards whatever task holds the slot, freeing it for a new start.
    pub fn clear_current_task(&mut self)
        ensures
            final(self).spec_current_task() is None,
            final(self).out_root() == old(self).out_root(),
    {
        self.current_task = None;
    }
}

} // verus!

//! Trusted wrappers over the `zip` crate, with a model of the archive
//! writer: the entries appended so far, whether the writer is still in
//! the healthy state successful calls leave it in, and the bytes the
//! finished archive encodes.
//!
//! Every entry is written with Deflate compression and Unix permission
//! mode 0o755, paths relative to the packaged root. With the crate's
//! feature selection (`deflate` only, no clock feature) the entry
//! timestamp is the format's constant default, so the finished bytes are
//! a function of the appended entries alone and [`zip_encoding`] names
//! them. The writer's own sources show exactly three ways an append into
//! an in-memory sink can fail, at once or deferred to a later call: a
//! second entry under an already-stored name, an entry name whose encoded
//! form exceeds the format's 16-bit length field, and file data whose raw
//! or compressed size overflows a non-ZIP64 entry; the success promises
//! below are conditioned on exactly those, with headroom for the
//! compressed size.

use std::io::Write;
use vstd::prelude::*;

verus! {

/// An archive writer over an in-memory buffer. The writer itself is the
/// `zip` crate's; this struct only carries it past the verifier, which
/// refuses `zip::ZipWriter`'s trait bounds in a type declaration.
#[verifier::external_body]
pub struct MemZipWriter {
    inner: zip::ZipWriter<std::io::Cursor<Vec<u8>>>,
}

/// One appended archive entry, as the writer model records it.
pub ghost struct ArchiveEntry {
    /// The name the entry was appended under.
    pub name: Seq<char>,
    /// Whether it is a directory entry.
    pub is_dir: bool,
    /// The file's bytes; empty for a directory.
    pub data: Seq<u8>,
}

/// The name an entry is stored under: a directory gets a trailing slash
/// unless its name already ends in a separator; a file's name is kept
/// as given.
pub open spec fn stored_name(name: Seq<char>, is_dir: bool) -> Seq<char> {
    if is_dir && !(name.len() > 0 && (name.last() == '/' || name.last() == '\\')) {
        name + "/"@
    } else {
        name
    }
}

/// The name an appended entry is stored under.
pub open spec fn entry_stored_name(e: ArchiveEntry) -> Seq<char> {
    stored_name(e.name, e.is_dir)
}

/// No appended entry is stored under the given name.
pub open spec fn name_fresh(entries: Seq<ArchiveEntry>, n: Seq<char>) -> bool {
    forall|i: int| 0 <= i < entries.len() ==> entry_stored_name(#[trigger] entries[i]) != n
}

/// The entry name is short enough that its encoded form, a directory's
/// trailing slash included, fits the format's 16-bit length field
/// (every character encodes to at most four bytes).
pub open spec fn name_fits(name: Seq<char>) -> bool {
    name.len() <= 16383
}

/// The file data fits a non-ZIP64 entry with room to spare. The writer
/// checks the raw size as the bytes go in, but also the *compressed* size
/// when the entry's header is finalized, and Deflate can expand
/// incompressible input by a few bytes per block; sixteen mebibytes of
/// headroom below the 32-bit limit cover that documented worst case many
/// times over, so both sizes stay within a non-ZIP64 entry.
pub open spec fn data_fits(data: Seq<u8>) -> bool {
    data.len() <= 0xFEFFFFFF
}

/// The entries an archive writer holds, in append order.
pub uninterp spec fn zip_entries(w: MemZipWriter) -> Seq<ArchiveEntry>;

/// Whether a writer is in the healthy state that the constructor and
/// successful appends leave it in; after a failed call nothing more is
/// promised of the writer.
pub uninterp spec fn zip_writer_ok(w: MemZipWriter) -> bool;

/// The bytes of the finished archive holding the given entries, under the
/// fixed options above. The encoding is a function of the entries within
/// one build of this crate: the header's system byte is a compile-time
/// constant, so a build for another platform encodes the same entries
/// differently.
pub uninterp spec fn zip_encoding(entries: Seq<ArchiveEntry>) -> Seq<u8>;

/// Relies on zip::ZipWriter::new over an in-memory cursor: a fresh, empty
/// archive writer.
#[verifier::external_body]
pub(crate) fn zip_writer_new() -> (r: MemZipWriter)
    ensures
        zip_writer_ok(r),
        zip_entries(r) == Seq::<ArchiveEntry>::empty(),
{
    MemZipWriter { inner: zip::ZipWriter::new(std::io::Cursor::new(Vec::new())) }
}

/// Relies on zip::ZipWriter::start_file followed by write_all: appends one
/// file entry with the given bytes. Its sources fail an append into memory
/// only for a duplicate stored name, an over-long name, or data whose raw
/// or compressed size overflows a non-ZIP64 entry (the compressed size is
/// checked when the entry's header is later finalized), so a fresh entry
/// within the fitted bounds is promised to go in and to leave the writer
/// healthy; after any other call nothing more is promised of the writer,
/// and a failure is returned as its message.
#[verifier::external_body]
pub(crate) fn zip_add_file(w: &mut MemZipWriter, name: &str, data: &[u8]) -> (r: Result<
    (),
    String,
>)
    ensures
        zip_writer_ok(*old(w)) && name_fresh(zip_entries(*old(w)), stored_name(name@, false))
            && name_fits(name@) && data_fits(data@) ==> r is Ok && zip_writer_ok(*final(w))
            && zip_entries(*final(w)) == zip_entries(*old(w)).push(
            ArchiveEntry { name: name@, is_dir: false, data: data@ },
        ),
{
    let options = zip::write::SimpleFileOptions::default().compression_method(
        zip::CompressionMethod::Deflated,
    ).unix_permissions(0o755);
    if let Err(e) = w.inner.start_file(name, options) {
        return Err(e.to_string());
    }
    w.inner.write_all(data).map_err(|e| e.to_string())
}

/// Relies on zip::ZipWriter::add_directory: appends one directory entry,
/// stored with a trailing slash. The same failure causes as for a file
/// apply (a directory carries no data), so a fresh entry with a fitting
/// name is promised to go in and to leave the writer healthy.
#[verifier::external_body]
pub(crate) fn zip_add_directory(w: &mut MemZipWriter, name: &str) -> (r: Result<(), String>)
    ensures
        zip_writer_ok(*old(w)) && name_fresh(zip_entries(*old(w)), stored_name(name@, true))
            && name_fits(name@) ==> r is Ok && zip_writer_ok(*final(w)) && zip_entries(*final(w))
            == zip_entries(*old(w)).push(
            ArchiveEntry { name: name@, is_dir: true, data: Seq::<u8>::empty() },
        ),
{
    let options = zip::write::SimpleFileOptions::default().compression_method(
        zip::CompressionMethod::Deflated,
    ).unix_permissions(0o755);
    w.inner.add_directory(name, options).map_err(|e| e.to_string())
}

/// Relies on zip::ZipWriter::finish: closes the archive and hands back its
/// bytes. On a healthy writer over an in-memory cursor its sources only
/// perform infallible seeks and writes (over-wide sizes and counts get
/// ZIP64 records, not errors), so finishing is promised to succeed and to
/// encode exactly the appended entries.
#[verifier::external_body]
pub(crate) fn zip_finish(w: MemZipWriter) -> (r: Result<Vec<u8>, String>)
    ensures
        zip_writer_ok(w) ==> r is Ok,
        zip_writer_ok(w) ==> (r matches Ok(bytes) ==> bytes@ == zip_encoding(zip_entries(w))),
{
    match w.inner.finish() {
        Ok(cursor) => Ok(cursor.into_inner()),
        Err(e) => Err(e.to_string()),
    }
}

} // verus!

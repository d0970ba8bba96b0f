//! ZIP containers, read and written in memory through the `zip` crate.
use vstd::prelude::*;

use std::io::{Cursor, Read, Write};

use zip::result::ZipError;
use zip::{ZipArchive, ZipWriter};

use crate::pptx::{part_views, string_views};

verus! {

#[verifier::external_type_specification]
#[verifier::external_body]
pub struct ExZipError(ZipError);

/// The step of writing an archive at which it failed.
#[derive(Clone, Copy, Debug, PartialEq, Eq, Structural)]
pub enum PackStep {
    /// Opening an entry.
    Start,
    /// Writing an entry's content.
    Write,
    /// Writing the central directory.
    Finish,
}

/// The bytes of the archive that `zip::ZipWriter` builds in memory from these
/// (path, text) entries, each deflate-compressed, in order. The crate is built
/// without its `time` feature, so every entry carries the same fixed date and
/// the bytes depend on the entries alone.
pub uninterp spec fn zip_archive_of(entries: Seq<(Seq<char>, Seq<char>)>) -> Seq<u8>;

/// The entry names that `zip::ZipArchive` reads from the bytes, in index order,
/// or `None` where the central directory does not read.
pub uninterp spec fn zip_names_of(bytes: Seq<u8>) -> Option<Seq<Seq<char>>>;

/// The content of entry `i` of the archive as UTF-8 text, or `None` where the
/// archive, the entry or its decompression fails, or the content is not UTF-8.
pub uninterp spec fn zip_text_of(bytes: Seq<u8>, i: int) -> Option<Seq<char>>;

/// Whether entry names are pairwise distinct.
pub open spec fn distinct_names(e: Seq<(Seq<char>, Seq<char>)>) -> bool {
    forall|i: int, j: int| 0 <= i < j < e.len() ==> #[trigger] e[i].0 != #[trigger] e[j].0
}

/// The characters of all entries' texts together.
pub open spec fn total_text_len(e: Seq<(Seq<char>, Seq<char>)>) -> nat
    decreases e.len(),
{
    if e.len() == 0 {
        0
    } else {
        total_text_len(e.drop_last()) + e.last().1.len()
    }
}

/// Entries that the in-memory writer takes: distinct names of at most 16383
/// characters (so at most 65535 bytes), and under 2^28 characters of text in
/// all (so every entry and offset stays under the 4 GiB mark).
pub open spec fn entries_writable(e: Seq<(Seq<char>, Seq<char>)>) -> bool {
    &&& distinct_names(e)
    &&& forall|i: int| 0 <= i < e.len() ==> (#[trigger] e[i]).0.len() <= 16383
    &&& total_text_len(e) < 0x1000_0000
}

/// Relies on `zip::ZipWriter` (`new`, `start_file`, `write_all`, `finish`): an
/// in-memory archive holding one deflate-compressed entry per (path, text)
/// pair, in the given order, each with the UTF-8 bytes of its text; on failure,
/// the step that failed and its error. Writing into memory fails only on a
/// duplicate name (`start_entry`), a name over 65535 bytes (`local_block`), or
/// an entry or offset past 4 GiB without the large-file option (`write`); so it
/// succeeds on entries that [`entries_writable`] admits. The writer cannot be
/// held by verified code (its `Write + Seek` bound is refused), so the entries
/// go over together.
#[verifier::external_body]
pub(crate) fn zip_package(entries: &Vec<(String, String)>) -> (r: Result<Vec<u8>, (PackStep, ZipError)>)
    ensures
        r matches Ok(b) ==> b@ == zip_archive_of(part_views(entries@)),
        entries_writable(part_views(entries@)) ==> r is Ok,
{
    let mut w = ZipWriter::new(Cursor::new(Vec::new()));
    let options = zip::write::SimpleFileOptions::default().compression_method(
        zip::CompressionMethod::Deflated,
    );
    for (name, text) in entries.iter() {
        w.start_file(name.as_str(), options).map_err(|e| (PackStep::Start, e))?;
        w.write_all(text.as_bytes()).map_err(|e| (PackStep::Write, ZipError::from(e)))?;
    }
    Ok(w.finish().map_err(|e| (PackStep::Finish, e))?.into_inner())
}

/// Relies on `zip::ZipArchive::new` and `ZipArchive::file_names`: the entry
/// names in index order, or the error of reading the central directory.
#[verifier::external_body]
pub(crate) fn zip_entry_names(bytes: &[u8]) -> (r: Result<Vec<String>, ZipError>)
    ensures
        r is Ok <==> zip_names_of(bytes@) is Some,
        r matches Ok(v) ==> zip_names_of(bytes@) == Some(string_views(v@)),
{
    Ok(ZipArchive::new(Cursor::new(bytes))?.file_names().map(String::from).collect())
}

/// Relies on `zip::ZipArchive::new`, `ZipArchive::by_index` and
/// `std::io::Read::read_to_string`: the content of entry `i` as text.
#[verifier::external_body]
pub(crate) fn zip_entry_text(bytes: &[u8], i: usize) -> (r: Result<String, ZipError>)
    ensures
        r is Ok <==> zip_text_of(bytes@, i as int) is Some,
        r matches Ok(s) ==> zip_text_of(bytes@, i as int) == Some(s@),
{
    let mut s = String::new();
    ZipArchive::new(Cursor::new(bytes))?.by_index(i)?.read_to_string(&mut s)?;
    Ok(s)
}

/// Relies on `Display for zip::result::ZipError`: the error's message.
#[verifier::external_body]
pub(crate) fn zip_error_text(e: &ZipError) -> (r: String) {
    e.to_string()
}

} // verus!

//! The codecs, as far as they work on bytes in memory.
//!
//! Nothing in this file is proved. Each function makes one call into a codec
//! crate and says what that call is taken to return; what a codec finds in given
//! bytes is not written out here but named, so that the rest of the library can
//! speak of it.

use std::io::Read;
use vstd::prelude::*;

verus! {

/// The view of a text that a codec returned, or of the text of its failure.
pub open spec fn text_result(r: Result<String, String>) -> Result<Seq<char>, Seq<char>> {
    match r {
        Ok(text) => Ok(text@),
        Err(failure) => Err(failure@),
    }
}

/// The view of the bytes that a codec returned, or of the text of its failure.
pub open spec fn bytes_result(r: Result<Vec<u8>, String>) -> Result<Seq<u8>, Seq<char>> {
    match r {
        Ok(bytes) => Ok(bytes@),
        Err(failure) => Err(failure@),
    }
}

/// What one entry of a zip archive gives: its name, and its bytes. Either may
/// be the text of a failure instead.
pub type ZipEntry = (Result<Seq<char>, Seq<char>>, Result<Seq<u8>, Seq<char>>);

// ---------------------------------------------------------------------------
// Single streams: flate2, bzip2, xz2
// ---------------------------------------------------------------------------

/// What `flate2::read::GzDecoder` reads out of `data` up to the end of the
/// stream, or the text of the error that stops it.
pub uninterp spec fn gz_decoded(data: Seq<u8>) -> Result<Seq<u8>, Seq<char>>;

/// What `bzip2::read::BzDecoder` reads out of `data` up to the end of the
/// stream, or the text of the error that stops it.
pub uninterp spec fn bz2_decoded(data: Seq<u8>) -> Result<Seq<u8>, Seq<char>>;

/// What `xz2::read::XzDecoder` reads out of `data` up to the end of the stream,
/// or the text of the error that stops it.
pub uninterp spec fn xz_decoded(data: Seq<u8>) -> Result<Seq<u8>, Seq<char>>;

/// Runs `flate2::read::GzDecoder::new` on `data` and reads the decoder to its
/// end. Claimed: the outcome is a function of the bytes alone, `gz_decoded`.
#[verifier::external_body]
pub(crate) fn gz_decode(data: &[u8]) -> (r: Result<Vec<u8>, String>)
    ensures
        bytes_result(r) == gz_decoded(data@),
{
    let mut out = Vec::new();
    match flate2::read::GzDecoder::new(data).read_to_end(&mut out) {
        Ok(_) => Ok(out),
        Err(e) => Err(e.to_string()),
    }
}

/// Runs `bzip2::read::BzDecoder::new` on `data` and reads the decoder to its
/// end. Claimed: the outcome is a function of the bytes alone, `bz2_decoded`.
#[verifier::external_body]
pub(crate) fn bz2_decode(data: &[u8]) -> (r: Result<Vec<u8>, String>)
    ensures
        bytes_result(r) == bz2_decoded(data@),
{
    let mut out = Vec::new();
    match bzip2::read::BzDecoder::new(data).read_to_end(&mut out) {
        Ok(_) => Ok(out),
        Err(e) => Err(e.to_string()),
    }
}

/// Runs `xz2::read::XzDecoder::new` on `data` and reads the decoder to its end.
/// Claimed: the outcome is a function of the bytes alone, `xz_decoded`.
#[verifier::external_body]
pub(crate) fn xz_decode(data: &[u8]) -> (r: Result<Vec<u8>, String>)
    ensures
        bytes_result(r) == xz_decoded(data@),
{
    let mut out = Vec::new();
    match xz2::read::XzDecoder::new(data).read_to_end(&mut out) {
        Ok(_) => Ok(out),
        Err(e) => Err(e.to_string()),
    }
}

// ---------------------------------------------------------------------------
// zip
// ---------------------------------------------------------------------------

/// `std::io::Cursor`, carried as it is.
#[verifier::external_type_specification]
#[verifier::external_body]
#[verifier::reject_recursive_types(T)]
pub struct ExCursor<T>(std::io::Cursor<T>);

/// `zip::ZipArchive`, carried as it is.
#[verifier::external_type_specification]
#[verifier::external_body]
#[verifier::reject_recursive_types(R)]
pub struct ExZipArchive<R>(zip::ZipArchive<R>);

/// What `zip::ZipArchive::new` finds in `data`: the entries that the opened
/// archive holds, in the order of their indices, each with what `by_index`
/// then gives for it, or the text of the error with which the archive does
/// not open.
pub uninterp spec fn zip_entries(data: Seq<u8>) -> Result<Seq<ZipEntry>, Seq<char>>;

/// The entries that an open zip archive holds, in the order of their indices.
pub uninterp spec fn zip_contents(archive: zip::ZipArchive<std::io::Cursor<&[u8]>>) -> Seq<
    ZipEntry,
>;

/// Opens `data` with `zip::ZipArchive::new`. Claimed: whether it opens, the
/// error's text where it does not, and the entries that the archive then holds
/// are a function of the bytes alone, `zip_entries`.
#[verifier::external_body]
pub(crate) fn zip_open(data: &[u8]) -> (r: Result<
    zip::ZipArchive<std::io::Cursor<&[u8]>>,
    String,
>)
    ensures
        match r {
            Ok(archive) => zip_entries(data@) == Ok::<Seq<ZipEntry>, Seq<char>>(
                zip_contents(archive),
            ),
            Err(failure) => zip_entries(data@) == Err::<Seq<ZipEntry>, Seq<char>>(failure@),
        },
{
    match zip::ZipArchive::new(std::io::Cursor::new(data)) {
        Ok(archive) => Ok(archive),
        Err(e) => Err(e.to_string()),
    }
}

/// `zip::ZipArchive::len`: the number of entries.
#[verifier::external_body]
pub(crate) fn zip_len(archive: &zip::ZipArchive<std::io::Cursor<&[u8]>>) -> (n: usize)
    ensures
        n == zip_contents(*archive).len(),
{
    archive.len()
}

/// `zip::ZipArchive::by_index`, then `name` on the entry. Claimed: the outcome
/// is the first half of what the archive holds at `index`, and the call leaves
/// what the archive holds as it was.
#[verifier::external_body]
pub(crate) fn zip_entry_name(
    archive: &mut zip::ZipArchive<std::io::Cursor<&[u8]>>,
    index: usize,
) -> (r: Result<String, String>)
    requires
        index < zip_contents(*old(archive)).len(),
    ensures
        zip_contents(*final(archive)) == zip_contents(*old(archive)),
        text_result(r) == zip_contents(*old(archive))[index as int].0,
{
    match archive.by_index(index) {
        Ok(file) => match file.name() {
            Ok(name) => Ok(name.into_owned()),
            Err(e) => Err(e.to_string()),
        },
        Err(e) => Err(e.to_string()),
    }
}

/// `zip::ZipArchive::by_index`, then the entry read to its end. Claimed: the
/// outcome is the second half of what the archive holds at `index`, and the
/// call leaves what the archive holds as it was.
#[verifier::external_body]
pub(crate) fn zip_entry_data(
    archive: &mut zip::ZipArchive<std::io::Cursor<&[u8]>>,
    index: usize,
) -> (r: Result<Vec<u8>, String>)
    requires
        index < zip_contents(*old(archive)).len(),
    ensures
        zip_contents(*final(archive)) == zip_contents(*old(archive)),
        bytes_result(r) == zip_contents(*old(archive))[index as int].1,
{
    let mut out = Vec::new();
    match archive.by_index(index) {
        Ok(mut file) => match file.read_to_end(&mut out) {
            Ok(_) => Ok(out),
            Err(e) => Err(e.to_string()),
        },
        Err(e) => Err(e.to_string()),
    }
}

// ---------------------------------------------------------------------------
// tar
// ---------------------------------------------------------------------------

/// A `tar::Archive` over bytes in memory.
#[verifier::external_body]
pub struct TarArchive<'d> {
    inner: tar::Archive<&'d [u8]>,
}

/// The `tar::Entries` of an archive over bytes in memory.
#[verifier::external_body]
pub struct TarEntries<'a, 'd> {
    inner: tar::Entries<'a, &'d [u8]>,
}

/// What a scan of `data` with `tar::Archive::entries` gives, step by step: the
/// path of the next entry, or the text of the error met instead.
pub uninterp spec fn tar_paths(data: Seq<u8>) -> Seq<Result<Seq<char>, Seq<char>>>;

/// The bytes that an archive will scan, while nothing has been read from it.
pub uninterp spec fn tar_source(archive: TarArchive<'_>) -> Option<Seq<u8>>;

/// What the steps still to come will give.
pub uninterp spec fn tar_unread(entries: TarEntries<'_, '_>) -> Seq<Result<Seq<char>, Seq<char>>>;

/// `tar::Archive::new` on `data`. Nothing is read yet.
#[verifier::external_body]
pub(crate) fn tar_open(data: &[u8]) -> (archive: TarArchive<'_>)
    ensures
        tar_source(archive) == Some(data@),
{
    TarArchive { inner: tar::Archive::new(data) }
}

/// `tar::Archive::entries`. It fails only on an archive that has been read
/// from, which `requires` leaves out. Claimed: the steps to come are those of
/// a scan of the archive's bytes, `tar_paths`.
#[verifier::external_body]
pub(crate) fn tar_entries<'a, 'd>(archive: &'a mut TarArchive<'d>) -> (r: Result<
    TarEntries<'a, 'd>,
    String,
>)
    requires
        tar_source(*old(archive)) is Some,
    ensures
        match r {
            Ok(entries) => tar_unread(entries) == tar_paths(tar_source(*old(archive))->0),
            Err(_) => false,
        },
{
    match archive.inner.entries() {
        Ok(inner) => Ok(TarEntries { inner }),
        Err(e) => Err(e.to_string()),
    }
}

/// One step of the scan: `next` on the `tar::Entries`, then `tar::Entry::path`
/// on the entry, as text. Claimed: `None` comes when no step is left; otherwise
/// the outcome is the first of the steps that were left, and the rest stay.
#[verifier::external_body]
pub(crate) fn tar_next_path(entries: &mut TarEntries<'_, '_>) -> (r: Option<Result<String, String>>)
    ensures
        match r {
            None => tar_unread(*old(entries)).len() == 0 && tar_unread(*final(entries)).len()
                == 0,
            Some(step) => tar_unread(*old(entries)).len() > 0 && text_result(step) == tar_unread(
                *old(entries),
            )[0] && tar_unread(*final(entries)) == tar_unread(*old(entries)).drop_first(),
        },
{
    match entries.inner.next() {
        None => None,
        Some(Err(e)) => Some(Err(e.to_string())),
        Some(Ok(entry)) => match entry.path() {
            Ok(path) => Some(Ok(path.to_string_lossy().into_owned())),
            Err(e) => Some(Err(e.to_string())),
        },
    }
}

} // verus!

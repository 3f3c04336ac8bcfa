//! Listing: the names of the entries of a container, in the order in which the
//! archive holds them.

use crate::codec::{
    tar_entries, tar_next_path, tar_open, tar_paths, tar_unread, zip_contents, zip_entries,
    zip_entry_name, zip_len, zip_open, ZipEntry,
};
use crate::error::{ArchiveError, ErrorView};
use crate::kind::{classify, get_archive_type, ArchiveType, Compression};
use crate::password::{password_or_empty, password_text};
use crate::stream::{decode, decoded};
use vstd::prelude::*;

verus! {

/// The texts of a sequence of strings.
pub open spec fn texts(names: Seq<String>) -> Seq<Seq<char>> {
    names.map_values(|name: String| name@)
}

/// The view of what a listing returns.
pub open spec fn listing_view(r: Result<Vec<String>, ArchiveError>) -> Result<
    Seq<Seq<char>>,
    ErrorView,
> {
    match r {
        Ok(names) => Ok(texts(names@)),
        Err(e) => Err(e@),
    }
}

/// The names that a scan gives, in its order. The first step that fails ends
/// the listing with that failure.
pub open spec fn collected(steps: Seq<Result<Seq<char>, Seq<char>>>) -> Result<
    Seq<Seq<char>>,
    ErrorView,
>
    decreases steps.len(),
{
    if steps.len() == 0 {
        Ok(Seq::empty())
    } else {
        match collected(steps.drop_last()) {
            Err(e) => Err(e),
            Ok(names) => match steps.last() {
                Ok(name) => Ok(names.push(name)),
                Err(failure) => Err(ErrorView::Codec { message: failure }),
            },
        }
    }
}

/// What the entries of a zip archive give for their names.
pub open spec fn zip_names(entries: Seq<ZipEntry>) -> Seq<Result<Seq<char>, Seq<char>>> {
    entries.map_values(|entry: ZipEntry| entry.0)
}

/// The listing of the zip archive in `data`.
pub open spec fn zip_listing(data: Seq<u8>) -> Result<Seq<Seq<char>>, ErrorView> {
    match zip_entries(data) {
        Err(failure) => Err(ErrorView::Codec { message: failure }),
        Ok(entries) => collected(zip_names(entries)),
    }
}

/// The listing of a 7z archive, from what reading its header gave: the names
/// as they came, or the failure as a codec failure with its text.
pub open spec fn sevenz_listing(outcome: Result<Vec<String>, String>) -> Result<
    Seq<Seq<char>>,
    ErrorView,
> {
    match outcome {
        Err(failure) => Err(ErrorView::Codec { message: failure@ }),
        Ok(names) => Ok(texts(names@)),
    }
}

/// The listing of the tar archive in `data`, which is first decoded where the
/// archive is compressed.
pub open spec fn tar_listing(data: Seq<u8>, compression: Option<Compression>) -> Result<
    Seq<Seq<char>>,
    ErrorView,
> {
    match compression {
        None => collected(tar_paths(data)),
        Some(c) => match decoded(c, data) {
            Err(failure) => Err(ErrorView::Codec { message: failure }),
            Ok(bytes) => collected(tar_paths(bytes)),
        },
    }
}

/// A container that is listed from its bytes.
#[derive(Clone, Copy, Debug, PartialEq, Eq, Structural)]
pub enum Scan {
    Zip,
    /// The archive is decoded first where it is compressed.
    Tar { compression: Option<Compression> },
}

/// What a caller has to do to list an archive.
#[derive(Clone, Debug, PartialEq, Eq)]
pub enum ListJob {
    /// Read the file and hand its bytes to `list_entries`.
    Scan(Scan),
    /// Let the 7z codec read the header of the file with this password, and
    /// hand the names of its entries, or the text of its failure, to `list_7z`.
    ReadSevenZ { password: String },
    /// Walk the headers of the RAR archive with this password and take the
    /// name of each.
    WalkRar { password: String },
}

/// A `ListJob` with its password as a sequence of characters.
pub enum ListJobView {
    Scan(Scan),
    ReadSevenZ { password: Seq<char> },
    WalkRar { password: Seq<char> },
}

impl View for ListJob {
    type V = ListJobView;

    open spec fn view(&self) -> ListJobView {
        match self {
            ListJob::Scan(scan) => ListJobView::Scan(*scan),
            ListJob::ReadSevenZ { password } => ListJobView::ReadSevenZ { password: password@ },
            ListJob::WalkRar { password } => ListJobView::WalkRar { password: password@ },
        }
    }
}

/// What listing the archive at `path` takes. A path that names no existing
/// file is refused first; then every format that is no container.
pub open spec fn listing_job(path: Seq<char>, password: Seq<char>, exists: bool) -> Result<
    ListJobView,
    ErrorView,
> {
    if !exists {
        Err(ErrorView::NotFound)
    } else {
        match classify(path) {
            ArchiveType::Zip => Ok(ListJobView::Scan(Scan::Zip)),
            ArchiveType::SevenZ => Ok(ListJobView::ReadSevenZ { password }),
            ArchiveType::Tar => Ok(ListJobView::Scan(Scan::Tar { compression: None })),
            ArchiveType::TarGz => Ok(
                ListJobView::Scan(Scan::Tar { compression: Some(Compression::Gz) }),
            ),
            ArchiveType::TarBz2 => Ok(
                ListJobView::Scan(Scan::Tar { compression: Some(Compression::Bz2) }),
            ),
            ArchiveType::TarXz => Ok(
                ListJobView::Scan(Scan::Tar { compression: Some(Compression::Xz) }),
            ),
            ArchiveType::Rar => Ok(ListJobView::WalkRar { password }),
            ArchiveType::Gz | ArchiveType::Bz2 | ArchiveType::Xz | ArchiveType::Unknown => Err(
                ErrorView::UnsupportedListing,
            ),
        }
    }
}

/// The listing of the container in `data`.
pub open spec fn scan_listing(scan: Scan, data: Seq<u8>) -> Result<Seq<Seq<char>>, ErrorView> {
    match scan {
        Scan::Zip => zip_listing(data),
        Scan::Tar { compression } => tar_listing(data, compression),
    }
}

/// The view of what `list_archive_contents` returns.
pub open spec fn list_job_view(r: Result<ListJob, ArchiveError>) -> Result<
    ListJobView,
    ErrorView,
> {
    match r {
        Ok(job) => Ok(job@),
        Err(e) => Err(e@),
    }
}

/// Decides how the archive at `archive` is listed. `exists` says whether the
/// path names an existing file.
pub fn list_archive_contents(archive: &str, password: Option<&str>, exists: bool) -> (r: Result<
    ListJob,
    ArchiveError,
>)
    ensures
        list_job_view(r) == listing_job(archive@, password_text(password), exists),
{
    if !exists {
        return Err(ArchiveError::NotFound);
    }
    let scan = match get_archive_type(archive) {
        ArchiveType::Zip => Scan::Zip,
        ArchiveType::SevenZ => {
            return Ok(ListJob::ReadSevenZ { password: password_or_empty(password) });
        },
        ArchiveType::Tar => Scan::Tar { compression: None },
        ArchiveType::TarGz => Scan::Tar { compression: Some(Compression::Gz) },
        ArchiveType::TarBz2 => Scan::Tar { compression: Some(Compression::Bz2) },
        ArchiveType::TarXz => Scan::Tar { compression: Some(Compression::Xz) },
        ArchiveType::Rar => {
            return Ok(ListJob::WalkRar { password: password_or_empty(password) });
        },
        _ => {
            return Err(ArchiveError::UnsupportedListing);
        },
    };
    Ok(ListJob::Scan(scan))
}

/// The names of the entries of the container in `data`, in the order in which
/// the archive holds them: nothing is sorted and nothing is left out.
pub fn list_entries(scan: Scan, data: &[u8]) -> (r: Result<Vec<String>, ArchiveError>)
    ensures
        listing_view(r) == scan_listing(scan, data@),
{
    match scan {
        Scan::Zip => list_zip(data),
        Scan::Tar { compression } => list_tar(data, compression),
    }
}

/// The names of the entries of the zip archive in `data`.
pub fn list_zip(data: &[u8]) -> (r: Result<Vec<String>, ArchiveError>)
    ensures
        listing_view(r) == zip_listing(data@),
{
    let mut archive = match zip_open(data) {
        Ok(archive) => archive,
        Err(message) => {
            return Err(ArchiveError::Codec { message });
        },
    };
    let ghost steps = zip_names(zip_contents(archive));
    let n: usize = zip_len(&archive);
    let mut names: Vec<String> = Vec::new();
    let mut i: usize = 0;
    assert(texts(names@) == Seq::<Seq<char>>::empty());
    while i < n
        invariant
            zip_listing(data@) == collected(steps),
            steps == zip_names(zip_contents(archive)),
            n == steps.len(),
            i <= n,
            collected(steps.take(i as int)) == Ok::<Seq<Seq<char>>, ErrorView>(texts(names@)),
        decreases n - i,
    {
        let ghost before = texts(names@);
        proof {
            assert(steps.take(i + 1).drop_last() == steps.take(i as int));
            assert(steps.take(i + 1).last() == zip_contents(archive)[i as int].0);
        }
        match zip_entry_name(&mut archive, i) {
            Ok(name) => {
                names.push(name);
                assert(texts(names@) == before.push(name@));
            },
            Err(message) => {
                proof {
                    lemma_failure_stays(steps, i + 1);
                }
                return Err(ArchiveError::Codec { message });
            },
        }
        i += 1;
    }
    assert(steps.take(n as int) == steps);
    Ok(names)
}

/// The listing of a 7z archive, from what the codec's reading of its header
/// gave: the names of the entries in the header's order, or the text of the
/// failure. The names stand as they came; the failure is a codec failure.
pub fn list_7z(outcome: Result<Vec<String>, String>) -> (r: Result<Vec<String>, ArchiveError>)
    ensures
        listing_view(r) == sevenz_listing(outcome),
{
    match outcome {
        Ok(names) => Ok(names),
        Err(message) => Err(ArchiveError::Codec { message }),
    }
}

/// The paths of the entries of the tar archive in `data`, read from its start
/// to its end.
fn scan_tar(data: &[u8]) -> (r: Result<Vec<String>, ArchiveError>)
    ensures
        listing_view(r) == collected(tar_paths(data@)),
{
    let mut archive = tar_open(data);
    // An archive that was just opened always gives its entries.
    let mut entries = match tar_entries(&mut archive) {
        Ok(entries) => entries,
        Err(message) => {
            return Err(ArchiveError::Codec { message });
        },
    };
    let ghost steps = tar_paths(data@);
    let ghost mut done: int = 0;
    let mut names: Vec<String> = Vec::new();
    assert(texts(names@) == Seq::<Seq<char>>::empty());
    assert(steps.skip(0) == steps);
    loop
        invariant
            steps == tar_paths(data@),
            0 <= done <= steps.len(),
            tar_unread(entries) == steps.skip(done),
            collected(steps.take(done)) == Ok::<Seq<Seq<char>>, ErrorView>(texts(names@)),
        ensures
            listing_view(Ok(names)) == collected(steps),
        decreases steps.len() - done,
    {
        let ghost before = texts(names@);
        match tar_next_path(&mut entries) {
            None => {
                assert(steps.take(done) == steps);
                break ;
            },
            Some(step) => {
                proof {
                    assert(steps.skip(done)[0] == steps[done]);
                    assert(steps.skip(done).drop_first() == steps.skip(done + 1));
                    assert(steps.take(done + 1).drop_last() == steps.take(done));
                    assert(steps.take(done + 1).last() == steps[done]);
                }
                match step {
                    Ok(path) => {
                        names.push(path);
                        assert(texts(names@) == before.push(path@));
                    },
                    Err(message) => {
                        proof {
                            lemma_failure_stays(steps, done + 1);
                        }
                        return Err(ArchiveError::Codec { message });
                    },
                }
                proof {
                    done = done + 1;
                }
            },
        }
    }
    Ok(names)
}

/// The paths of the entries of the tar archive in `data`, which is first
/// decoded where the archive is compressed.
pub fn list_tar(data: &[u8], compression: Option<Compression>) -> (r: Result<
    Vec<String>,
    ArchiveError,
>)
    ensures
        listing_view(r) == tar_listing(data@, compression),
{
    match compression {
        None => scan_tar(data),
        Some(c) => match decode(c, data) {
            Err(message) => Err(ArchiveError::Codec { message }),
            Ok(bytes) => scan_tar(bytes.as_slice()),
        },
    }
}

/// Once a prefix of a scan has failed, the whole scan fails the same way.
pub proof fn lemma_failure_stays(steps: Seq<Result<Seq<char>, Seq<char>>>, upto: int)
    requires
        0 <= upto <= steps.len(),
        collected(steps.take(upto)) is Err,
    ensures
        collected(steps) == collected(steps.take(upto)),
    decreases steps.len() - upto,
{
    if upto < steps.len() {
        assert(steps.take(upto + 1).drop_last() == steps.take(upto));
        lemma_failure_stays(steps, upto + 1);
    } else {
        assert(steps.take(upto) == steps);
    }
}

} // verus!

//! Extraction: what has to be written where.
//!
//! Nothing here touches a file system. An extraction is worked out as a list of
//! actions, which the caller performs in order; where a codec unpacks a whole
//! archive by itself, the caller is told which one to run.

use crate::codec::{
    zip_contents, zip_entries, zip_entry_data, zip_entry_name, zip_len, zip_open, ZipEntry,
};
use crate::error::{ArchiveError, ErrorView};
use crate::kind::{classify, get_archive_type, ArchiveType, Compression};
use crate::password::{password_or_empty, password_text};
use crate::paths::{
    file_stem, is_directory_name, joined, names_directory, parent, path_file_stem, path_join,
    path_parent, text_of,
};
use crate::stream::{decode, decoded};
use vstd::prelude::*;

verus! {

/// One thing to do to the file system.
#[derive(Clone, Debug, PartialEq, Eq)]
pub enum Action {
    /// Create the directory at `path` and every missing directory above it.
    /// The empty path asks for nothing.
    CreateDirAll { path: String },
    /// Create the file at `path`, or empty the one that is there, and write
    /// `data` to it.
    WriteFile { path: String, data: Vec<u8> },
}

/// An `Action` with its path and bytes as sequences.
pub enum ActionView {
    CreateDirAll { path: Seq<char> },
    WriteFile { path: Seq<char>, data: Seq<u8> },
}

impl View for Action {
    type V = ActionView;

    open spec fn view(&self) -> ActionView {
        match self {
            Action::CreateDirAll { path } => ActionView::CreateDirAll { path: path@ },
            Action::WriteFile { path, data } => ActionView::WriteFile { path: path@, data: data@ },
        }
    }
}

/// The views of a sequence of actions.
pub open spec fn action_views(actions: Seq<Action>) -> Seq<ActionView> {
    actions.map_values(|action: Action| action@)
}

/// Where one entry of an archive goes.
#[derive(Clone, Debug, PartialEq, Eq)]
pub enum EntryStep {
    /// The entry is a directory: create it at `path`, with every missing
    /// directory above it.
    Directory { path: String },
    /// The entry is a file: create the directories down to `parent`, where the
    /// path has one, then put the entry's bytes at `path`.
    File { parent: Option<String>, path: String },
}

/// An `EntryStep` with its paths as sequences of characters.
pub enum EntryStepView {
    Directory { path: Seq<char> },
    File { parent: Option<Seq<char>>, path: Seq<char> },
}

impl View for EntryStep {
    type V = EntryStepView;

    open spec fn view(&self) -> EntryStepView {
        match self {
            EntryStep::Directory { path } => EntryStepView::Directory { path: path@ },
            EntryStep::File { parent, path } => EntryStepView::File {
                parent: text_of(*parent),
                path: path@,
            },
        }
    }
}

/// Where the entry `name` goes below `extract_to`. The name is joined to the
/// destination as it stands.
pub open spec fn entry_step(
    extract_to: Seq<char>,
    name: Seq<char>,
    is_directory: bool,
) -> EntryStepView {
    let path = joined(extract_to, name);
    if is_directory {
        EntryStepView::Directory { path }
    } else {
        EntryStepView::File { parent: parent(path), path }
    }
}

/// The actions of an extraction, and how it ended. After a failure the actions
/// are those of the entries before the one that failed: they are to be
/// performed all the same, and nothing undoes them.
#[derive(Debug, PartialEq, Eq)]
pub struct Extraction {
    pub actions: Vec<Action>,
    pub outcome: Result<(), ArchiveError>,
}

/// An `Extraction` over sequences.
pub struct ExtractionView {
    pub actions: Seq<ActionView>,
    pub outcome: Result<(), ErrorView>,
}

impl View for Extraction {
    type V = ExtractionView;

    open spec fn view(&self) -> ExtractionView {
        ExtractionView {
            actions: action_views(self.actions@),
            outcome: match self.outcome {
                Ok(()) => Ok(()),
                Err(e) => Err(e@),
            },
        }
    }
}

/// What one entry of a zip archive adds to an extraction. A name with a
/// separator at its end is a directory. Any other entry is a file: its
/// directory comes first, then its bytes; if the bytes cannot be had, the
/// directory is still asked for.
pub open spec fn zip_entry_plan(extract_to: Seq<char>, entry: ZipEntry) -> ExtractionView {
    match entry.0 {
        Err(failure) => ExtractionView {
            actions: Seq::empty(),
            outcome: Err(ErrorView::Codec { message: failure }),
        },
        Ok(name) => match entry_step(extract_to, name, names_directory(name)) {
            EntryStepView::Directory { path } => ExtractionView {
                actions: seq![ActionView::CreateDirAll { path }],
                outcome: Ok(()),
            },
            EntryStepView::File { parent, path } => {
                let above = match parent {
                    Some(dir) => seq![ActionView::CreateDirAll { path: dir }],
                    None => Seq::empty(),
                };
                match entry.1 {
                    Err(failure) => ExtractionView {
                        actions: above,
                        outcome: Err(ErrorView::Codec { message: failure }),
                    },
                    Ok(data) => ExtractionView {
                        actions: above.push(ActionView::WriteFile { path, data }),
                        outcome: Ok(()),
                    },
                }
            },
        },
    }
}

/// The extraction of `entries`, one after the other, up to the first that fails.
pub open spec fn zip_plan(extract_to: Seq<char>, entries: Seq<ZipEntry>) -> ExtractionView
    decreases entries.len(),
{
    if entries.len() == 0 {
        ExtractionView { actions: Seq::empty(), outcome: Ok(()) }
    } else {
        let before = zip_plan(extract_to, entries.drop_last());
        if before.outcome is Err {
            before
        } else {
            let last = zip_entry_plan(extract_to, entries.last());
            ExtractionView { actions: before.actions + last.actions, outcome: last.outcome }
        }
    }
}

/// The extraction of the zip archive in `data` to `extract_to`. An archive
/// that does not open asks for nothing.
pub open spec fn zip_extraction(data: Seq<u8>, extract_to: Seq<char>) -> ExtractionView {
    match zip_entries(data) {
        Err(failure) => ExtractionView {
            actions: Seq::empty(),
            outcome: Err(ErrorView::Codec { message: failure }),
        },
        Ok(entries) => zip_plan(extract_to, entries),
    }
}

/// What the single compressed file at `archive` unpacks to: the decoded bytes,
/// in a file below `extract_to` that has the archive's name without its last
/// extension. Where the archive lies does not matter.
pub open spec fn decompression(
    compression: Compression,
    archive: Seq<char>,
    data: Seq<u8>,
    extract_to: Seq<char>,
) -> Result<ActionView, ErrorView> {
    match file_stem(archive) {
        None => Err(ErrorView::InvalidFilename),
        Some(stem) => match decoded(compression, data) {
            Err(failure) => Err(ErrorView::Codec { message: failure }),
            Ok(bytes) => Ok(ActionView::WriteFile { path: joined(extract_to, stem), data: bytes }),
        },
    }
}

/// The view of an action or of the failure in its place.
pub open spec fn action_result_view(r: Result<Action, ArchiveError>) -> Result<
    ActionView,
    ErrorView,
> {
    match r {
        Ok(action) => Ok(action@),
        Err(e) => Err(e@),
    }
}

/// An archive whose extraction is planned from its bytes.
#[derive(Clone, Copy, Debug, PartialEq, Eq, Structural)]
pub enum Unpack {
    Zip,
    /// A single compressed file.
    Stream { codec: Compression },
}

/// What a caller has to do to extract an archive.
#[derive(Clone, Debug, PartialEq, Eq)]
pub enum ExtractJob {
    /// Read the file, hand its bytes to `plan_extraction` and perform the
    /// actions.
    Plan(Unpack),
    /// Let the 7z codec unpack the whole archive with this password.
    SevenZ { password: String },
    /// Let the tar codec unpack the whole archive, through a decoder where
    /// there is a compression.
    Tar { compression: Option<Compression> },
    /// Walk the headers of the RAR archive with this password, each entry
    /// placed by `plan_entry`.
    WalkRar { password: String },
}

/// An `ExtractJob` with its password as a sequence of characters.
pub enum ExtractJobView {
    Plan(Unpack),
    SevenZ { password: Seq<char> },
    Tar { compression: Option<Compression> },
    WalkRar { password: Seq<char> },
}

impl View for ExtractJob {
    type V = ExtractJobView;

    open spec fn view(&self) -> ExtractJobView {
        match self {
            ExtractJob::Plan(unpack) => ExtractJobView::Plan(*unpack),
            ExtractJob::SevenZ { password } => ExtractJobView::SevenZ { password: password@ },
            ExtractJob::Tar { compression } => ExtractJobView::Tar { compression: *compression },
            ExtractJob::WalkRar { password } => ExtractJobView::WalkRar { password: password@ },
        }
    }
}

/// What extracting the archive at `path` takes. A path that names no existing
/// file is refused before anything else is looked at; an unknown format is
/// refused next.
pub open spec fn extraction_job(path: Seq<char>, password: Seq<char>, exists: bool) -> Result<
    ExtractJobView,
    ErrorView,
> {
    if !exists {
        Err(ErrorView::NotFound)
    } else {
        match classify(path) {
            ArchiveType::Zip => Ok(ExtractJobView::Plan(Unpack::Zip)),
            ArchiveType::SevenZ => Ok(ExtractJobView::SevenZ { password }),
            ArchiveType::Tar => Ok(ExtractJobView::Tar { compression: None }),
            ArchiveType::TarGz => Ok(ExtractJobView::Tar { compression: Some(Compression::Gz) }),
            ArchiveType::TarBz2 => Ok(
                ExtractJobView::Tar { compression: Some(Compression::Bz2) },
            ),
            ArchiveType::TarXz => Ok(ExtractJobView::Tar { compression: Some(Compression::Xz) }),
            ArchiveType::Gz => Ok(ExtractJobView::Plan(Unpack::Stream { codec: Compression::Gz })),
            ArchiveType::Bz2 => Ok(
                ExtractJobView::Plan(Unpack::Stream { codec: Compression::Bz2 }),
            ),
            ArchiveType::Xz => Ok(ExtractJobView::Plan(Unpack::Stream { codec: Compression::Xz })),
            ArchiveType::Rar => Ok(ExtractJobView::WalkRar { password }),
            ArchiveType::Unknown => Err(ErrorView::UnsupportedFormat),
        }
    }
}

/// The extraction of the archive at `archive`, whose bytes are `data`, to
/// `extract_to`. A single compressed file is one file written, or nothing.
pub open spec fn planned(
    unpack: Unpack,
    archive: Seq<char>,
    data: Seq<u8>,
    extract_to: Seq<char>,
) -> ExtractionView {
    match unpack {
        Unpack::Zip => zip_extraction(data, extract_to),
        Unpack::Stream { codec } => match decompression(codec, archive, data, extract_to) {
            Ok(action) => ExtractionView { actions: seq![action], outcome: Ok(()) },
            Err(e) => ExtractionView { actions: Seq::empty(), outcome: Err(e) },
        },
    }
}

/// The view of what `extract_archive` returns.
pub open spec fn extract_job_view(r: Result<ExtractJob, ArchiveError>) -> Result<
    ExtractJobView,
    ErrorView,
> {
    match r {
        Ok(job) => Ok(job@),
        Err(e) => Err(e@),
    }
}

/// The directory that an archive is extracted to when the caller names none:
/// beside the archive, named after it without its last extension.
pub open spec fn sibling_directory(archive: Seq<char>) -> Result<Seq<char>, ErrorView> {
    match parent(archive) {
        None => Err(ErrorView::NoParentDirectory),
        Some(dir) => match file_stem(archive) {
            None => Err(ErrorView::NoFileStem),
            Some(stem) => Ok(joined(dir, stem)),
        },
    }
}

/// The view of a path or of the failure in its place.
pub open spec fn path_result_view(r: Result<String, ArchiveError>) -> Result<
    Seq<char>,
    ErrorView,
> {
    match r {
        Ok(path) => Ok(path@),
        Err(e) => Err(e@),
    }
}

/// Where the entry `name` goes below `extract_to`.
pub fn plan_entry(extract_to: &str, name: &str, is_directory: bool) -> (step: EntryStep)
    ensures
        step@ == entry_step(extract_to@, name@, is_directory),
{
    let path = path_join(extract_to, name);
    if is_directory {
        EntryStep::Directory { path }
    } else {
        let parent = path_parent(path.as_str());
        EntryStep::File { parent, path }
    }
}

/// Plans the extraction of the zip archive in `data` to `extract_to`.
pub fn extract_zip(data: &[u8], extract_to: &str) -> (plan: Extraction)
    ensures
        plan@ == zip_extraction(data@, extract_to@),
{
    let mut actions: Vec<Action> = Vec::new();
    assert(action_views(actions@) == Seq::<ActionView>::empty());
    let mut archive = match zip_open(data) {
        Ok(archive) => archive,
        Err(message) => {
            return Extraction { actions, outcome: Err(ArchiveError::Codec { message }) };
        },
    };
    let ghost entries = zip_contents(archive);
    let n: usize = zip_len(&archive);
    let mut i: usize = 0;
    while i < n
        invariant
            zip_extraction(data@, extract_to@) == zip_plan(extract_to@, entries),
            entries == zip_contents(archive),
            n == entries.len(),
            i <= n,
            zip_plan(extract_to@, entries.take(i as int)) == (ExtractionView {
                actions: action_views(actions@),
                outcome: Ok(()),
            }),
        decreases n - i,
    {
        let ghost before = action_views(actions@);
        let ghost entry = entries[i as int];
        proof {
            assert(entries.take(i + 1).drop_last() == entries.take(i as int));
            assert(entries.take(i + 1).last() == entry);
        }
        let name = match zip_entry_name(&mut archive, i) {
            Ok(name) => name,
            Err(message) => {
                proof {
                    assert(before + Seq::<ActionView>::empty() == before);
                    lemma_plan_failure_stays(extract_to@, entries, i + 1);
                }
                return Extraction { actions, outcome: Err(ArchiveError::Codec { message }) };
            },
        };
        let is_directory = is_directory_name(name.as_str());
        match plan_entry(extract_to, name.as_str(), is_directory) {
            EntryStep::Directory { path } => {
                actions.push(Action::CreateDirAll { path });
                assert(action_views(actions@) == before + seq![
                    ActionView::CreateDirAll { path: path@ },
                ]);
            },
            EntryStep::File { parent, path } => {
                let ghost mut above = before;
                match parent {
                    Some(dir) => {
                        actions.push(Action::CreateDirAll { path: dir });
                        proof {
                            above = before + seq![ActionView::CreateDirAll { path: dir@ }];
                        }
                    },
                    None => {
                        proof {
                            assert(before + Seq::<ActionView>::empty() == before);
                        }
                    },
                }
                assert(action_views(actions@) == above);
                match zip_entry_data(&mut archive, i) {
                    Ok(data) => {
                        actions.push(Action::WriteFile { path, data });
                        assert(action_views(actions@) == above.push(
                            ActionView::WriteFile { path: path@, data: data@ },
                        ));
                        assert(action_views(actions@) == before + zip_entry_plan(
                            extract_to@,
                            entry,
                        ).actions);
                    },
                    Err(message) => {
                        proof {
                            assert(above == before + zip_entry_plan(extract_to@, entry).actions);
                            lemma_plan_failure_stays(extract_to@, entries, i + 1);
                        }
                        return Extraction {
                            actions,
                            outcome: Err(ArchiveError::Codec { message }),
                        };
                    },
                }
            },
        }
        i += 1;
    }
    assert(entries.take(n as int) == entries);
    Extraction { actions, outcome: Ok(()) }
}

/// Decodes the single compressed file at `archive`, whose bytes are `data`, and
/// says where below `extract_to` the result is written.
pub fn decompress(compression: Compression, archive: &str, data: &[u8], extract_to: &str) -> (r:
    Result<Action, ArchiveError>)
    ensures
        action_result_view(r) == decompression(compression, archive@, data@, extract_to@),
{
    let stem = match path_file_stem(archive) {
        None => {
            return Err(ArchiveError::InvalidFilename);
        },
        Some(stem) => stem,
    };
    match decode(compression, data) {
        Err(message) => Err(ArchiveError::Codec { message }),
        Ok(bytes) => Ok(
            Action::WriteFile { path: path_join(extract_to, stem.as_str()), data: bytes },
        ),
    }
}

/// Unpacks the gzip file at `archive`, whose bytes are `data`.
pub fn decompress_gz(archive: &str, data: &[u8], extract_to: &str) -> (r: Result<
    Action,
    ArchiveError,
>)
    ensures
        action_result_view(r) == decompression(Compression::Gz, archive@, data@, extract_to@),
{
    decompress(Compression::Gz, archive, data, extract_to)
}

/// Unpacks the bzip2 file at `archive`, whose bytes are `data`.
pub fn decompress_bz2(archive: &str, data: &[u8], extract_to: &str) -> (r: Result<
    Action,
    ArchiveError,
>)
    ensures
        action_result_view(r) == decompression(Compression::Bz2, archive@, data@, extract_to@),
{
    decompress(Compression::Bz2, archive, data, extract_to)
}

/// Unpacks the xz file at `archive`, whose bytes are `data`.
pub fn decompress_xz(archive: &str, data: &[u8], extract_to: &str) -> (r: Result<
    Action,
    ArchiveError,
>)
    ensures
        action_result_view(r) == decompression(Compression::Xz, archive@, data@, extract_to@),
{
    decompress(Compression::Xz, archive, data, extract_to)
}

/// Decides how the archive at `archive` is extracted. `exists` says whether
/// the path names an existing file.
pub fn extract_archive(archive: &str, password: Option<&str>, exists: bool) -> (r: Result<
    ExtractJob,
    ArchiveError,
>)
    ensures
        extract_job_view(r) == extraction_job(archive@, password_text(password), exists),
{
    if !exists {
        return Err(ArchiveError::NotFound);
    }
    match get_archive_type(archive) {
        ArchiveType::Zip => Ok(ExtractJob::Plan(Unpack::Zip)),
        ArchiveType::SevenZ => Ok(ExtractJob::SevenZ { password: password_or_empty(password) }),
        ArchiveType::Tar => Ok(ExtractJob::Tar { compression: None }),
        ArchiveType::TarGz => Ok(ExtractJob::Tar { compression: Some(Compression::Gz) }),
        ArchiveType::TarBz2 => Ok(ExtractJob::Tar { compression: Some(Compression::Bz2) }),
        ArchiveType::TarXz => Ok(ExtractJob::Tar { compression: Some(Compression::Xz) }),
        ArchiveType::Gz => Ok(ExtractJob::Plan(Unpack::Stream { codec: Compression::Gz })),
        ArchiveType::Bz2 => Ok(ExtractJob::Plan(Unpack::Stream { codec: Compression::Bz2 })),
        ArchiveType::Xz => Ok(ExtractJob::Plan(Unpack::Stream { codec: Compression::Xz })),
        ArchiveType::Rar => Ok(ExtractJob::WalkRar { password: password_or_empty(password) }),
        ArchiveType::Unknown => Err(ArchiveError::UnsupportedFormat),
    }
}

/// Plans the extraction of the archive at `archive`, whose bytes are `data`,
/// to `extract_to`.
pub fn plan_extraction(unpack: Unpack, archive: &str, data: &[u8], extract_to: &str) -> (plan:
    Extraction)
    ensures
        plan@ == planned(unpack, archive@, data@, extract_to@),
{
    match unpack {
        Unpack::Zip => extract_zip(data, extract_to),
        Unpack::Stream { codec } => {
            let mut actions: Vec<Action> = Vec::new();
            assert(action_views(actions@) == Seq::<ActionView>::empty());
            match decompress(codec, archive, data, extract_to) {
                Ok(action) => {
                    actions.push(action);
                    assert(action_views(actions@) == seq![action@]);
                    Extraction { actions, outcome: Ok(()) }
                },
                Err(e) => Extraction { actions, outcome: Err(e) },
            }
        },
    }
}

/// The directory that `archive` is extracted to when the caller names none.
pub fn default_destination(archive: &str) -> (r: Result<String, ArchiveError>)
    ensures
        path_result_view(r) == sibling_directory(archive@),
{
    let dir = match path_parent(archive) {
        None => {
            return Err(ArchiveError::NoParentDirectory);
        },
        Some(dir) => dir,
    };
    match path_file_stem(archive) {
        None => Err(ArchiveError::NoFileStem),
        Some(stem) => Ok(path_join(dir.as_str(), stem.as_str())),
    }
}

/// Once the extraction of a prefix has failed, the whole extraction is that of
/// the prefix.
pub proof fn lemma_plan_failure_stays(extract_to: Seq<char>, entries: Seq<ZipEntry>, upto: int)
    requires
        0 <= upto <= entries.len(),
        zip_plan(extract_to, entries.take(upto)).outcome is Err,
    ensures
        zip_plan(extract_to, entries) == zip_plan(extract_to, entries.take(upto)),
    decreases entries.len() - upto,
{
    if upto < entries.len() {
        assert(entries.take(upto + 1).drop_last() == entries.take(upto));
        lemma_plan_failure_stays(extract_to, entries, upto + 1);
    } else {
        assert(entries.take(upto) == entries);
    }
}

} // verus!

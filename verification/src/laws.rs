//! What holds of the library as a whole, stated over the same functions that
//! the contracts use.

use crate::codec::{zip_entries, ZipEntry};
use crate::error::ErrorView;
use crate::extract::{
    decompression, extraction_job, lemma_plan_failure_stays, planned, zip_entry_plan,
    zip_extraction, zip_plan, ActionView, ExtractJobView,
};
use crate::kind::{classify, Compression};
use crate::listing::{
    collected, lemma_failure_stays, listing_job, scan_listing, zip_listing, zip_names,
    ListJobView,
};
use crate::paths::{
    extension, file_name, file_stem, head_len, is_absolute, is_parent_segment, is_separator,
    is_skipped, joined, last_dot, names_directory, segment_start, trimmed_len,
};
use crate::retry::{contains_word, mentions_password, occurs_at, step_after, Attempt, NextStep};
use vstd::prelude::*;

verus! {

// ---------------------------------------------------------------------------
// Paths
// ---------------------------------------------------------------------------

/// A name that stands for a file: not empty, without a separator, and neither
/// `.` nor `..`.
pub open spec fn is_plain_name(name: Seq<char>) -> bool {
    &&& name.len() > 0
    &&& forall|i: int| 0 <= i < name.len() ==> !is_separator(#[trigger] name[i])
    &&& !is_skipped(name)
    &&& !is_parent_segment(name)
}

/// A segment lies in the body, holds no separator, and starts at the start of
/// the body or behind a separator.
proof fn lemma_segment(p: Seq<char>, end: int)
    requires
        head_len(p) <= end <= p.len(),
    ensures
        head_len(p) <= segment_start(p, end) <= end,
        forall|i: int| segment_start(p, end) <= i < end ==> !is_separator(#[trigger] p[i]),
        segment_start(p, end) == head_len(p) || is_separator(p[segment_start(p, end) - 1]),
    decreases end,
{
    if end > head_len(p) && !is_separator(p[end - 1]) {
        lemma_segment(p, end - 1);
    }
}

/// What is left after trimming is the head alone, or ends in a segment that
/// names something.
proof fn lemma_trimmed(p: Seq<char>, end: int)
    requires
        head_len(p) <= end <= p.len(),
    ensures
        head_len(p) <= trimmed_len(p, end) <= end,
        trimmed_len(p, end) > head_len(p) ==> !is_skipped(
            p.subrange(segment_start(p, trimmed_len(p, end)), trimmed_len(p, end)),
        ),
    decreases end,
{
    let head = head_len(p);
    if end > head {
        lemma_segment(p, end);
        let start = segment_start(p, end);
        if is_skipped(p.subrange(start, end)) && start > head {
            lemma_trimmed(p, start - 1);
        }
    }
}

/// A file name is a plain name: it is not empty, holds no separator, and is
/// neither `.` nor `..`.
pub proof fn law_file_name_is_plain(p: Seq<char>)
    requires
        file_name(p) is Some,
    ensures
        is_plain_name(file_name(p)->0),
{
    let end = trimmed_len(p, p.len() as int);
    lemma_trimmed(p, p.len() as int);
    lemma_segment(p, end);
    let start = segment_start(p, end);
    let name = p.subrange(start, end);
    assert forall|i: int| 0 <= i < name.len() implies !is_separator(#[trigger] name[i]) by {
        assert(name[i] == p[start + i]);
    }
}

/// Where the last `.` of a name is: nothing behind it is a `.`, and -1 says
/// that the name holds none.
proof fn lemma_last_dot(name: Seq<char>)
    ensures
        -1 <= last_dot(name) < name.len(),
        last_dot(name) >= 0 ==> name[last_dot(name)] == '.',
        forall|i: int| last_dot(name) < i < name.len() ==> (#[trigger] name[i]) != '.',
    decreases name.len(),
{
    if name.len() > 0 && name.last() != '.' {
        let shorter = name.drop_last();
        lemma_last_dot(shorter);
        assert forall|i: int| last_dot(name) < i < name.len() implies (#[trigger] name[i])
            != '.' by {
            if i < shorter.len() {
                assert(shorter[i] == name[i]);
            }
        }
    }
}

/// A file name with an extension is its stem, a `.` and the extension, and the
/// extension holds no `.`; the stem is not empty. A file name without an
/// extension is its own stem.
pub proof fn law_stem_and_extension_make_the_name(p: Seq<char>)
    requires
        file_name(p) is Some,
    ensures
        file_stem(p) is Some,
        extension(p) is None ==> file_stem(p) == file_name(p),
        extension(p) is Some ==> file_name(p)->0 == file_stem(p)->0 + seq!['.'] + extension(p)->0,
        extension(p) is Some ==> file_stem(p)->0.len() > 0,
        extension(p) is Some ==> forall|i: int|
            0 <= i < extension(p)->0.len() ==> (#[trigger] extension(p)->0[i]) != '.',
{
    let name = file_name(p)->0;
    lemma_last_dot(name);
    let dot = last_dot(name);
    if dot > 0 {
        let stem = name.subrange(0, dot);
        let ext = name.subrange(dot + 1, name.len() as int);
        assert(name =~= stem + seq!['.'] + ext);
        assert forall|i: int| 0 <= i < ext.len() implies (#[trigger] ext[i]) != '.' by {
            assert(ext[i] == name[dot + 1 + i]);
        }
    }
}

/// A stretch of the body without a separator, which starts at the start of the
/// body or behind a separator, is one segment.
proof fn lemma_segment_start(p: Seq<char>, start: int, end: int)
    requires
        head_len(p) <= start <= end <= p.len(),
        forall|i: int| start <= i < end ==> !is_separator(#[trigger] p[i]),
        start == head_len(p) || is_separator(p[start - 1]),
    ensures
        segment_start(p, end) == start,
    decreases end - start,
{
    if end > start {
        lemma_segment_start(p, start, end - 1);
    }
}

/// The file name of a plain name below any directory is the plain name.
pub proof fn law_file_name_of_joined(dir: Seq<char>, name: Seq<char>)
    requires
        is_plain_name(name),
    ensures
        file_name(joined(dir, name)) == Some(name),
{
    let p = joined(dir, name);
    let end = p.len() as int;
    let start = end - name.len();
    assert(!is_absolute(name));
    assert(p.subrange(start, end) =~= name);
    assert forall|i: int| start <= i < end implies !is_separator(#[trigger] p[i]) by {
        assert(p[i] == name[i - start]);
    }
    if dir.len() == 0 {
        assert(p =~= name);
        assert(head_len(p) == 0) by {
            assert(!is_separator(name[0]));
            if name[0] == '.' && name.len() > 1 {
                assert(!is_separator(name[1]));
            }
        }
    } else {
        assert(is_separator(p[start - 1]));
        assert(head_len(p) <= 1);
        if start == 1 && head_len(p) == 0 {
            assert(p[0] == '/');
        }
    }
    lemma_segment_start(p, start, end);
}

// ---------------------------------------------------------------------------
// Classification
// ---------------------------------------------------------------------------

/// The format of a path is a function of its text: two paths that read the
/// same name the same format.
pub proof fn law_classification_is_a_function(first: Seq<char>, second: Seq<char>)
    requires
        first =~= second,
    ensures
        classify(first) == classify(second),
{
}

/// Only the file name of an archive counts for its format: a plain name is
/// classified alike wherever it lies.
pub proof fn law_classification_ignores_directory(dir: Seq<char>, name: Seq<char>)
    requires
        is_plain_name(name),
    ensures
        classify(joined(dir, name)) == classify(name),
{
    law_file_name_of_joined(dir, name);
    law_file_name_of_joined(Seq::empty(), name);
    assert(joined(Seq::empty(), name) =~= name);
}

// ---------------------------------------------------------------------------
// Listing
// ---------------------------------------------------------------------------

/// A scan in which every step gives a name is listed whole: as many names as
/// steps, each as the scan gave it, in the scan's order.
proof fn lemma_collected_whole(steps: Seq<Result<Seq<char>, Seq<char>>>)
    requires
        forall|i: int| 0 <= i < steps.len() ==> (#[trigger] steps[i]) is Ok,
    ensures
        collected(steps) is Ok,
        collected(steps)->Ok_0.len() == steps.len(),
        forall|i: int|
            0 <= i < steps.len() ==> (#[trigger] steps[i]) == Ok::<Seq<char>, Seq<char>>(
                collected(steps)->Ok_0[i],
            ),
    decreases steps.len(),
{
    if steps.len() > 0 {
        let shorter = steps.drop_last();
        assert forall|i: int| 0 <= i < shorter.len() implies (#[trigger] shorter[i]) is Ok by {
            assert(shorter[i] == steps[i]);
        }
        lemma_collected_whole(shorter);
        assert forall|i: int| 0 <= i < steps.len() implies (#[trigger] steps[i]) == Ok::<
            Seq<char>,
            Seq<char>,
        >(collected(steps)->Ok_0[i]) by {
            if i < shorter.len() {
                assert(shorter[i] == steps[i]);
            }
        }
    }
}

proof fn lemma_collected_means_whole(steps: Seq<Result<Seq<char>, Seq<char>>>)
    requires
        collected(steps) is Ok,
    ensures
        forall|i: int| 0 <= i < steps.len() ==> (#[trigger] steps[i]) is Ok,
    decreases steps.len(),
{
    if steps.len() > 0 {
        let shorter = steps.drop_last();
        lemma_collected_means_whole(shorter);
        assert forall|i: int| 0 <= i < steps.len() implies (#[trigger] steps[i]) is Ok by {
            if i < shorter.len() {
                assert(shorter[i] == steps[i]);
            }
        }
    }
}

/// A listing succeeds exactly when every step of the scan gives a name. It
/// then has as many names as the scan has steps, each as the scan gave it, in
/// the scan's order: nothing is sorted and nothing is left out.
pub proof fn law_listing_is_whole(steps: Seq<Result<Seq<char>, Seq<char>>>)
    ensures
        collected(steps) is Ok <==> forall|i: int|
            0 <= i < steps.len() ==> (#[trigger] steps[i]) is Ok,
        collected(steps) is Ok ==> collected(steps)->Ok_0.len() == steps.len(),
        collected(steps) is Ok ==> forall|i: int|
            0 <= i < steps.len() ==> (#[trigger] steps[i]) == Ok::<Seq<char>, Seq<char>>(
                collected(steps)->Ok_0[i],
            ),
{
    if collected(steps) is Ok {
        lemma_collected_means_whole(steps);
    }
    if forall|i: int| 0 <= i < steps.len() ==> (#[trigger] steps[i]) is Ok {
        lemma_collected_whole(steps);
    }
}

/// Whether step `k` is the first of `steps` that fails.
pub open spec fn is_first_failure(steps: Seq<Result<Seq<char>, Seq<char>>>, k: int) -> bool {
    &&& 0 <= k < steps.len()
    &&& steps[k] is Err
    &&& forall|j: int| 0 <= j < k ==> (#[trigger] steps[j]) is Ok
}

/// A listing in which some step fails is the failure of the first such step,
/// handed on as a codec failure with the codec's text.
pub proof fn law_listing_fails_with_first_failure(
    steps: Seq<Result<Seq<char>, Seq<char>>>,
    k: int,
)
    requires
        is_first_failure(steps, k),
    ensures
        collected(steps) == Err::<Seq<Seq<char>>, ErrorView>(
            ErrorView::Codec { message: steps[k]->Err_0 },
        ),
{
    let before = steps.take(k);
    assert forall|i: int| 0 <= i < before.len() implies (#[trigger] before[i]) is Ok by {
        assert(before[i] == steps[i]);
    }
    lemma_collected_whole(before);
    assert(steps.take(k + 1).drop_last() == before);
    assert(steps.take(k + 1).last() == steps[k]);
    lemma_failure_stays(steps, k + 1);
}

/// Listing a zip archive that opens and whose entries all have a readable name
/// returns exactly as many names as the archive has entries, each name as the
/// archive stores it, in the archive's order.
pub proof fn law_zip_listing_keeps_every_name(data: Seq<u8>, entries: Seq<ZipEntry>)
    requires
        zip_entries(data) == Ok::<Seq<ZipEntry>, Seq<char>>(entries),
        forall|i: int| 0 <= i < entries.len() ==> (#[trigger] entries[i]).0 is Ok,
    ensures
        zip_listing(data) is Ok,
        zip_listing(data)->Ok_0.len() == entries.len(),
        forall|i: int|
            0 <= i < entries.len() ==> (#[trigger] entries[i]).0 == Ok::<Seq<char>, Seq<char>>(
                zip_listing(data)->Ok_0[i],
            ),
{
    let steps = zip_names(entries);
    assert forall|i: int| 0 <= i < steps.len() implies (#[trigger] steps[i]) is Ok by {
        assert(steps[i] == entries[i].0);
    }
    lemma_collected_whole(steps);
    assert forall|i: int| 0 <= i < entries.len() implies (#[trigger] entries[i]).0 == Ok::<
        Seq<char>,
        Seq<char>,
    >(zip_listing(data)->Ok_0[i]) by {
        assert(steps[i] == entries[i].0);
    }
}

/// Listing is refused, as unsupported, for every existing archive whose format
/// is a single compressed file or unknown, and for no other.
pub proof fn law_listing_is_for_containers(path: Seq<char>, password: Seq<char>)
    ensures
        !classify(path).is_container() <==> listing_job(path, password, true) == Err::<
            ListJobView,
            ErrorView,
        >(ErrorView::UnsupportedListing),
        classify(path).is_container() <==> listing_job(path, password, true) is Ok,
        !classify(path).is_container() <==> (classify(path) is Gz || classify(path) is Bz2
            || classify(path) is Xz || classify(path) is Unknown),
{
}

// ---------------------------------------------------------------------------
// Extraction
// ---------------------------------------------------------------------------

/// An archive that does not exist is refused as such, whatever its name and
/// password, and nothing is asked of the caller: no job comes back. The
/// message says that the file does not exist.
pub proof fn law_missing_archive_is_refused_first(path: Seq<char>, password: Seq<char>)
    ensures
        extraction_job(path, password, false) == Err::<
            ExtractJobView,
            ErrorView,
        >(ErrorView::NotFound),
        listing_job(path, password, false) == Err::<ListJobView, ErrorView>(
            ErrorView::NotFound,
        ),
        contains_word(ErrorView::NotFound.text(), "does not exist"@),
{
    reveal_strlit("Archive file does not exist");
    reveal_strlit("does not exist");
    let text = "Archive file does not exist"@;
    let word = "does not exist"@;
    assert(text.subrange(13, 13 + word.len() as int) =~= word);
    assert(occurs_at(ErrorView::NotFound.text(), word, 13));
}

/// A single compressed file unpacks to the same place whatever directory the
/// archive lies in: only its name and the destination count.
pub proof fn law_decompression_ignores_directory(
    compression: Compression,
    dir: Seq<char>,
    name: Seq<char>,
    data: Seq<u8>,
    extract_to: Seq<char>,
)
    requires
        is_plain_name(name),
    ensures
        decompression(compression, joined(dir, name), data, extract_to) == decompression(
            compression,
            name,
            data,
            extract_to,
        ),
        file_stem(joined(dir, name)) == file_stem(name),
{
    law_file_name_of_joined(dir, name);
    law_file_name_of_joined(Seq::empty(), name);
    assert(joined(Seq::empty(), name) =~= name);
}

/// Nothing is undone: when the entry at `k` is the first whose extraction
/// fails, the plan holds all that the entries before it ask for, then what the
/// failing entry asked for before it failed, and ends in that entry's failure.
pub proof fn law_failed_extraction_keeps_earlier_entries(
    extract_to: Seq<char>,
    entries: Seq<ZipEntry>,
    k: int,
)
    requires
        0 <= k < entries.len(),
        zip_plan(extract_to, entries.take(k)).outcome is Ok,
        zip_entry_plan(extract_to, entries[k]).outcome is Err,
    ensures
        zip_plan(extract_to, entries).outcome == zip_entry_plan(extract_to, entries[k]).outcome,
        zip_plan(extract_to, entries).actions == zip_plan(extract_to, entries.take(k)).actions
            + zip_entry_plan(extract_to, entries[k]).actions,
{
    assert(entries.take(k + 1).drop_last() == entries.take(k));
    assert(entries.take(k + 1).last() == entries[k]);
    lemma_plan_failure_stays(extract_to, entries, k + 1);
}

/// The paths of the files that a sequence of actions writes, in order.
pub open spec fn written_paths(actions: Seq<ActionView>) -> Seq<Seq<char>>
    decreases actions.len(),
{
    if actions.len() == 0 {
        Seq::empty()
    } else {
        let before = written_paths(actions.drop_last());
        match actions.last() {
            ActionView::WriteFile { path, data } => before.push(path),
            ActionView::CreateDirAll { path } => before,
        }
    }
}

/// Where the files among `names` lie below `extract_to`, in order. The names
/// of directories are left out.
pub open spec fn file_targets(extract_to: Seq<char>, names: Seq<Seq<char>>) -> Seq<Seq<char>>
    decreases names.len(),
{
    if names.len() == 0 {
        Seq::empty()
    } else {
        let before = file_targets(extract_to, names.drop_last());
        if names_directory(names.last()) {
            before
        } else {
            before.push(joined(extract_to, names.last()))
        }
    }
}

proof fn lemma_written_paths_add(first: Seq<ActionView>, second: Seq<ActionView>)
    ensures
        written_paths(first + second) == written_paths(first) + written_paths(second),
    decreases second.len(),
{
    if second.len() == 0 {
        assert(first + second =~= first);
        assert(written_paths(first) + written_paths(second) =~= written_paths(first));
    } else {
        assert((first + second).drop_last() =~= first + second.drop_last());
        assert((first + second).last() == second.last());
        lemma_written_paths_add(first, second.drop_last());
        let a = written_paths(first);
        let b = written_paths(second.drop_last());
        match second.last() {
            ActionView::WriteFile { path, data } => {
                assert((a + b).push(path) =~= a + b.push(path));
            },
            ActionView::CreateDirAll { path } => {},
        }
    }
}

/// What one zip entry writes: nothing for a directory, one file at its place
/// below the destination otherwise.
proof fn lemma_entry_writes(extract_to: Seq<char>, entry: ZipEntry)
    requires
        zip_entry_plan(extract_to, entry).outcome is Ok,
    ensures
        entry.0 is Ok,
        written_paths(zip_entry_plan(extract_to, entry).actions) == file_targets(
            extract_to,
            seq![entry.0->Ok_0],
        ),
{
    reveal_with_fuel(written_paths, 3);
    reveal_with_fuel(file_targets, 2);
    let name = entry.0->Ok_0;
    let names = seq![name];
    let actions = zip_entry_plan(extract_to, entry).actions;
    assert(names.drop_last() =~= Seq::<Seq<char>>::empty());
    assert(names.last() == name);
    if names_directory(name) {
        assert(actions.drop_last() =~= Seq::<ActionView>::empty());
        assert(written_paths(actions) =~= Seq::<Seq<char>>::empty());
    } else {
        let path = joined(extract_to, name);
        assert(actions.last() == ActionView::WriteFile { path, data: entry.1->Ok_0 });
        let rest = actions.drop_last();
        if rest.len() > 0 {
            assert(rest.drop_last() =~= Seq::<ActionView>::empty());
            assert(rest.last() is CreateDirAll);
        }
        assert(written_paths(rest) =~= Seq::<Seq<char>>::empty());
        assert(written_paths(actions) =~= seq![path]);
        assert(file_targets(extract_to, names) =~= seq![path]);
    }
}

proof fn lemma_file_targets_push(extract_to: Seq<char>, names: Seq<Seq<char>>, name: Seq<char>)
    ensures
        file_targets(extract_to, names.push(name)) == file_targets(extract_to, names)
            + file_targets(extract_to, seq![name]),
{
    reveal_with_fuel(file_targets, 2);
    let one = seq![name];
    assert(names.push(name).drop_last() =~= names);
    assert(one.drop_last() =~= Seq::<Seq<char>>::empty());
    let before = file_targets(extract_to, names);
    if names_directory(name) {
        assert(file_targets(extract_to, one) =~= Seq::<Seq<char>>::empty());
        assert(before + file_targets(extract_to, one) =~= before);
    } else {
        assert(file_targets(extract_to, one) =~= seq![joined(extract_to, name)]);
        assert(before + file_targets(extract_to, one) =~= before.push(joined(extract_to, name)));
    }
}

/// Round trip over the entries of a zip archive: when the extraction goes
/// through, the listing goes through too, and the files that the extraction
/// writes are the listed names, directories aside, each below the destination,
/// in the listing's order.
pub proof fn lemma_zip_plan_writes_the_listing(extract_to: Seq<char>, entries: Seq<ZipEntry>)
    requires
        zip_plan(extract_to, entries).outcome is Ok,
    ensures
        collected(zip_names(entries)) is Ok,
        written_paths(zip_plan(extract_to, entries).actions) == file_targets(
            extract_to,
            collected(zip_names(entries))->Ok_0,
        ),
    decreases entries.len(),
{
    let steps = zip_names(entries);
    if entries.len() == 0 {
        assert(written_paths(zip_plan(extract_to, entries).actions) =~= Seq::<
            Seq<char>,
        >::empty());
    } else {
        let shorter = entries.drop_last();
        let before = zip_plan(extract_to, shorter);
        let last = zip_entry_plan(extract_to, entries.last());
        assert(steps.drop_last() =~= zip_names(shorter));
        assert(steps.last() == entries.last().0);
        lemma_zip_plan_writes_the_listing(extract_to, shorter);
        lemma_entry_writes(extract_to, entries.last());
        lemma_written_paths_add(before.actions, last.actions);
        let names = collected(zip_names(shorter))->Ok_0;
        lemma_file_targets_push(extract_to, names, entries.last().0->Ok_0);
    }
}

/// Round trip for zip: whenever the extraction of an archive goes through, its
/// listing goes through too, and the files that the extraction writes are
/// exactly the listed names that are no directories, each joined to the
/// destination, in the order of the listing.
pub proof fn law_zip_extraction_writes_the_listing(data: Seq<u8>, extract_to: Seq<char>)
    requires
        zip_extraction(data, extract_to).outcome is Ok,
    ensures
        zip_listing(data) is Ok,
        written_paths(zip_extraction(data, extract_to).actions) == file_targets(
            extract_to,
            zip_listing(data)->Ok_0,
        ),
{
    lemma_zip_plan_writes_the_listing(extract_to, zip_entries(data)->Ok_0);
}

/// The names among `names` that are no directories, in order.
pub open spec fn file_names(names: Seq<Seq<char>>) -> Seq<Seq<char>>
    decreases names.len(),
{
    if names.len() == 0 {
        Seq::empty()
    } else {
        let before = file_names(names.drop_last());
        if names_directory(names.last()) {
            before
        } else {
            before.push(names.last())
        }
    }
}

/// What `path` is called from `base`: what was joined to `base` to give
/// `path`, where `path` is `base` with a name that is not absolute below it.
pub open spec fn relative_to(base: Seq<char>, path: Seq<char>) -> Option<Seq<char>> {
    let prefix = if base.len() > 0 && !is_separator(base.last()) {
        base + seq!['/']
    } else {
        base
    };
    if prefix.len() <= path.len() && path.subrange(0, prefix.len() as int) == prefix
        && !is_absolute(path.skip(prefix.len() as int)) {
        Some(path.skip(prefix.len() as int))
    } else {
        None
    }
}

/// Joining a name that is not absolute to a base can be undone: from the base,
/// the joined path is called by that name.
pub proof fn law_joined_is_undone(base: Seq<char>, name: Seq<char>)
    requires
        !is_absolute(name),
    ensures
        relative_to(base, joined(base, name)) == Some(name),
{
    let prefix = if base.len() > 0 && !is_separator(base.last()) {
        base + seq!['/']
    } else {
        base
    };
    let path = joined(base, name);
    assert(path =~= prefix + name);
    assert(path.subrange(0, prefix.len() as int) =~= prefix);
    assert(path.skip(prefix.len() as int) =~= name);
}

proof fn lemma_targets_of_file_names(extract_to: Seq<char>, names: Seq<Seq<char>>)
    requires
        forall|j: int| 0 <= j < names.len() ==> !is_absolute(#[trigger] names[j]),
    ensures
        file_targets(extract_to, names).len() == file_names(names).len(),
        forall|i: int|
            0 <= i < file_names(names).len() ==> !is_absolute(#[trigger] file_names(names)[i])
                && file_targets(extract_to, names)[i] == joined(
                extract_to,
                file_names(names)[i],
            ),
    decreases names.len(),
{
    if names.len() > 0 {
        let shorter = names.drop_last();
        assert forall|j: int| 0 <= j < shorter.len() implies !is_absolute(
            #[trigger] shorter[j],
        ) by {
            assert(shorter[j] == names[j]);
        }
        lemma_targets_of_file_names(extract_to, shorter);
        assert(!is_absolute(names[names.len() - 1]));
    }
}

/// Round trip for zip, in relative paths: when no listed name is absolute and
/// the extraction goes through, the files that it writes, each called from the
/// destination, are exactly the listed names that are no directories, in the
/// order of the listing.
pub proof fn law_written_files_are_the_listed_names(data: Seq<u8>, extract_to: Seq<char>)
    requires
        zip_extraction(data, extract_to).outcome is Ok,
        forall|j: int|
            0 <= j < zip_listing(data)->Ok_0.len() ==> !is_absolute(
                #[trigger] zip_listing(data)->Ok_0[j],
            ),
    ensures
        zip_listing(data) is Ok,
        written_paths(zip_extraction(data, extract_to).actions).len() == file_names(
            zip_listing(data)->Ok_0,
        ).len(),
        forall|i: int|
            0 <= i < file_names(zip_listing(data)->Ok_0).len() ==> relative_to(
                extract_to,
                written_paths(zip_extraction(data, extract_to).actions)[i],
            ) == Some(#[trigger] file_names(zip_listing(data)->Ok_0)[i]),
{
    let names = zip_listing(data)->Ok_0;
    law_zip_extraction_writes_the_listing(data, extract_to);
    lemma_targets_of_file_names(extract_to, names);
    assert forall|i: int| 0 <= i < file_names(names).len() implies relative_to(
        extract_to,
        written_paths(zip_extraction(data, extract_to).actions)[i],
    ) == Some(#[trigger] file_names(names)[i]) by {
        law_joined_is_undone(extract_to, file_names(names)[i]);
    }
}

/// Round trip: for every archive that is both listed and extracted from its
/// bytes, an extraction that goes through writes exactly the files that the
/// listing names, directories aside, each joined to the destination, in the
/// order of the listing.
pub proof fn law_extraction_writes_the_listing(
    path: Seq<char>,
    password: Seq<char>,
    data: Seq<u8>,
    extract_to: Seq<char>,
)
    requires
        listing_job(path, password, true) is Ok,
        listing_job(path, password, true)->Ok_0 is Scan,
        extraction_job(path, password, true) is Ok,
        extraction_job(path, password, true)->Ok_0 is Plan,
        planned(extraction_job(path, password, true)->Ok_0->Plan_0, path, data, extract_to).outcome
            is Ok,
    ensures
        scan_listing(listing_job(path, password, true)->Ok_0->Scan_0, data) is Ok,
        written_paths(
            planned(
                extraction_job(path, password, true)->Ok_0->Plan_0,
                path,
                data,
                extract_to,
            ).actions,
        ) == file_targets(
            extract_to,
            scan_listing(listing_job(path, password, true)->Ok_0->Scan_0, data)->Ok_0,
        ),
{
    law_zip_extraction_writes_the_listing(data, extract_to);
}

// ---------------------------------------------------------------------------
// Retry
// ---------------------------------------------------------------------------

/// A password is asked for at most once: whatever the second attempt ends in,
/// its outcome stands. After the first attempt it is asked for exactly when
/// the attempt failed with a message that speaks of a password.
pub proof fn law_one_retry_at_most(outcome: Result<(), ErrorView>)
    ensures
        step_after(Attempt::Second, outcome) == NextStep::Finish,
        step_after(Attempt::First, outcome) == NextStep::AskPassword <==> (outcome is Err
            && mentions_password(outcome->Err_0.text())),
{
}

} // verus!

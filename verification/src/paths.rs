//! Paths as text.
//!
//! A path is a sequence of characters in which `/` separates the segments. Empty
//! segments and `.` segments do not count, except for a `.` that opens the path;
//! a leading `/` is the root. Everything here is computed from the text alone:
//! nothing looks at a file system.

use vstd::prelude::*;
use vstd::std_specs::iter::IteratorSpec;

verus! {

/// The separator between the segments of a path.
pub open spec fn is_separator(c: char) -> bool {
    c == '/'
}

/// How many characters stand before the body of `p`: one for the root
/// separator, one for a `.` that opens the path as a segment of its own.
pub open spec fn head_len(p: Seq<char>) -> int {
    if p.len() >= 1 && (is_separator(p[0]) || (p[0] == '.' && (p.len() == 1 || is_separator(
        p[1],
    )))) {
        1
    } else {
        0
    }
}

/// Where the segment that ends at `end` starts: behind the last separator of
/// the body before `end`, or at the start of the body.
pub open spec fn segment_start(p: Seq<char>, end: int) -> int
    recommends
        head_len(p) <= end <= p.len(),
    decreases end,
{
    if end <= head_len(p) {
        end
    } else if is_separator(p[end - 1]) {
        end
    } else {
        segment_start(p, end - 1)
    }
}

/// A segment that names nothing: the empty one and `.`.
pub open spec fn is_skipped(segment: Seq<char>) -> bool {
    segment.len() == 0 || (segment.len() == 1 && segment[0] == '.')
}

/// The segment `..`, which names the directory above.
pub open spec fn is_parent_segment(segment: Seq<char>) -> bool {
    segment.len() == 2 && segment[0] == '.' && segment[1] == '.'
}

/// Where `p[..end]` ends once the segments that name nothing are taken off its
/// end, each with the separator before it.
pub open spec fn trimmed_len(p: Seq<char>, end: int) -> int
    recommends
        head_len(p) <= end <= p.len(),
    decreases end,
{
    let head = head_len(p);
    if end <= head {
        end
    } else {
        let start = segment_start(p, end);
        if head <= start <= end && is_skipped(p.subrange(start, end)) {
            if start > head {
                trimmed_len(p, start - 1)
            } else {
                start
            }
        } else {
            end
        }
    }
}

/// The last segment of `p` that names something, unless it is `..`.
pub open spec fn file_name(p: Seq<char>) -> Option<Seq<char>> {
    let end = trimmed_len(p, p.len() as int);
    if end <= head_len(p) {
        None
    } else {
        let segment = p.subrange(segment_start(p, end), end);
        if is_parent_segment(segment) {
            None
        } else {
            Some(segment)
        }
    }
}

/// The path without its last segment: `None` for the empty path and for the
/// root, the empty path where one segment is all there is.
pub open spec fn parent(p: Seq<char>) -> Option<Seq<char>> {
    let head = head_len(p);
    let end = trimmed_len(p, p.len() as int);
    if end > head {
        let start = segment_start(p, end);
        let cut = if start > head {
            start - 1
        } else {
            start
        };
        Some(p.subrange(0, trimmed_len(p, cut)))
    } else if head == 1 && p[0] == '.' {
        Some(Seq::empty())
    } else {
        None
    }
}

/// The index of the last `.` in `name`, or -1.
pub open spec fn last_dot(name: Seq<char>) -> int
    decreases name.len(),
{
    if name.len() == 0 {
        -1
    } else if name.last() == '.' {
        name.len() - 1
    } else {
        last_dot(name.drop_last())
    }
}

/// What follows the last `.` of the file name. A name without a `.`, or whose
/// only `.` is its first character, has no extension.
pub open spec fn extension(p: Seq<char>) -> Option<Seq<char>> {
    match file_name(p) {
        None => None,
        Some(name) => {
            let dot = last_dot(name);
            if dot <= 0 {
                None
            } else {
                Some(name.subrange(dot + 1, name.len() as int))
            }
        },
    }
}

/// The file name without its extension and the `.` before it.
pub open spec fn file_stem(p: Seq<char>) -> Option<Seq<char>> {
    match file_name(p) {
        None => None,
        Some(name) => {
            let dot = last_dot(name);
            if dot <= 0 {
                Some(name)
            } else {
                Some(name.subrange(0, dot))
            }
        },
    }
}

/// Whether `p` starts at the root.
pub open spec fn is_absolute(p: Seq<char>) -> bool {
    p.len() > 0 && is_separator(p[0])
}

/// `name` below `base`: an absolute `name` stands for itself; otherwise the two
/// are put together, with a separator between them where `base` does not end in one.
pub open spec fn joined(base: Seq<char>, name: Seq<char>) -> Seq<char> {
    if is_absolute(name) {
        name
    } else if base.len() > 0 && !is_separator(base.last()) {
        base + seq!['/'] + name
    } else {
        base + name
    }
}

/// Whether `name` is written as a directory: with a separator at its end.
pub open spec fn names_directory(name: Seq<char>) -> bool {
    name.len() > 0 && is_separator(name.last())
}

/// The view of an optional string.
pub open spec fn text_of(s: Option<String>) -> Option<Seq<char>> {
    match s {
        None => None,
        Some(s) => Some(s@),
    }
}

/// The characters of `s`, in order.
pub(crate) fn chars_of(s: &str) -> (v: Vec<char>)
    ensures
        v@ == s@,
{
    broadcast use vstd::string::group_string_axioms;

    let mut v: Vec<char> = Vec::new();
    let mut rest = s.chars();
    loop
        invariant
            v@ + rest.remaining() == s@,
        ensures
            v@ == s@,
        decreases s@.len() - v.len(),
    {
        let ghost before = rest.remaining();
        match rest.next() {
            Some(c) => {
                v.push(c);
                assert(before == seq![c] + rest.remaining());
            },
            None => {
                break ;
            },
        }
    }
    v
}

fn head_of(v: &Vec<char>) -> (head: usize)
    ensures
        head == head_len(v@),
        head <= v.len(),
{
    if v.len() >= 1 && (v[0] == '/' || (v[0] == '.' && (v.len() == 1 || v[1] == '/'))) {
        1
    } else {
        0
    }
}

fn start_of_segment(v: &Vec<char>, end: usize) -> (start: usize)
    requires
        head_len(v@) <= end <= v.len(),
    ensures
        start == segment_start(v@, end as int),
        head_len(v@) <= start <= end,
{
    let head: usize = head_of(v);
    let mut i: usize = end;
    while i > head && v[i - 1] != '/'
        invariant
            head == head_len(v@),
            head <= i <= end <= v.len(),
            segment_start(v@, end as int) == segment_start(v@, i as int),
        decreases i,
    {
        i -= 1;
    }
    i
}

fn trim_end(v: &Vec<char>, end: usize) -> (trimmed: usize)
    requires
        head_len(v@) <= end <= v.len(),
    ensures
        trimmed == trimmed_len(v@, end as int),
        head_len(v@) <= trimmed <= end,
{
    let head: usize = head_of(v);
    let mut e: usize = end;
    loop
        invariant
            head == head_len(v@),
            head <= e <= end <= v.len(),
            trimmed_len(v@, end as int) == trimmed_len(v@, e as int),
        ensures
            e == trimmed_len(v@, end as int),
        decreases e,
    {
        if e <= head {
            break ;
        }
        let start: usize = start_of_segment(v, e);
        let skipped = start == e || (e - start == 1 && v[start] == '.');
        assert(skipped == is_skipped(v@.subrange(start as int, e as int)));
        if !skipped {
            break ;
        }
        if start > head {
            e = start - 1;
        } else {
            e = start;
            break ;
        }
    }
    e
}

/// The range of `v` that holds the file name, if there is one.
fn file_name_range(v: &Vec<char>) -> (r: Option<(usize, usize)>)
    ensures
        r is Some <==> file_name(v@) is Some,
        r matches Some((start, end)) ==> start <= end <= v.len() && file_name(v@) == Some(
            v@.subrange(start as int, end as int),
        ),
{
    let head: usize = head_of(v);
    let end: usize = trim_end(v, v.len());
    if end <= head {
        return None;
    }
    let start: usize = start_of_segment(v, end);
    if end - start == 2 && v[start] == '.' && v[start + 1] == '.' {
        None
    } else {
        Some((start, end))
    }
}

/// The index of the last `.` in `v[start..end]`, counted from `start`.
fn find_last_dot(v: &Vec<char>, start: usize, end: usize) -> (dot: Option<usize>)
    requires
        start <= end <= v.len(),
    ensures
        dot is None <==> last_dot(v@.subrange(start as int, end as int)) == -1,
        dot matches Some(k) ==> k < end - start && k == last_dot(
            v@.subrange(start as int, end as int),
        ),
{
    let ghost name = v@.subrange(start as int, end as int);
    assert(name.subrange(0, name.len() as int) == name);
    let mut i: usize = end;
    while i > start && v[i - 1] != '.'
        invariant
            start <= i <= end <= v.len(),
            name == v@.subrange(start as int, end as int),
            last_dot(name) == last_dot(name.subrange(0, i - start)),
        decreases i,
    {
        proof {
            let shorter = name.subrange(0, i - start);
            assert(shorter.drop_last() == name.subrange(0, i - 1 - start));
        }
        i -= 1;
    }
    if i > start {
        assert(name.subrange(0, i - start).last() == '.');
        Some(i - 1 - start)
    } else {
        assert(name.subrange(0, 0).len() == 0);
        None
    }
}

/// The last segment of `path` that names something, unless it is `..`.
pub fn path_file_name(path: &str) -> (name: Option<String>)
    ensures
        text_of(name) == file_name(path@),
{
    let v = chars_of(path);
    match file_name_range(&v) {
        None => None,
        Some((start, end)) => Some(path.substring_char(start, end).to_owned()),
    }
}

/// What follows the last `.` of the file name of `path`.
pub fn path_extension(path: &str) -> (ext: Option<String>)
    ensures
        text_of(ext) == extension(path@),
{
    let v = chars_of(path);
    match file_name_range(&v) {
        None => None,
        Some((start, end)) => {
            match find_last_dot(&v, start, end) {
                None => None,
                Some(k) => {
                    if k == 0 {
                        None
                    } else {
                        assert(v@.subrange(start as int, end as int).subrange(
                            k + 1,
                            end - start,
                        ) == v@.subrange(start + k + 1, end as int));
                        Some(path.substring_char(start + k + 1, end).to_owned())
                    }
                },
            }
        },
    }
}

/// The file name of `path` without its extension.
pub fn path_file_stem(path: &str) -> (stem: Option<String>)
    ensures
        text_of(stem) == file_stem(path@),
{
    let v = chars_of(path);
    match file_name_range(&v) {
        None => None,
        Some((start, end)) => {
            match find_last_dot(&v, start, end) {
                None => Some(path.substring_char(start, end).to_owned()),
                Some(k) => {
                    if k == 0 {
                        Some(path.substring_char(start, end).to_owned())
                    } else {
                        assert(v@.subrange(start as int, end as int).subrange(0, k as int)
                            == v@.subrange(start as int, start + k));
                        Some(path.substring_char(start, start + k).to_owned())
                    }
                },
            }
        },
    }
}

/// The path without its last segment.
pub fn path_parent(path: &str) -> (dir: Option<String>)
    ensures
        text_of(dir) == parent(path@),
{
    let v = chars_of(path);
    let head: usize = head_of(&v);
    let end: usize = trim_end(&v, v.len());
    if end > head {
        let start: usize = start_of_segment(&v, end);
        let cut: usize = if start > head {
            start - 1
        } else {
            start
        };
        let keep: usize = trim_end(&v, cut);
        Some(path.substring_char(0, keep).to_owned())
    } else if head == 1 && v[0] == '.' {
        Some(String::new())
    } else {
        None
    }
}

/// `name` below `base`.
pub fn path_join(base: &str, name: &str) -> (path: String)
    ensures
        path@ == joined(base@, name@),
{
    let b = chars_of(base);
    let n = chars_of(name);
    if n.len() > 0 && n[0] == '/' {
        return name.to_owned();
    }
    let mut path = base.to_owned();
    if b.len() > 0 && b[b.len() - 1] != '/' {
        proof {
            reveal_strlit("/");
            assert("/"@ == seq!['/']);
        }
        path.append("/");
    }
    path.append(name);
    path
}

/// Whether `name` is written as a directory.
pub fn is_directory_name(name: &str) -> (b: bool)
    ensures
        b == names_directory(name@),
{
    let v = chars_of(name);
    v.len() > 0 && v[v.len() - 1] == '/'
}

} // verus!

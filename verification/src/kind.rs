//! The closed set of archive formats, and how a path's text names one.

use crate::paths::{chars_of, extension, file_stem, path_extension, path_file_stem};
use vstd::prelude::*;

verus! {

/// The format of an archive, as told from its file name alone.
#[derive(Clone, Copy, Debug, PartialEq, Eq, Structural)]
pub enum ArchiveType {
    Zip,
    SevenZ,
    Tar,
    TarGz,
    TarBz2,
    TarXz,
    Gz,
    Bz2,
    Xz,
    Rar,
    Unknown,
}

/// A stream compression that wraps one payload.
#[derive(Clone, Copy, Debug, PartialEq, Eq, Structural)]
pub enum Compression {
    Gz,
    Bz2,
    Xz,
}

impl ArchiveType {
    /// Whether the format holds several named entries, so that it can be listed.
    pub open spec fn is_container(self) -> bool {
        self is Zip || self is SevenZ || self is Tar || self is TarGz || self is TarBz2
            || self is TarXz || self is Rar
    }

    /// Whether the format holds several named entries, so that it can be listed.
    pub fn supports_listing(&self) -> (b: bool)
        ensures
            b == self.is_container(),
    {
        match self {
            ArchiveType::Zip
            | ArchiveType::SevenZ
            | ArchiveType::Tar
            | ArchiveType::TarGz
            | ArchiveType::TarBz2
            | ArchiveType::TarXz
            | ArchiveType::Rar => true,
            _ => false,
        }
    }
}

/// Whether `c` is the lower-case ASCII letter or digit `w`, in either case.
pub open spec fn same_letter(c: char, w: char) -> bool {
    c == w || ('a' <= w <= 'z' && c as int == w as int - 32)
}

/// Whether `text` is `word` but for the case of its ASCII letters. `word` is
/// written in lower case.
pub open spec fn same_word(text: Seq<char>, word: Seq<char>) -> bool {
    text.len() == word.len() && forall|i: int|
        0 <= i < word.len() ==> same_letter(#[trigger] text[i], word[i])
}

/// Whether `text` ends in `word`, but for the case of its ASCII letters.
pub open spec fn ends_in_word(text: Seq<char>, word: Seq<char>) -> bool {
    text.len() >= word.len() && same_word(
        text.subrange(text.len() - word.len(), text.len() as int),
        word,
    )
}

/// The compression that an extension names.
pub open spec fn compression_of(ext: Seq<char>) -> Option<Compression> {
    if same_word(ext, seq!['g', 'z']) {
        Some(Compression::Gz)
    } else if same_word(ext, seq!['b', 'z', '2']) {
        Some(Compression::Bz2)
    } else if same_word(ext, seq!['x', 'z']) {
        Some(Compression::Xz)
    } else {
        None
    }
}

/// The format that the text of a path names.
///
/// The extension decides, whatever the case of its letters. Behind a
/// compression's extension, a stem that ends in `.tar` makes the archive a
/// compressed tar; any other stem leaves a single compressed file. A path
/// without an extension, or with one that is not known, is `Unknown`.
pub open spec fn classify(path: Seq<char>) -> ArchiveType {
    match extension(path) {
        None => ArchiveType::Unknown,
        Some(ext) => {
            if same_word(ext, seq!['z', 'i', 'p']) {
                ArchiveType::Zip
            } else if same_word(ext, seq!['7', 'z']) {
                ArchiveType::SevenZ
            } else if same_word(ext, seq!['t', 'a', 'r']) {
                ArchiveType::Tar
            } else if same_word(ext, seq!['r', 'a', 'r']) {
                ArchiveType::Rar
            } else {
                match (compression_of(ext), file_stem(path)) {
                    (Some(compression), Some(stem)) => {
                        let tar = ends_in_word(stem, seq!['.', 't', 'a', 'r']);
                        match compression {
                            Compression::Gz => if tar {
                                ArchiveType::TarGz
                            } else {
                                ArchiveType::Gz
                            },
                            Compression::Bz2 => if tar {
                                ArchiveType::TarBz2
                            } else {
                                ArchiveType::Bz2
                            },
                            Compression::Xz => if tar {
                                ArchiveType::TarXz
                            } else {
                                ArchiveType::Xz
                            },
                        }
                    },
                    _ => ArchiveType::Unknown,
                }
            }
        },
    }
}

fn is_same_letter(c: char, w: char) -> (b: bool)
    ensures
        b == same_letter(c, w),
{
    c == w || (w >= 'a' && w <= 'z' && c as u32 + 32 == w as u32)
}

/// Whether `text[from..]` is `word` but for the case of its ASCII letters.
fn is_word_at(text: &Vec<char>, from: usize, word: &str) -> (b: bool)
    requires
        from <= text.len(),
    ensures
        b == same_word(text@.subrange(from as int, text.len() as int), word@),
{
    let w = chars_of(word);
    if text.len() - from != w.len() {
        return false;
    }
    let ghost tail = text@.subrange(from as int, text.len() as int);
    let mut i: usize = 0;
    while i < w.len()
        invariant
            from + w.len() == text.len(),
            w@ == word@,
            tail == text@.subrange(from as int, text.len() as int),
            i <= w.len(),
            forall|j: int| 0 <= j < i ==> same_letter(#[trigger] tail[j], w@[j]),
        decreases w.len() - i,
    {
        if !is_same_letter(text[from + i], w[i]) {
            assert(!same_letter(tail[i as int], w@[i as int]));
            return false;
        }
        i += 1;
    }
    true
}

/// The format that `path` names.
pub fn get_archive_type(path: &str) -> (kind: ArchiveType)
    ensures
        kind == classify(path@),
{
    let ext = match path_extension(path) {
        None => {
            return ArchiveType::Unknown;
        },
        Some(ext) => chars_of(ext.as_str()),
    };
    proof {
        reveal_strlit("zip");
        reveal_strlit("7z");
        reveal_strlit("tar");
        reveal_strlit("rar");
        reveal_strlit("gz");
        reveal_strlit("bz2");
        reveal_strlit("xz");
        reveal_strlit(".tar");
        assert("zip"@ == seq!['z', 'i', 'p']);
        assert("7z"@ == seq!['7', 'z']);
        assert("tar"@ == seq!['t', 'a', 'r']);
        assert("rar"@ == seq!['r', 'a', 'r']);
        assert("gz"@ == seq!['g', 'z']);
        assert("bz2"@ == seq!['b', 'z', '2']);
        assert("xz"@ == seq!['x', 'z']);
        assert(".tar"@ == seq!['.', 't', 'a', 'r']);
        assert(ext@.subrange(0, ext.len() as int) == ext@);
    }
    if is_word_at(&ext, 0, "zip") {
        return ArchiveType::Zip;
    }
    if is_word_at(&ext, 0, "7z") {
        return ArchiveType::SevenZ;
    }
    if is_word_at(&ext, 0, "tar") {
        return ArchiveType::Tar;
    }
    if is_word_at(&ext, 0, "rar") {
        return ArchiveType::Rar;
    }
    let compression = if is_word_at(&ext, 0, "gz") {
        Compression::Gz
    } else if is_word_at(&ext, 0, "bz2") {
        Compression::Bz2
    } else if is_word_at(&ext, 0, "xz") {
        Compression::Xz
    } else {
        return ArchiveType::Unknown;
    };
    let stem = match path_file_stem(path) {
        None => {
            return ArchiveType::Unknown;
        },
        Some(stem) => chars_of(stem.as_str()),
    };
    let tar = stem.len() >= 4 && is_word_at(&stem, stem.len() - 4, ".tar");
    match compression {
        Compression::Gz => if tar {
            ArchiveType::TarGz
        } else {
            ArchiveType::Gz
        },
        Compression::Bz2 => if tar {
            ArchiveType::TarBz2
        } else {
            ArchiveType::Bz2
        },
        Compression::Xz => if tar {
            ArchiveType::TarXz
        } else {
            ArchiveType::Xz
        },
    }
}

} // verus!

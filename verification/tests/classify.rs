use ferris_unzip::kind::{get_archive_type, ArchiveType};
use ferris_unzip::paths::{path_extension, path_file_name, path_file_stem, path_join, path_parent};
use std::path::Path;

#[test]
fn tar_gz_is_a_compressed_tar() {
    assert_eq!(get_archive_type("a.tar.gz"), ArchiveType::TarGz);
}

#[test]
fn gz_alone_is_a_single_file() {
    assert_eq!(get_archive_type("a.gz"), ArchiveType::Gz);
}

#[test]
fn case_of_the_extension_does_not_matter() {
    assert_eq!(get_archive_type("a.TAR.GZ"), ArchiveType::TarGz);
    assert_eq!(get_archive_type("a.Tar.Bz2"), ArchiveType::TarBz2);
    assert_eq!(get_archive_type("A.ZIP"), ArchiveType::Zip);
    assert_eq!(get_archive_type("a.7Z"), ArchiveType::SevenZ);
    assert_eq!(get_archive_type("a.RaR"), ArchiveType::Rar);
}

#[test]
fn unknown_extension_is_unknown() {
    assert_eq!(get_archive_type("a.xyz"), ArchiveType::Unknown);
}

#[test]
fn every_known_extension_has_its_type() {
    assert_eq!(get_archive_type("a.zip"), ArchiveType::Zip);
    assert_eq!(get_archive_type("a.7z"), ArchiveType::SevenZ);
    assert_eq!(get_archive_type("a.tar"), ArchiveType::Tar);
    assert_eq!(get_archive_type("a.rar"), ArchiveType::Rar);
    assert_eq!(get_archive_type("a.gz"), ArchiveType::Gz);
    assert_eq!(get_archive_type("a.bz2"), ArchiveType::Bz2);
    assert_eq!(get_archive_type("a.xz"), ArchiveType::Xz);
    assert_eq!(get_archive_type("a.tar.gz"), ArchiveType::TarGz);
    assert_eq!(get_archive_type("a.tar.bz2"), ArchiveType::TarBz2);
    assert_eq!(get_archive_type("a.tar.xz"), ArchiveType::TarXz);
}

#[test]
fn no_extension_is_unknown() {
    assert_eq!(get_archive_type(""), ArchiveType::Unknown);
    assert_eq!(get_archive_type("archive"), ArchiveType::Unknown);
    assert_eq!(get_archive_type(".zip"), ArchiveType::Unknown);
    assert_eq!(get_archive_type("dir.zip/file"), ArchiveType::Unknown);
    assert_eq!(get_archive_type("a.zip/.."), ArchiveType::Unknown);
    assert_eq!(get_archive_type("a."), ArchiveType::Unknown);
    assert_eq!(get_archive_type("zip"), ArchiveType::Unknown);
}

#[test]
fn only_the_file_name_counts() {
    assert_eq!(get_archive_type("/srv/data.tar/backup.zip"), ArchiveType::Zip);
    assert_eq!(get_archive_type("some/dir/a.tar.xz"), ArchiveType::TarXz);
    assert_eq!(get_archive_type("a.zip/"), ArchiveType::Zip);
    assert_eq!(get_archive_type("a.zip/."), ArchiveType::Zip);
    assert_eq!(get_archive_type(".tar.gz"), ArchiveType::TarGz);
    assert_eq!(get_archive_type("x.tar.old.gz"), ArchiveType::Gz);
    assert_eq!(get_archive_type("tar.gz"), ArchiveType::Gz);
}

#[test]
fn letters_beyond_ascii_are_not_folded() {
    assert_eq!(get_archive_type("a.\u{212A}ip"), ArchiveType::Unknown);
    assert_eq!(get_archive_type("na\u{ef}ve.\u{e9}t\u{e9}.zip"), ArchiveType::Zip);
    assert_eq!(get_archive_type("a.z\u{130}p"), ArchiveType::Unknown);
}

#[test]
fn classification_is_repeatable() {
    let paths = ["a.tar.gz", "b.zip", "c", "d.rar", "e.tar.XZ", "f.bz2"];
    for p in paths {
        assert_eq!(get_archive_type(p), get_archive_type(p));
        let copy = String::from(p);
        assert_eq!(get_archive_type(p), get_archive_type(&copy));
    }
}

fn sample_paths() -> Vec<String> {
    let pieces = [
        "", "/", ".", "..", "a", "a.b", ".a", "a.", "..a", "...", "a.tar", "a.tar.gz", ".tar.gz",
        "b.c.d", "dir", "x y", "\u{e9}t\u{e9}.zip",
    ];
    let seps = ["", "/", "//", "/./", "/../"];
    let mut all = Vec::new();
    for first in pieces {
        for sep in seps {
            for second in pieces {
                all.push(format!("{}{}{}", first, sep, second));
                all.push(format!("/{}{}{}", first, sep, second));
                all.push(format!("{}{}{}/", first, sep, second));
                all.push(format!("./{}{}{}", first, sep, second));
            }
        }
    }
    all
}

#[test]
fn file_names_agree_with_the_platform() {
    for p in sample_paths() {
        let expected = Path::new(&p).file_name().map(|s| s.to_str().unwrap().to_string());
        assert_eq!(path_file_name(&p), expected, "file name of {:?}", p);
    }
}

#[test]
fn extensions_agree_with_the_platform() {
    for p in sample_paths() {
        let expected = Path::new(&p).extension().map(|s| s.to_str().unwrap().to_string());
        assert_eq!(path_extension(&p), expected, "extension of {:?}", p);
    }
}

#[test]
fn stems_agree_with_the_platform() {
    for p in sample_paths() {
        let expected = Path::new(&p).file_stem().map(|s| s.to_str().unwrap().to_string());
        assert_eq!(path_file_stem(&p), expected, "stem of {:?}", p);
    }
}

#[test]
fn parents_agree_with_the_platform() {
    for p in sample_paths() {
        let expected = Path::new(&p).parent().map(|s| s.to_str().unwrap().to_string());
        assert_eq!(path_parent(&p), expected, "parent of {:?}", p);
    }
}

#[test]
fn joins_agree_with_the_platform() {
    let all = sample_paths();
    for base in all.iter().step_by(7) {
        for name in all.iter().step_by(11) {
            let expected = Path::new(base).join(name).to_str().unwrap().to_string();
            assert_eq!(path_join(base, name), expected, "{:?} joined with {:?}", base, name);
        }
    }
}

#[test]
fn join_puts_one_separator_between() {
    assert_eq!(path_join("out", "dir/sub/file.txt"), "out/dir/sub/file.txt");
    assert_eq!(path_join("out/", "report.txt"), "out/report.txt");
    assert_eq!(path_join("", "report.txt"), "report.txt");
    assert_eq!(path_join("out", "/etc/passwd"), "/etc/passwd");
    assert_eq!(path_join("out", ""), "out/");
}

#[test]
fn parent_drops_the_last_segment() {
    assert_eq!(path_parent("out/dir/sub/file.txt"), Some("out/dir/sub".to_string()));
    assert_eq!(path_parent("file.txt"), Some(String::new()));
    assert_eq!(path_parent("/file.txt"), Some("/".to_string()));
    assert_eq!(path_parent("/"), None);
    assert_eq!(path_parent(""), None);
    assert_eq!(path_parent("a//b/"), Some("a".to_string()));
}

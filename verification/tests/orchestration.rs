use ferris_unzip::error::ArchiveError;
use ferris_unzip::extract::{default_destination, extract_archive, ExtractJob, Unpack};
use ferris_unzip::kind::{ArchiveType, Compression};
use ferris_unzip::listing::{list_7z, list_archive_contents, ListJob, Scan};
use ferris_unzip::password::password_or_empty;
use ferris_unzip::retry::{after_attempt, contains, is_password_error, Attempt, NextStep};
use std::io::{Cursor, Read};

fn sevenz_of(entries: &[(&str, &[u8])], password: Option<&str>) -> Vec<u8> {
    let mut writer = sevenz_rust::SevenZWriter::new(Cursor::new(Vec::new())).unwrap();
    if let Some(p) = password {
        writer.set_content_methods(vec![
            sevenz_rust::AesEncoderOptions::new(p.into()).into(),
            sevenz_rust::SevenZMethod::LZMA2.into(),
        ]);
    }
    for (name, data) in entries {
        let mut entry = sevenz_rust::SevenZArchiveEntry::new();
        entry.name = name.to_string();
        writer.push_archive_entry(entry, Some(*data)).unwrap();
    }
    writer.finish().unwrap().into_inner()
}

fn read_7z_names(data: &[u8], password: &str) -> Result<Vec<String>, String> {
    let key = sevenz_rust::Password::from(password);
    let mut reader = Cursor::new(data);
    match sevenz_rust::Archive::read(&mut reader, data.len() as u64, key.as_slice()) {
        Ok(header) => Ok(header.files.iter().map(|entry| entry.name().to_string()).collect()),
        Err(e) => Err(e.to_string()),
    }
}

fn unpack_7z(data: &[u8], password: &str) -> Result<Vec<(String, Vec<u8>)>, ArchiveError> {
    let mut files = Vec::new();
    let mut reader = sevenz_rust::SevenZReader::new(
        Cursor::new(data),
        data.len() as u64,
        sevenz_rust::Password::from(password),
    )
    .map_err(|e| ArchiveError::Codec { message: e.to_string() })?;
    reader
        .for_each_entries(|entry, stream| {
            let mut bytes = Vec::new();
            stream.read_to_end(&mut bytes)?;
            files.push((entry.name().to_string(), bytes));
            Ok(true)
        })
        .map_err(|e| ArchiveError::Codec { message: e.to_string() })?;
    Ok(files)
}

#[test]
fn listing_is_refused_for_single_files_and_unknown_formats() {
    for path in ["a.gz", "a.bz2", "a.xz", "a.xyz", "a", "A.GZ", "dir.zip/a.Xz"] {
        assert_eq!(
            list_archive_contents(path, None, true),
            Err(ArchiveError::UnsupportedListing),
            "{}",
            path
        );
        assert_eq!(
            list_archive_contents(path, Some("pw"), true),
            Err(ArchiveError::UnsupportedListing)
        );
    }
    assert_eq!(
        ArchiveError::UnsupportedListing.message(),
        "Unsupported archive format for listing"
    );
}

#[test]
fn listing_a_missing_archive_is_refused_first() {
    for path in ["a.zip", "a.gz", "a.xyz", "", "a.tar.gz"] {
        assert_eq!(list_archive_contents(path, None, false), Err(ArchiveError::NotFound));
    }
}

#[test]
fn listing_jobs_follow_the_format() {
    assert_eq!(
        list_archive_contents("a.zip", Some("ignored"), true),
        Ok(ListJob::Scan(Scan::Zip))
    );
    assert_eq!(
        list_archive_contents("a.7z", None, true),
        Ok(ListJob::ReadSevenZ { password: String::new() })
    );
    assert_eq!(
        list_archive_contents("a.7z", Some("pw"), true),
        Ok(ListJob::ReadSevenZ { password: "pw".to_string() })
    );
    assert_eq!(
        list_archive_contents("a.tar", None, true),
        Ok(ListJob::Scan(Scan::Tar { compression: None }))
    );
    assert_eq!(
        list_archive_contents("a.tar.gz", None, true),
        Ok(ListJob::Scan(Scan::Tar { compression: Some(Compression::Gz) }))
    );
    assert_eq!(
        list_archive_contents("a.tar.bz2", None, true),
        Ok(ListJob::Scan(Scan::Tar { compression: Some(Compression::Bz2) }))
    );
    assert_eq!(
        list_archive_contents("a.tar.xz", None, true),
        Ok(ListJob::Scan(Scan::Tar { compression: Some(Compression::Xz) }))
    );
    assert_eq!(
        list_archive_contents("a.rar", None, true),
        Ok(ListJob::WalkRar { password: String::new() })
    );
    assert_eq!(
        list_archive_contents("a.rar", Some("s3"), true),
        Ok(ListJob::WalkRar { password: "s3".to_string() })
    );
}

#[test]
fn extracting_a_missing_archive_fails_before_anything_else() {
    for path in ["nowhere.zip", "nowhere.7z", "nowhere.gz", "nowhere", "nowhere.rar"] {
        let r = extract_archive(path, None, false);
        assert_eq!(r, Err(ArchiveError::NotFound));
        assert!(r.unwrap_err().message().contains("does not exist"));
    }
    assert_eq!(ArchiveError::NotFound.message(), "Archive file does not exist");
}

#[test]
fn extracting_an_unknown_format_is_refused() {
    assert_eq!(extract_archive("a.xyz", None, true), Err(ArchiveError::UnsupportedFormat));
    assert_eq!(extract_archive("noext", Some("p"), true), Err(ArchiveError::UnsupportedFormat));
    assert_eq!(ArchiveError::UnsupportedFormat.message(), "Unsupported archive format");
}

#[test]
fn extraction_jobs_follow_the_format() {
    assert_eq!(extract_archive("a.zip", None, true), Ok(ExtractJob::Plan(Unpack::Zip)));
    assert_eq!(
        extract_archive("a.7z", None, true),
        Ok(ExtractJob::SevenZ { password: String::new() })
    );
    assert_eq!(
        extract_archive("a.7z", Some("pw"), true),
        Ok(ExtractJob::SevenZ { password: "pw".to_string() })
    );
    assert_eq!(extract_archive("a.tar", None, true), Ok(ExtractJob::Tar { compression: None }));
    assert_eq!(
        extract_archive("a.TAR.GZ", None, true),
        Ok(ExtractJob::Tar { compression: Some(Compression::Gz) })
    );
    assert_eq!(
        extract_archive("a.tar.bz2", None, true),
        Ok(ExtractJob::Tar { compression: Some(Compression::Bz2) })
    );
    assert_eq!(
        extract_archive("a.tar.xz", None, true),
        Ok(ExtractJob::Tar { compression: Some(Compression::Xz) })
    );
    assert_eq!(
        extract_archive("a.gz", None, true),
        Ok(ExtractJob::Plan(Unpack::Stream { codec: Compression::Gz }))
    );
    assert_eq!(
        extract_archive("a.bz2", None, true),
        Ok(ExtractJob::Plan(Unpack::Stream { codec: Compression::Bz2 }))
    );
    assert_eq!(
        extract_archive("a.xz", None, true),
        Ok(ExtractJob::Plan(Unpack::Stream { codec: Compression::Xz }))
    );
    assert_eq!(
        extract_archive("a.rar", Some("r"), true),
        Ok(ExtractJob::WalkRar { password: "r".to_string() })
    );
}

#[test]
fn containers_are_the_formats_that_list() {
    let containers = [
        ArchiveType::Zip,
        ArchiveType::SevenZ,
        ArchiveType::Tar,
        ArchiveType::TarGz,
        ArchiveType::TarBz2,
        ArchiveType::TarXz,
        ArchiveType::Rar,
    ];
    for kind in containers {
        assert!(kind.supports_listing());
    }
    for kind in [ArchiveType::Gz, ArchiveType::Bz2, ArchiveType::Xz, ArchiveType::Unknown] {
        assert!(!kind.supports_listing());
    }
}

#[test]
fn absent_password_is_the_empty_one() {
    assert_eq!(password_or_empty(None), "");
    assert_eq!(password_or_empty(Some("")), "");
    assert_eq!(password_or_empty(Some("p\u{e4}ss")), "p\u{e4}ss");
}

#[test]
fn every_error_has_its_message() {
    assert_eq!(ArchiveError::InvalidFilename.message(), "Invalid filename");
    assert_eq!(
        ArchiveError::NoParentDirectory.message(),
        "Invalid archive path: Unable to determine parent directory"
    );
    assert_eq!(
        ArchiveError::NoFileStem.message(),
        "Invalid filename: Unable to extract file stem"
    );
    assert_eq!(ArchiveError::Codec { message: "bad crc".to_string() }.message(), "bad crc");
    assert_eq!(ArchiveError::Io { message: "disk full".to_string() }.message(), "disk full");
}

#[test]
fn default_destination_is_a_sibling_named_after_the_stem() {
    assert_eq!(default_destination("/data/backup.zip"), Ok("/data/backup".to_string()));
    assert_eq!(default_destination("backup.tar.gz"), Ok("backup.tar".to_string()));
    assert_eq!(default_destination("a/b/c.7z"), Ok("a/b/c".to_string()));
    assert_eq!(default_destination("/top.rar"), Ok("/top".to_string()));
    assert_eq!(default_destination(""), Err(ArchiveError::NoParentDirectory));
    assert_eq!(default_destination("/"), Err(ArchiveError::NoParentDirectory));
    assert_eq!(default_destination(".."), Err(ArchiveError::NoFileStem));
    assert_eq!(default_destination("a/.."), Err(ArchiveError::NoFileStem));
}

#[test]
fn substring_search_finds_what_is_there() {
    assert!(contains("PasswordRequired", "Pass"));
    assert!(contains("MaybeBadPassword(..)", "Pass"));
    assert!(contains("xxPass", "Pass"));
    assert!(contains("anything", ""));
    assert!(contains("", ""));
    assert!(!contains("", "Pass"));
    assert!(!contains("Pas", "Pass"));
    assert!(!contains("password required", "Pass"));
    assert!(!contains("PaPasPas s", "Pass"));
    assert!(contains("PaPasPass", "Pass"));
    assert!(contains("\u{e9}Pass\u{e9}", "Pass"));
}

#[test]
fn only_a_first_failure_about_a_password_asks_for_one() {
    let password = Err(ArchiveError::Codec { message: "PasswordRequired".to_string() });
    let corrupt = Err(ArchiveError::Codec { message: "ChecksumVerificationFailed".to_string() });
    assert_eq!(after_attempt(Attempt::First, &password), NextStep::AskPassword);
    assert_eq!(after_attempt(Attempt::First, &corrupt), NextStep::Finish);
    assert_eq!(after_attempt(Attempt::First, &Ok(())), NextStep::Finish);
    assert_eq!(after_attempt(Attempt::First, &Err(ArchiveError::NotFound)), NextStep::Finish);
    assert_eq!(after_attempt(Attempt::Second, &password), NextStep::Finish);
    assert_eq!(after_attempt(Attempt::Second, &corrupt), NextStep::Finish);
    assert_eq!(after_attempt(Attempt::Second, &Ok(())), NextStep::Finish);
    assert!(is_password_error(&ArchiveError::Io { message: "Pass".to_string() }));
    assert!(!is_password_error(&ArchiveError::UnsupportedFormat));
}

#[test]
fn protected_7z_is_unpacked_on_the_retry() {
    let entries: [(&str, &[u8]); 6] = [
        ("a.txt", b"alpha"),
        ("b/c.txt", b"gamma"),
        ("b/another-file-with-a-long-name.txt", b"delta"),
        ("b/yet-another-file-with-a-long-name.txt", b""),
        ("c/more/files/in/here/one.bin", &[0, 1, 2]),
        ("c/more/files/in/here/two.bin", &[3, 4, 5]),
    ];
    let plain = sevenz_of(&entries, None);
    let protected = sevenz_of(&entries, Some("s3cret"));

    let job = extract_archive("vault.7z", None, true).unwrap();
    let ExtractJob::SevenZ { password } = job else { panic!("a 7z job was due") };
    assert_eq!(password, "");
    let first = unpack_7z(&protected, &password);
    let failure = first.clone().unwrap_err();
    assert!(failure.message().contains("Pass"), "{}", failure.message());
    assert!(is_password_error(&failure));
    assert_eq!(after_attempt(Attempt::First, &first.map(|_| ())), NextStep::AskPassword);

    let job = extract_archive("vault.7z", Some("s3cret"), true).unwrap();
    let ExtractJob::SevenZ { password } = job else { panic!("a 7z job was due") };
    let second = unpack_7z(&protected, &password);
    assert_eq!(after_attempt(Attempt::Second, &second.clone().map(|_| ())), NextStep::Finish);
    assert_eq!(second.unwrap(), unpack_7z(&plain, "").unwrap());

    let Ok(ListJob::ReadSevenZ { password }) = list_archive_contents("vault.7z", None, true)
    else {
        panic!("a 7z listing job was due")
    };
    let listing_failure = list_7z(read_7z_names(&protected, &password)).unwrap_err();
    assert!(is_password_error(&listing_failure), "{}", listing_failure.message());
}

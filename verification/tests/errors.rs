use file_architect::error::{EntryFault, Error};
use file_architect::text::{
    chars_of, decimal, ends_with_char, same_text, starts_with_char, text_le,
};

#[test]
fn messages_name_the_path() {
    assert_eq!(Error::NotFound("/a/b".to_string()).message(), "Path does not exist: /a/b");
    assert_eq!(Error::NotADirectory("/a/b".to_string()).message(), "Path is not a directory: /a/b");
    assert_eq!(Error::PermissionDenied("/a/b".to_string()).message(), "Permission denied: /a/b");
    assert_eq!(Error::ArchiveOpenError("x.zip".to_string()).message(), "Failed to open zip file: x.zip");
}

#[test]
fn io_message_is_the_detail() {
    assert_eq!(Error::IOError("disk full".to_string()).message(), "disk full");
    assert_eq!(Error::IOError(String::new()).message(), "");
}

#[test]
fn archive_messages_name_the_entry_and_the_cause() {
    assert_eq!(
        Error::ArchiveParseError("invalid Zip archive".to_string()).message(),
        "Failed to parse zip: invalid Zip archive"
    );
    assert_eq!(
        Error::ArchiveEntryError(0, EntryFault::Inaccessible, "unsupported".to_string()).message(),
        "Failed to access zip entry 0: unsupported"
    );
    assert_eq!(
        Error::ArchiveEntryError(12, EntryFault::UnsafeName, "../x".to_string()).message(),
        "Refused unsafe path of zip entry 12: ../x"
    );
    assert_eq!(
        Error::ArchiveEntryError(305, EntryFault::Unreadable, "Invalid checksum".to_string()).message(),
        "Failed to read zip entry 305: Invalid checksum"
    );
    assert_eq!(
        Error::ArchiveEntryError(7, EntryFault::CreateDirectory, "denied".to_string()).message(),
        "Failed to create directory for zip entry 7: denied"
    );
    assert_eq!(
        Error::ArchiveEntryError(8, EntryFault::CreateFile, "denied".to_string()).message(),
        "Failed to create file for zip entry 8: denied"
    );
    assert_eq!(
        Error::ArchiveEntryError(9, EntryFault::Write, String::new()).message(),
        "Failed to write file for zip entry 9: "
    );
    assert_eq!(EntryFault::Write.text(), "Failed to write file for zip entry ");
}

#[test]
fn decimal_writes_every_digit() {
    assert_eq!(decimal(0), "0");
    assert_eq!(decimal(9), "9");
    assert_eq!(decimal(10), "10");
    assert_eq!(decimal(1234567890), "1234567890");
    assert_eq!(decimal(usize::MAX), usize::MAX.to_string());
    for n in 0..2000 {
        assert_eq!(decimal(n), n.to_string());
    }
}

#[test]
fn first_and_last_character() {
    assert!(starts_with_char("~x", '~'));
    assert!(!starts_with_char("x~", '~'));
    assert!(!starts_with_char("", '~'));
    assert!(ends_with_char("a/", '/'));
    assert!(!ends_with_char("/a", '/'));
    assert!(!ends_with_char("", '/'));
    assert!(ends_with_char("é", 'é'));
    assert_eq!(chars_of("aé/"), vec!['a', 'é', '/']);
}

#[test]
fn texts_compare_like_strings() {
    let samples = ["", "a", "A", "ab", "b", "é", "z", "~", "a\u{10000}", "a\u{ffff}", "日本", "10", "9"];
    for a in samples {
        for b in samples {
            assert_eq!(same_text(a, b), a == b);
            assert_eq!(text_le(a, b), a <= b);
        }
    }
}

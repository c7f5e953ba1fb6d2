use std::io::{Cursor, Write};

use file_architect::archive::{
    entry_step, extract_zip, fault_of, is_ascii_letter_char, is_directory_marker,
    is_safe_entry_name, plan_extraction, ArchiveEntry, ExtractPlan, ExtractStep,
};
use file_architect::error::{EntryFault, Error};
use zip::write::SimpleFileOptions;
use zip::{CompressionMethod, ZipWriter};

fn archive_of(entries: &[(&str, Option<&[u8]>)], method: CompressionMethod) -> Vec<u8> {
    let mut writer = ZipWriter::new(Cursor::new(Vec::new()));
    let options = SimpleFileOptions::default().compression_method(method);
    for (name, content) in entries {
        match content {
            None => writer.add_directory(*name, options).unwrap(),
            Some(bytes) => {
                writer.start_file(*name, options).unwrap();
                writer.write_all(bytes).unwrap();
            }
        }
    }
    writer.finish().unwrap().into_inner()
}

fn file(name: &str, data: &[u8]) -> Result<ArchiveEntry, String> {
    Ok(ArchiveEntry { name: name.to_string(), data: Ok(data.to_vec()) })
}

fn unreadable(name: &str, cause: &str) -> Result<ArchiveEntry, String> {
    Ok(ArchiveEntry { name: name.to_string(), data: Err(cause.to_string()) })
}

fn position_of(haystack: &[u8], needle: &[u8]) -> usize {
    haystack.windows(needle.len()).position(|w| w == needle).unwrap()
}

fn failure_of(plan: &ExtractPlan) -> (usize, EntryFault, String) {
    match &plan.failure {
        Some(Error::ArchiveEntryError(index, fault, cause)) => (*index, *fault, cause.clone()),
        other => panic!("no entry failure: {:?}", other),
    }
}

#[test]
fn extracts_directory_and_file_in_stored_order() {
    let bytes = archive_of(
        &[("a/", None), ("a/b.txt", Some(b"hello"))],
        CompressionMethod::Stored,
    );
    let plan = extract_zip(bytes, "D").unwrap();
    assert_eq!(
        plan,
        ExtractPlan {
            destination: "D".to_string(),
            steps: vec![
                ExtractStep::CreateDirectory { path: "D/a/".to_string() },
                ExtractStep::WriteFile { path: "D/a/b.txt".to_string(), data: b"hello".to_vec() },
            ],
            failure: None,
        }
    );
}

#[test]
fn extracts_deflated_content() {
    let text = b"hello hello hello hello hello hello hello hello".to_vec();
    let bytes = archive_of(&[("notes/readme.md", Some(&text))], CompressionMethod::Deflated);
    let plan = extract_zip(bytes, "/tmp/out/").unwrap();
    assert_eq!(plan.failure, None);
    assert_eq!(
        plan.steps,
        vec![ExtractStep::WriteFile { path: "/tmp/out/notes/readme.md".to_string(), data: text }]
    );
}

#[test]
fn refuses_bytes_that_are_no_archive_and_says_why() {
    for bytes in [b"not a zip".to_vec(), Vec::new()] {
        match extract_zip(bytes, "D") {
            Err(Error::ArchiveParseError(cause)) => assert!(!cause.is_empty()),
            other => panic!("no parse error: {:?}", other),
        }
    }
}

#[test]
fn truncated_archive_is_refused() {
    let mut bytes = archive_of(&[("a.txt", Some(b"hello"))], CompressionMethod::Stored);
    bytes.truncate(bytes.len() - 10);
    assert!(matches!(extract_zip(bytes, "D"), Err(Error::ArchiveParseError(_))));
}

#[test]
fn empty_archive_plans_nothing() {
    let bytes = archive_of(&[], CompressionMethod::Stored);
    assert_eq!(
        extract_zip(bytes, "out"),
        Ok(ExtractPlan { destination: "out".to_string(), steps: Vec::new(), failure: None })
    );
}

#[test]
fn nested_names_need_no_directory_entries() {
    let bytes = archive_of(
        &[("a/b/c.txt", Some(b"c")), ("a/b/", None), ("top", Some(b""))],
        CompressionMethod::Deflated,
    );
    let plan = extract_zip(bytes, "/dest").unwrap();
    assert_eq!(plan.failure, None);
    assert_eq!(
        plan.steps,
        vec![
            ExtractStep::WriteFile { path: "/dest/a/b/c.txt".to_string(), data: b"c".to_vec() },
            ExtractStep::CreateDirectory { path: "/dest/a/b/".to_string() },
            ExtractStep::WriteFile { path: "/dest/top".to_string(), data: Vec::new() },
        ]
    );
}

#[test]
fn stops_at_the_first_unsafe_name_and_reports_it() {
    let bytes = archive_of(
        &[("ok.txt", Some(b"1")), ("../escape.txt", Some(b"2")), ("later.txt", Some(b"3"))],
        CompressionMethod::Stored,
    );
    let plan = extract_zip(bytes, "D").unwrap();
    assert_eq!(
        plan.steps,
        vec![ExtractStep::WriteFile { path: "D/ok.txt".to_string(), data: b"1".to_vec() }]
    );
    assert_eq!(
        plan.failure,
        Some(Error::ArchiveEntryError(1, EntryFault::UnsafeName, "../escape.txt".to_string()))
    );
}

#[test]
fn absolute_and_climbing_names_are_refused_with_their_index() {
    let bytes = archive_of(&[("/etc/passwd", Some(b"x"))], CompressionMethod::Stored);
    let plan = extract_zip(bytes, "D").unwrap();
    assert_eq!(plan.steps, Vec::new());
    assert_eq!(
        plan.failure,
        Some(Error::ArchiveEntryError(0, EntryFault::UnsafeName, "/etc/passwd".to_string()))
    );

    let bytes = archive_of(
        &[("a/", None), ("a/ok", Some(b"1")), ("a/../../b", Some(b"2"))],
        CompressionMethod::Stored,
    );
    let plan = extract_zip(bytes, "D").unwrap();
    assert_eq!(plan.steps.len(), 2);
    assert_eq!(
        plan.failure,
        Some(Error::ArchiveEntryError(2, EntryFault::UnsafeName, "a/../../b".to_string()))
    );
}

#[test]
fn name_with_a_colon_is_extracted() {
    let bytes = archive_of(&[("a:b.txt", Some(b"x"))], CompressionMethod::Stored);
    let plan = extract_zip(bytes, "D").unwrap();
    assert_eq!(plan.failure, None);
    assert_eq!(
        plan.steps,
        vec![ExtractStep::WriteFile { path: "D/a:b.txt".to_string(), data: b"x".to_vec() }]
    );
}

#[test]
fn content_that_fails_its_checksum_is_unreadable_with_the_cause() {
    let mut bytes = archive_of(
        &[("first.txt", Some(b"first")), ("second.txt", Some(b"payload")), ("third.txt", Some(b"third"))],
        CompressionMethod::Stored,
    );
    let at = position_of(&bytes, b"payload");
    bytes[at] = b'P';
    let plan = extract_zip(bytes, "D").unwrap();
    assert_eq!(
        plan.steps,
        vec![ExtractStep::WriteFile { path: "D/first.txt".to_string(), data: b"first".to_vec() }]
    );
    let (index, fault, cause) = failure_of(&plan);
    assert_eq!((index, fault), (1, EntryFault::Unreadable));
    assert!(!cause.is_empty());
    assert!(plan.failure.unwrap().message().starts_with("Failed to read zip entry 1: "));
}

#[test]
fn entry_with_an_unknown_method_is_inaccessible_with_the_cause() {
    let mut bytes = archive_of(&[("a.txt", Some(b"hello"))], CompressionMethod::Stored);
    let central = position_of(&bytes, b"PK\x01\x02");
    bytes[central + 10] = 12;
    bytes[central + 11] = 0;
    let plan = extract_zip(bytes, "D").unwrap();
    assert_eq!(plan.steps, Vec::new());
    let (index, fault, cause) = failure_of(&plan);
    assert_eq!((index, fault), (0, EntryFault::Inaccessible));
    assert!(!cause.is_empty());
}

#[test]
fn plans_from_entries_that_were_read() {
    let entries = vec![
        file("src/", b""),
        file("src/main.rs", b"fn main() {}"),
        unreadable("broken.bin", "Invalid checksum"),
        file("never.txt", b"x"),
    ];
    let plan = plan_extraction("out", entries);
    assert_eq!(plan.destination, "out");
    assert_eq!(
        plan.steps,
        vec![
            ExtractStep::CreateDirectory { path: "out/src/".to_string() },
            ExtractStep::WriteFile { path: "out/src/main.rs".to_string(), data: b"fn main() {}".to_vec() },
        ]
    );
    assert_eq!(
        plan.failure,
        Some(Error::ArchiveEntryError(2, EntryFault::Unreadable, "Invalid checksum".to_string()))
    );
}

#[test]
fn plan_from_entries_stops_at_an_inaccessible_entry() {
    let entries = vec![file("a", b"1"), Err("Password required".to_string()), file("b", b"2")];
    let plan = plan_extraction("", entries);
    assert_eq!(
        plan,
        ExtractPlan {
            destination: String::new(),
            steps: vec![ExtractStep::WriteFile { path: "a".to_string(), data: b"1".to_vec() }],
            failure: Some(Error::ArchiveEntryError(
                1,
                EntryFault::Inaccessible,
                "Password required".to_string()
            )),
        }
    );
}

#[test]
fn plan_from_no_entries_is_empty() {
    assert_eq!(
        plan_extraction("D", Vec::new()),
        ExtractPlan { destination: "D".to_string(), steps: Vec::new(), failure: None }
    );
}

#[test]
fn directory_entry_needs_no_content() {
    let plan = plan_extraction("D/", vec![unreadable("only/", "never looked at")]);
    assert_eq!(plan.steps, vec![ExtractStep::CreateDirectory { path: "D/only/".to_string() }]);
    assert_eq!(plan.failure, None);
}

#[test]
fn entry_step_names_index_fault_and_cause() {
    assert_eq!(
        entry_step("D", 7, Err("gone".to_string())),
        Err(Error::ArchiveEntryError(7, EntryFault::Inaccessible, "gone".to_string()))
    );
    assert_eq!(
        entry_step("D", 3, file("/etc/passwd", b"")),
        Err(Error::ArchiveEntryError(3, EntryFault::UnsafeName, "/etc/passwd".to_string()))
    );
    assert_eq!(
        entry_step("D", 0, unreadable("a/b/", "x")),
        Ok(ExtractStep::CreateDirectory { path: "D/a/b/".to_string() })
    );
    assert_eq!(
        entry_step("D", 1, file("a/b", b"xy")),
        Ok(ExtractStep::WriteFile { path: "D/a/b".to_string(), data: b"xy".to_vec() })
    );
}

#[test]
fn fault_of_an_entry_follows_name_then_content() {
    assert_eq!(
        fault_of(&Err("why".to_string())),
        Some((EntryFault::Inaccessible, "why".to_string()))
    );
    assert_eq!(
        fault_of(&unreadable("../x", "why")),
        Some((EntryFault::UnsafeName, "../x".to_string()))
    );
    assert_eq!(fault_of(&unreadable("x", "why")), Some((EntryFault::Unreadable, "why".to_string())));
    assert_eq!(fault_of(&file("x", b"")), None);
    assert!(is_directory_marker("a/"));
    assert!(!is_directory_marker("a\\"));
    assert!(!is_directory_marker(""));
    assert!(is_ascii_letter_char('a') && is_ascii_letter_char('Z'));
    assert!(!is_ascii_letter_char('1') && !is_ascii_letter_char('é') && !is_ascii_letter_char('['));
}

#[test]
fn safe_names_are_relative_and_never_climb() {
    assert!(is_safe_entry_name("a/b.txt"));
    assert!(is_safe_entry_name("a/..b/c"));
    assert!(is_safe_entry_name("a/b../c"));
    assert!(is_safe_entry_name("..."));
    assert!(is_safe_entry_name(""));
    assert!(!is_safe_entry_name(".."));
    assert!(!is_safe_entry_name("../x"));
    assert!(!is_safe_entry_name("a/../x"));
    assert!(!is_safe_entry_name("a/.."));
    assert!(!is_safe_entry_name("a\\..\\x"));
    assert!(!is_safe_entry_name("/abs"));
    assert!(!is_safe_entry_name("\\abs"));
    assert!(!is_safe_entry_name("C:\\x"));
    assert!(!is_safe_entry_name("c:/x"));
    assert!(is_safe_entry_name("a:b.txt"));
    assert!(is_safe_entry_name("C:"));
    assert!(is_safe_entry_name("1:/x"));
    assert!(is_safe_entry_name("é:/x"));
    assert!(is_safe_entry_name("notes/12:30.txt"));
}


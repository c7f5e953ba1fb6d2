use file_architect::error::Error;
use file_architect::listing::{
    arrange_entries, entry_le, is_hidden_name, read_directory_contents,
    read_directory_structure, sort_listing, DirectoryEntry, DirectoryRead, FileInfo, RawEntry,
    RawKind,
};

fn found(name: &str, kind: RawKind) -> RawEntry {
    RawEntry::Found { name: name.to_string(), kind }
}

fn dir(name: &str) -> DirectoryEntry {
    DirectoryEntry { name: name.to_string(), is_directory: true }
}

fn file(name: &str) -> DirectoryEntry {
    DirectoryEntry { name: name.to_string(), is_directory: false }
}

#[test]
fn directories_come_first_and_each_group_is_sorted() {
    let read = DirectoryRead::Entries(vec![
        found("zeta.txt", RawKind::Other),
        found("src", RawKind::Directory),
        found("alpha.txt", RawKind::Other),
        found(".git", RawKind::Directory),
        found("docs", RawKind::Directory),
        found(".env", RawKind::Other),
        found("Makefile", RawKind::Other),
    ]);
    assert_eq!(
        read_directory_structure("/project", &read),
        Ok(vec![dir("docs"), dir("src"), file("Makefile"), file("alpha.txt"), file("zeta.txt")])
    );
}

#[test]
fn order_is_by_code_point_not_by_alphabet() {
    let read = DirectoryRead::Entries(vec![
        found("b", RawKind::Other),
        found("B", RawKind::Other),
        found("a", RawKind::Other),
        found("ab", RawKind::Other),
        found("é", RawKind::Other),
        found("z", RawKind::Other),
        found("10", RawKind::Other),
        found("9", RawKind::Other),
        found("", RawKind::Other),
    ]);
    let names: Vec<String> = read_directory_structure("d", &read)
        .unwrap()
        .into_iter()
        .map(|e| e.name)
        .collect();
    assert_eq!(names, vec!["", "10", "9", "B", "a", "ab", "b", "z", "é"]);
}

#[test]
fn listing_agrees_with_a_stable_sort_of_the_visible_children() {
    let names = [
        "m", "b", ".h", "zz", "a", "k", "c", "y", "x", "w", "d", "e", "q", ".x", "f", "g", "mm",
        "ma", "b2", "B", "0", "~", "_", "aa", "ab", "ba",
    ];
    let mut raw = Vec::new();
    let mut expected = Vec::new();
    for (i, name) in names.iter().enumerate() {
        let is_directory = i % 3 == 0;
        raw.push(found(name, if is_directory { RawKind::Directory } else { RawKind::Other }));
        if !name.starts_with('.') {
            expected.push(DirectoryEntry { name: name.to_string(), is_directory });
        }
    }
    expected.sort_by(|a, b| match (a.is_directory, b.is_directory) {
        (true, false) => std::cmp::Ordering::Less,
        (false, true) => std::cmp::Ordering::Greater,
        _ => a.name.cmp(&b.name),
    });
    assert_eq!(arrange_entries(&raw), Ok(expected));
}

#[test]
fn names_within_a_kind_are_strictly_ascending() {
    let names = ["b", "a", "ab", "B", "c.txt", "c", "é", "~", "10", "2"];
    let mut raw = Vec::new();
    for (i, name) in names.iter().enumerate() {
        raw.push(found(name, if i % 2 == 0 { RawKind::Directory } else { RawKind::Other }));
    }
    let listing = arrange_entries(&raw).unwrap();
    assert_eq!(listing.len(), names.len());
    for pair in listing.windows(2) {
        if pair[0].is_directory == pair[1].is_directory {
            assert!(pair[0].name < pair[1].name);
        } else {
            assert!(pair[0].is_directory && !pair[1].is_directory);
        }
    }
}

#[test]
fn missing_path_is_not_found() {
    assert_eq!(
        read_directory_structure("/no/such/place", &DirectoryRead::Missing),
        Err(Error::NotFound("/no/such/place".to_string()))
    );
    assert_eq!(
        read_directory_contents("/no/such/place", &DirectoryRead::Missing),
        Err(Error::NotFound("/no/such/place".to_string()))
    );
}

#[test]
fn regular_file_is_not_a_directory() {
    assert_eq!(
        read_directory_structure("/etc/hosts", &DirectoryRead::NotADirectory),
        Err(Error::NotADirectory("/etc/hosts".to_string()))
    );
    assert_eq!(
        read_directory_contents("/etc/hosts", &DirectoryRead::NotADirectory),
        Err(Error::NotADirectory("/etc/hosts".to_string()))
    );
}

#[test]
fn directory_that_cannot_be_opened_reports_the_cause() {
    let read = DirectoryRead::Failed("Input/output error (os error 5)".to_string());
    assert_eq!(
        read_directory_structure("/mnt/disk", &read),
        Err(Error::IOError("Input/output error (os error 5)".to_string()))
    );
}

#[test]
fn directory_that_refuses_access_is_denied() {
    assert_eq!(
        read_directory_structure("/root", &DirectoryRead::Denied),
        Err(Error::PermissionDenied("/root".to_string()))
    );
    assert_eq!(
        read_directory_contents("/root", &DirectoryRead::Denied),
        Err(Error::PermissionDenied("/root".to_string()))
    );
}

#[test]
fn unreadable_children_are_skipped() {
    let read = DirectoryRead::Entries(vec![
        RawEntry::Unreadable,
        found("b", RawKind::Other),
        RawEntry::Unreadable,
        found("a", RawKind::Directory),
    ]);
    assert_eq!(read_directory_structure("d", &read), Ok(vec![dir("a"), file("b")]));
}

#[test]
fn first_visible_child_of_unknown_kind_fails_the_listing() {
    let read = DirectoryRead::Entries(vec![
        found("a", RawKind::Other),
        found(".hidden", RawKind::Unknown("ignored".to_string())),
        found("b", RawKind::Unknown("first cause".to_string())),
        found("c", RawKind::Unknown("second cause".to_string())),
    ]);
    assert_eq!(
        read_directory_structure("d", &read),
        Err(Error::IOError("first cause".to_string()))
    );
}

#[test]
fn hidden_child_of_unknown_kind_does_no_harm() {
    let read = DirectoryRead::Entries(vec![
        found(".hidden", RawKind::Unknown("ignored".to_string())),
        found("a", RawKind::Other),
    ]);
    assert_eq!(read_directory_structure("d", &read), Ok(vec![file("a")]));
}

#[test]
fn empty_directory_lists_nothing() {
    assert_eq!(read_directory_structure("d", &DirectoryRead::Entries(Vec::new())), Ok(Vec::new()));
    assert_eq!(read_directory_contents("d", &DirectoryRead::Entries(Vec::new())), Ok(Vec::new()));
}

#[test]
fn extended_listing_has_the_same_rows_with_fixed_hints() {
    let read = DirectoryRead::Entries(vec![
        found("notes.md", RawKind::Other),
        found(".cache", RawKind::Directory),
        found("img", RawKind::Directory),
    ]);
    assert_eq!(
        read_directory_contents("d", &read),
        Ok(vec![
            FileInfo { name: "img".to_string(), indent: 0, exists: true, is_directory: true },
            FileInfo { name: "notes.md".to_string(), indent: 0, exists: true, is_directory: false },
        ])
    );
}

#[test]
fn same_name_twice_is_kept_twice() {
    let read = DirectoryRead::Entries(vec![
        found("a", RawKind::Other),
        found("a", RawKind::Directory),
        found("a", RawKind::Other),
    ]);
    assert_eq!(read_directory_structure("d", &read), Ok(vec![dir("a"), file("a"), file("a")]));
}

#[test]
fn hidden_names_begin_with_a_dot() {
    assert!(is_hidden_name(".git"));
    assert!(is_hidden_name("."));
    assert!(!is_hidden_name("a.b"));
    assert!(!is_hidden_name(""));
}

#[test]
fn entries_compare_by_kind_then_name() {
    assert!(entry_le(&dir("z"), &file("a")));
    assert!(!entry_le(&file("a"), &dir("z")));
    assert!(entry_le(&file("a"), &file("a")));
    assert!(entry_le(&file("a"), &file("ab")));
    assert!(!entry_le(&file("b"), &file("ab")));
    assert!(entry_le(&dir("B"), &dir("a")));
}

#[test]
fn sort_orders_any_listing() {
    assert_eq!(sort_listing(Vec::new()), Vec::new());
    assert_eq!(sort_listing(vec![file("a")]), vec![file("a")]);
    assert_eq!(sort_listing(vec![file("a"), dir("a")]), vec![dir("a"), file("a")]);
    assert_eq!(
        sort_listing(vec![file("c"), dir("d"), file("a"), dir("b"), file("b")]),
        vec![dir("b"), dir("d"), file("a"), file("b"), file("c")]
    );
    let mut entries = Vec::new();
    let mut state: u64 = 7;
    for _ in 0..500 {
        state = state.wrapping_mul(6364136223846793005).wrapping_add(1442695040888963407);
        let name = format!("n{}", (state >> 33) % 97);
        entries.push(DirectoryEntry { name, is_directory: (state >> 20) % 2 == 0 });
    }
    let mut expected = entries.clone();
    expected.sort_by(|a, b| match (a.is_directory, b.is_directory) {
        (true, false) => std::cmp::Ordering::Less,
        (false, true) => std::cmp::Ordering::Greater,
        _ => a.name.cmp(&b.name),
    });
    assert_eq!(sort_listing(entries), expected);
}

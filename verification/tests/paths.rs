use std::path::Path;

use file_architect::paths::{
    expand_path, expand_tilde_path, expand_with_home, extension_dot, file_extension, file_stem,
    find_last_dot, is_separator_char, join,
};

fn std_join(base: &str, rest: &str) -> String {
    Path::new(base).join(rest).to_string_lossy().into_owned()
}

#[test]
fn marker_alone_is_the_home_directory() {
    assert_eq!(expand_with_home("~", Some("/home/alice")), "/home/alice");
}

#[test]
fn marker_with_remainder_is_home_joined_with_it() {
    assert_eq!(expand_with_home("~/notes", Some("/home/alice")), "/home/alice/notes");
    assert_eq!(expand_with_home("~/a/b c/d.txt", Some("/home/alice")), "/home/alice/a/b c/d.txt");
    assert_eq!(expand_with_home("~/", Some("/home/alice")), "/home/alice/");
}

#[test]
fn absolute_path_is_unchanged() {
    assert_eq!(expand_with_home("/abs/path", Some("/home/alice")), "/abs/path");
    assert_eq!(expand_with_home("/abs/path", None), "/abs/path");
    assert_eq!(expand_path("/abs/path".to_string()), "/abs/path");
    assert_eq!(expand_tilde_path("relative/~/x"), "relative/~/x");
    assert_eq!(expand_tilde_path(""), "");
}

#[test]
fn without_home_the_path_stays_as_typed() {
    assert_eq!(expand_with_home("~", None), "~");
    assert_eq!(expand_with_home("~/notes", None), "~/notes");
}

#[test]
fn marker_followed_by_another_character_is_left_alone() {
    assert_eq!(expand_with_home("~notes", Some("/home/alice")), "~notes");
    assert_eq!(expand_with_home("~ab", Some("/home/u")), "~ab");
    assert_eq!(expand_with_home("~bob/notes", Some("/home/alice")), "~bob/notes");
    assert_eq!(expand_with_home("~é/x", Some("/home/alice")), "~é/x");
    assert_eq!(expand_with_home("~~", Some("/home/alice")), "~~");
    assert_eq!(expand_with_home("a~/b", Some("/home/alice")), "a~/b");
}

#[test]
fn either_separator_may_follow_the_marker() {
    assert_eq!(expand_with_home("~\\notes", Some("/home/alice")), "/home/alice/notes");
    assert_eq!(expand_with_home("~/é/x", Some("/home/alice")), "/home/alice/é/x");
}

#[test]
fn remainder_that_starts_at_the_root_replaces_home() {
    assert_eq!(expand_with_home("~//etc/hosts", Some("/home/alice")), "/etc/hosts");
}

#[test]
fn expansion_on_this_machine_uses_the_home_directory() {
    match dirs::home_dir() {
        Some(home) => {
            let home = home.to_string_lossy().into_owned();
            assert_eq!(expand_tilde_path("~"), home);
            assert_eq!(expand_path("~".to_string()), home);
            assert_eq!(expand_tilde_path("~/notes"), std_join(&home, "notes"));
            assert_eq!(expand_path("~/notes".to_string()), expand_with_home("~/notes", Some(&home)));
        }
        None => {
            assert_eq!(expand_tilde_path("~"), "~");
            assert_eq!(expand_tilde_path("~/notes"), "~/notes");
        }
    }
}

#[test]
fn join_puts_one_separator_between() {
    assert_eq!(join("a", "b"), "a/b");
    assert_eq!(join("a/", "b"), "a/b");
    assert_eq!(join("", "b"), "b");
    assert_eq!(join("a", ""), "a/");
    assert_eq!(join("", ""), "");
    assert_eq!(join("a", "/b"), "/b");
    assert_eq!(join("/", "b"), "/b");
    assert_eq!(join("a//", "b/c/"), "a//b/c/");
}

#[test]
fn join_agrees_with_the_platform_on_unix() {
    if std::path::MAIN_SEPARATOR == '/' {
        let parts = ["", "a", "a/", "/", "/a", "a/b", "a//", "..", ".", "é", "a b"];
        for base in parts {
            for rest in parts {
                assert_eq!(join(base, rest), std_join(base, rest));
            }
        }
    }
}

#[test]
fn stem_and_extension_split_at_the_last_dot() {
    assert_eq!(file_stem("a.txt"), "a");
    assert_eq!(file_extension("a.txt"), Some("txt".to_string()));
    assert_eq!(file_stem("archive.tar.gz"), "archive.tar");
    assert_eq!(file_extension("archive.tar.gz"), Some("gz".to_string()));
    assert_eq!(file_stem("a."), "a");
    assert_eq!(file_extension("a."), Some(String::new()));
}

#[test]
fn names_without_an_extension_are_their_own_stem() {
    assert_eq!(file_stem("Makefile"), "Makefile");
    assert_eq!(file_extension("Makefile"), None);
    assert_eq!(file_stem(".gitignore"), ".gitignore");
    assert_eq!(file_extension(".gitignore"), None);
    assert_eq!(file_stem(".."), "..");
    assert_eq!(file_extension(".."), None);
    assert_eq!(file_stem("."), ".");
    assert_eq!(file_extension("."), None);
    assert_eq!(file_stem(""), "");
    assert_eq!(file_extension(""), None);
}

#[test]
fn stem_and_extension_agree_with_the_platform() {
    let names = [
        "a.txt", "archive.tar.gz", "a.", "Makefile", ".gitignore", ".a.b", "...", "a..b", "é.txt",
        "x.é", " .txt", "Web Project.txt", ".defaults_initialized", "..txt",
    ];
    for name in names {
        let path = Path::new(name);
        let stem = path.file_stem().map(|s| s.to_string_lossy().into_owned());
        let extension = path.extension().map(|s| s.to_string_lossy().into_owned());
        assert_eq!(Some(file_stem(name)), stem);
        assert_eq!(file_extension(name), extension);
    }
}

#[test]
fn last_dot_is_found_from_the_end() {
    assert_eq!(find_last_dot(&"a.b.c".chars().collect()), Some(3));
    assert_eq!(find_last_dot(&".".chars().collect()), Some(0));
    assert_eq!(find_last_dot(&"abc".chars().collect()), None);
    assert_eq!(find_last_dot(&Vec::new()), None);
    assert_eq!(extension_dot("é.é.txt"), Some(3));
    assert_eq!(extension_dot(".hidden"), None);
    assert_eq!(extension_dot(".."), None);
}

#[test]
fn both_slashes_separate_components() {
    assert!(is_separator_char('/'));
    assert!(is_separator_char('\\'));
    assert!(!is_separator_char('.'));
    assert!(!is_separator_char(':'));
}

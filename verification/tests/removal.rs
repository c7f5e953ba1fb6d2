use file_architect::error::Error;
use file_architect::removal::{remove_path, RemovalAction};
use file_architect::status::{path_status, require_directory, require_existing, PathStatus};

#[test]
fn missing_path_needs_no_removal() {
    assert_eq!(remove_path(PathStatus::Missing, false), RemovalAction::Nothing);
    assert_eq!(remove_path(PathStatus::Missing, true), RemovalAction::Nothing);
}

#[test]
fn file_is_removed_whatever_the_flag() {
    assert_eq!(remove_path(PathStatus::File, false), RemovalAction::RemoveFile);
    assert_eq!(remove_path(PathStatus::File, true), RemovalAction::RemoveFile);
}

#[test]
fn directory_is_removed_with_its_contents_only_when_asked() {
    assert_eq!(remove_path(PathStatus::Directory, true), RemovalAction::RemoveTree);
    assert_eq!(remove_path(PathStatus::Directory, false), RemovalAction::RemoveDirectory);
}

#[test]
fn status_follows_the_two_probes() {
    assert_eq!(path_status(false, false), PathStatus::Missing);
    assert_eq!(path_status(false, true), PathStatus::Missing);
    assert_eq!(path_status(true, false), PathStatus::File);
    assert_eq!(path_status(true, true), PathStatus::Directory);
}

#[test]
fn existing_path_is_required() {
    assert_eq!(require_existing("p", PathStatus::Missing), Err(Error::NotFound("p".to_string())));
    assert_eq!(require_existing("p", PathStatus::File), Ok(()));
    assert_eq!(require_existing("p", PathStatus::Directory), Ok(()));
}

#[test]
fn directory_is_required() {
    assert_eq!(require_directory("p", PathStatus::Missing), Err(Error::NotFound("p".to_string())));
    assert_eq!(require_directory("p", PathStatus::File), Err(Error::NotADirectory("p".to_string())));
    assert_eq!(require_directory("p", PathStatus::Directory), Ok(()));
}

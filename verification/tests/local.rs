use git_crev::error::StageError;
use git_crev::local::{exclude_addition, Local};

#[test]
fn exclusion_is_added_where_it_is_missing() {
    assert_eq!(exclude_addition(""), Some(".crev\n".to_string()));
    assert_eq!(exclude_addition("# comment\n*.o\n"), Some(".crev\n".to_string()));
    assert_eq!(exclude_addition(".crevice\n"), Some(".crev\n".to_string()));
    assert_eq!(exclude_addition("/.crev\n"), Some(".crev\n".to_string()));
}

#[test]
fn exclusion_is_not_added_twice() {
    assert_eq!(exclude_addition(".crev\n"), None);
    assert_eq!(exclude_addition("*.o\n.crev\n"), None);
    assert_eq!(exclude_addition("*.o\n  .crev  \r\ntarget\n"), None);
    assert_eq!(exclude_addition(".crev"), None);
    let before = "# comment\n*.o\n".to_string();
    let after = format!("{}{}", before, exclude_addition(&before).unwrap());
    assert_eq!(after, "# comment\n*.o\n.crev\n");
    assert_eq!(exclude_addition(&after), None);
}

#[test]
fn opening_gives_a_repository_or_one_of_two_failures() {
    match Local::new() {
        Ok(local) => {
            assert!(local.root_path.ends_with(".crev"));
            assert!(local.index_path.ends_with(".crev/index"));
            assert!(local.exclude_path().ends_with("info/exclude"));
        }
        Err(StageError::NotARepository) | Err(StageError::NoWorkingDirectory) => {}
        Err(other) => panic!("{:?}", other),
    }
}

fn repository_at(name: &str) -> (git2::Repository, String) {
    let nanos = std::time::SystemTime::now()
        .duration_since(std::time::UNIX_EPOCH)
        .map(|d| d.as_nanos())
        .unwrap_or(0);
    let path = format!("/tmp/git_crev_{}_{}", name, nanos);
    (git2::Repository::init(&path).unwrap(), path)
}

#[test]
fn staging_state_is_placed_inside_the_working_directory() {
    let (repository, _path) = repository_at("placed");
    let local = Local::at(repository, Some(std::path::PathBuf::from("/work/tree"))).unwrap();
    assert_eq!(local.root_path, std::path::PathBuf::from("/work/tree/.crev"));
    assert_eq!(local.index_path, std::path::PathBuf::from("/work/tree/.crev/index"));
}

#[test]
fn repository_without_working_directory_is_refused() {
    let (repository, _path) = repository_at("bare");
    assert!(matches!(Local::at(repository, None), Err(StageError::NoWorkingDirectory)));
}

#[test]
fn exclude_file_lies_in_the_info_directory_of_the_repository() {
    let (repository, path) = repository_at("exclude");
    let expected = repository.path().join("info").join("exclude");
    let local = Local::at(repository, Some(std::path::PathBuf::from(&path))).unwrap();
    assert_eq!(local.exclude_path(), expected);
    assert!(local.exclude_path().ends_with(".git/info/exclude"));
    assert_eq!(local.root_path, std::path::PathBuf::from(&path).join(".crev"));
}

#[test]
fn exclusion_starts_a_line_of_its_own_where_the_file_stops_mid_line() {
    assert_eq!(exclude_addition("*.o"), Some("\n.crev\n".to_string()));
    assert_eq!(exclude_addition("# comment\n*.o"), Some("\n.crev\n".to_string()));
    assert_eq!(exclude_addition(".cre"), Some("\n.crev\n".to_string()));
    let before = "# comment\n*.o".to_string();
    let after = format!("{}{}", before, exclude_addition(&before).unwrap());
    assert_eq!(after, "# comment\n*.o\n.crev\n");
    assert_eq!(after.lines().filter(|line| line.trim() == ".crev").count(), 1);
    assert_eq!(after.lines().nth(1), Some("*.o"));
    assert_eq!(exclude_addition(&after), None);
}

#[test]
fn exclusion_on_an_empty_file_is_the_line_alone() {
    let after = exclude_addition("").unwrap();
    assert_eq!(after, ".crev\n");
    assert_eq!(exclude_addition(&after), None);
}

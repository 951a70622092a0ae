use forest::roots::clone::{call as clone_call, target};
use forest::roots::get::call as get_call;
use forest::roots::list::{call as list_call, DirEntry};
use forest::roots::RootsError;
use forest::utils::git::{CmdOutput, GitError};

fn dir_entry(name: &str, is_dir: bool) -> DirEntry {
    DirEntry { name: name.to_string(), is_dir }
}

#[test]
fn test_enter_existing_root() {
    let roots_dir = String::from("/tmp/roots");

    let result = get_call(&roots_dir, "test-repo", true).unwrap();
    assert_eq!(result.name, "test-repo");
    assert_eq!(result.path, "/tmp/roots/test-repo");
}

#[test]
fn test_enter_nonexistent_root() {
    let roots_dir = String::from("/tmp/roots");

    let result = get_call(&roots_dir, "nonexistent-repo", false);
    assert!(result.is_err());
    assert!(
        result
            .unwrap_err()
            .message()
            .contains("Root 'nonexistent-repo' does not exist")
    );
}

#[test]
fn root_not_found_message_exact() {
    let err = RootsError::DoesNotExist { root: "x".to_string() };

    assert_eq!(err.message(), "Root 'x' does not exist");
}

#[test]
fn test_list_run_with_empty_directory() {
    let result = list_call("/tmp/roots", &Vec::new());

    assert!(result.is_empty());
}

#[test]
fn test_list_run_with_filled_directory() {
    let entries = vec![dir_entry("test-repo1", true), dir_entry("test-repo2", true)];

    let result = list_call("/tmp/roots", &entries);

    assert_eq!(result.len(), 2);
    assert_eq!(result[0].name, "test-repo1");
    assert_eq!(result[0].path, "/tmp/roots/test-repo1");
    assert_eq!(result[1].name, "test-repo2");
    assert_eq!(result[1].path, "/tmp/roots/test-repo2");
}

#[test]
fn roots_list_sorts_and_skips_files() {
    let entries = vec![
        dir_entry("zeta", true),
        dir_entry("a-file.txt", false),
        dir_entry("alpha", true),
        dir_entry("mid", true),
    ];

    let result = list_call("/r", &entries);

    assert_eq!(result.len(), 3);
    assert_eq!(result[0].name, "alpha");
    assert_eq!(result[1].name, "mid");
    assert_eq!(result[2].name, "zeta");
}

#[test]
fn clone_target_derives_name() {
    let root = target("/tmp/roots", "https://github.com/tcione/test-repo.git");

    assert_eq!(root.name, "test-repo");
    assert_eq!(root.path, "/tmp/roots/test-repo");
}

#[test]
fn clone_target_without_suffix() {
    let root = target("/tmp/roots", "https://example.com/group/project");

    assert_eq!(root.name, "project");
    assert_eq!(root.path, "/tmp/roots/project");
}

#[test]
fn test_clone_with_invalid_url() {
    let output = CmdOutput {
        ok: false,
        stdout: String::new(),
        stderr: "fatal: repository 'invalid-url' does not exist\n".to_string(),
    };
    let result = clone_call("/tmp/roots", "invalid-url".to_string(), &output);
    let err = result.unwrap_err();

    assert!(err.message().contains("repository 'invalid-url' does not exist"));
}

#[test]
fn test_clone_repo() {
    let output = CmdOutput { ok: true, stdout: String::new(), stderr: String::new() };
    let result =
        clone_call("/tmp/roots", "https://github.com/tcione/test-repo.git".to_string(), &output)
            .unwrap();

    assert_eq!(result.name, "test-repo");
    assert_eq!(result.path, "/tmp/roots/test-repo");
}

#[test]
fn clone_failure_names_the_clone_command() {
    let output = CmdOutput {
        ok: false,
        stdout: String::new(),
        stderr: "boom".to_string(),
    };
    let err = clone_call("/r", "a/b.git".to_string(), &output).unwrap_err();

    match err {
        GitError::CommandFailed { command, base_dir, stderr } => {
            assert_eq!(command, "clone");
            assert_eq!(base_dir, "/r/b");
            assert_eq!(stderr, "boom");
        },
        _ => panic!("unexpected error"),
    }
}

use forest::utils::git::{CmdOutput, Git, GitError};

fn ok_output(stdout: &str) -> CmdOutput {
    CmdOutput { ok: true, stdout: stdout.to_string(), stderr: String::new() }
}

fn failed_output(stderr: &str) -> CmdOutput {
    CmdOutput { ok: false, stdout: String::new(), stderr: stderr.to_string() }
}

#[test]
fn test_git_new() {
    let repo_path = String::from("/tmp/somewhere/test-repo");
    let git = Git::new(&repo_path);

    assert_eq!(git.base_dir, repo_path);
}

#[test]
fn test_parsed_output_success() {
    let git = Git::new(&String::from("/tmp/repo"));
    let output = ok_output("test output");
    let result = git.parsed_output("test", &output).unwrap();

    assert_eq!(result.stdout, "test output");
}

#[test]
fn test_parsed_output_failure() {
    let git = Git::new(&String::from("/tmp/repo"));
    let output = failed_output("error message");
    let result = git.parsed_output("test", &output);

    assert!(result.is_err());
    if let Err(GitError::CommandFailed { command, stderr, .. }) = result {
        assert_eq!(command, "test");
        assert_eq!(stderr, "error message");
    }
}

#[test]
fn command_failed_message_names_everything() {
    let git = Git::new(&String::from("/tmp/repo"));
    let err = git.parsed_output("pull", &failed_output("boom")).unwrap_err();

    assert_eq!(err.message(), "Command 'pull' failed in '/tmp/repo': boom");
}

#[test]
fn test_latest_default_no_remotes() {
    let git = Git::new(&String::from("/tmp/repo"));
    let unused = ok_output("");
    let result = git.latest_default(true, &unused).unwrap();

    assert_eq!(result.stdout, "Nop. Local only repo".to_string());
}

#[test]
fn test_latest_default_remote() {
    let git = Git::new(&String::from("/tmp/repo"));
    let result = git.latest_default(false, &ok_output("Already up to date.\n")).unwrap();

    assert!(result.stdout.contains("Already up to date"));
}

#[test]
fn is_local_only_reads_remote_listing() {
    let git = Git::new(&String::from("/tmp/repo"));

    assert!(git.is_local_only(&ok_output("  \n")).unwrap());
    assert!(!git.is_local_only(&ok_output("origin\n")).unwrap());

    let err = git.is_local_only(&failed_output("not a git repository")).unwrap_err();
    assert!(matches!(err, GitError::CommandFailed { .. }));
}

#[test]
fn test_default_branch_local_main() {
    let git = Git::new(&String::from("/tmp/repo"));
    let listing = ok_output("* main\n");
    let result = git.default_branch(true, &listing).unwrap();

    assert_eq!(result, "main");
}

#[test]
fn test_default_branch_local_master() {
    let git = Git::new(&String::from("/tmp/repo"));
    let listing = ok_output("* master\n");
    let result = git.default_branch(true, &listing).unwrap();

    assert_eq!(result, "master");
}

#[test]
fn default_branch_prefers_main_over_master() {
    let git = Git::new(&String::from("/tmp/repo"));
    let listing = ok_output("  master\n* main\n  other\n");
    let result = git.default_branch(true, &listing).unwrap();

    assert_eq!(result, "main");
}

#[test]
fn test_default_branch_local_unconventional() {
    let git = Git::new(&String::from("/tmp/repo"));
    let listing = ok_output("* unconventional-main-branch\n");
    let result = git.default_branch(true, &listing);

    assert!(result.is_err());
    assert!(matches!(result.unwrap_err(), GitError::UndefinedDefaultBranch));
}

#[test]
fn default_branch_local_develop_fails() {
    let git = Git::new(&String::from("/tmp/repo"));
    let listing = ok_output("* develop\n");
    let result = git.default_branch(true, &listing);

    assert!(matches!(result.unwrap_err(), GitError::UndefinedDefaultBranch));
}

#[test]
fn test_default_branch_remote() {
    let git = Git::new(&String::from("/tmp/repo"));
    let symref = ok_output("refs/remotes/origin/main\n");
    let result = git.default_branch(false, &symref).unwrap();

    assert!(result == "main");
}

#[test]
fn default_branch_remote_malformed_ref_fails() {
    let git = Git::new(&String::from("/tmp/repo"));
    let symref = ok_output("refs/heads/main\n");
    let result = git.default_branch(false, &symref);

    assert!(matches!(result.unwrap_err(), GitError::UndefinedDefaultBranch));
}

#[test]
fn undefined_default_branch_message() {
    let err = GitError::UndefinedDefaultBranch;

    assert_eq!(err.message(), "Impossible to identify a default branch");
}

#[test]
fn test_clone_success() {
    let git = Git::new(&String::from("/tmp/clone-target"));
    let result = git.clone(&ok_output(""));

    assert!(result.is_ok());
}

#[test]
fn test_clone_invalid_repo() {
    let git = Git::new(&String::from("/tmp/clone-target"));
    let result = git.clone(&failed_output("fatal: repository 'invalid-repo-url' does not exist\n"));

    assert!(result.is_err());
}

#[test]
fn test_add_worktree_success() {
    let git = Git::new(&String::from("/tmp/repo"));
    let result = git.add_worktree(&ok_output("Preparing worktree (new branch 'feature-branch')\n"));

    assert!(result.is_ok());
}

#[test]
fn test_add_worktree_duplicate_branch() {
    let git = Git::new(&String::from("/tmp/repo"));
    let result = git.add_worktree(&failed_output(
        "fatal: a branch named 'duplicate-branch' already exists\n",
    ));

    assert!(result.is_err());
    if let Err(GitError::CommandFailed { stderr, .. }) = result {
        assert!(stderr.contains("already exists"));
    }
}

#[test]
fn test_remove_worktree_success() {
    let git = Git::new(&String::from("/tmp/repo"));
    let result = git.remove_worktree(&ok_output(""));

    assert!(result.is_ok());
}

#[test]
fn test_remove_worktree_nonexistent() {
    let git = Git::new(&String::from("/tmp/repo"));
    let result = git.remove_worktree(&failed_output(
        "fatal: '/tmp/nonexistent-worktree' is not a working tree\n",
    ));

    assert!(result.is_err());
    if let Err(GitError::CommandFailed { stderr, .. }) = result {
        assert!(stderr.contains("not a working tree"));
    }
}

#[test]
fn test_delete_branch_success() {
    let git = Git::new(&String::from("/tmp/repo"));
    let result = git.delete_branch(&ok_output("Deleted branch test-branch\n"));

    assert!(result.is_ok());
}

#[test]
fn test_delete_branch_nonexistent() {
    let git = Git::new(&String::from("/tmp/repo"));
    let result = git.delete_branch(&failed_output("error: branch 'nonexistent-branch' not found\n"));

    assert!(result.is_err());
    if let Err(GitError::CommandFailed { stderr, .. }) = result {
        assert!(stderr.contains("not found"));
    }
}

#[test]
fn test_delete_branch_current() {
    let git = Git::new(&String::from("/tmp/repo"));
    let result = git.delete_branch(&failed_output(
        "error: cannot delete branch 'main' used by worktree at '/tmp/repo'\n",
    ));

    assert!(result.is_err());
    if let Err(GitError::CommandFailed { stderr, .. }) = result {
        assert!(stderr.contains("cannot delete branch"));
    }
}

use forest::roots::Root;
use forest::trees::exec::call as exec_call;
use forest::trees::get::call as get_call;
use forest::trees::list::{call as list_call, git_root_trees, RootListing};
use forest::trees::{RootTrees, Tree};
use forest::utils::git::{CmdOutput, GitError};

fn ok_output(stdout: &str) -> CmdOutput {
    CmdOutput { ok: true, stdout: stdout.to_string(), stderr: String::new() }
}

fn failed_output(stderr: &str) -> CmdOutput {
    CmdOutput { ok: false, stdout: String::new(), stderr: stderr.to_string() }
}

/// A local-only root whose listing holds its default checkout plus the
/// given worktree records.
fn local_input(name: &str, porcelain: &str) -> RootListing {
    RootListing {
        root: Root { name: name.to_string(), path: format!("/base/roots/{}", name) },
        remotes: ok_output(""),
        branches: ok_output("* main\n"),
        symref: failed_output("fatal: ref refs/remotes/origin/HEAD is not a symbolic ref\n"),
        worktrees: ok_output(porcelain),
    }
}

fn tree(name: &str, path: &str, branch: &str, head: &str) -> Tree {
    Tree {
        name: name.to_string(),
        path: path.to_string(),
        branch: branch.to_string(),
        head: head.to_string(),
    }
}

#[test]
fn test_run_without_root_filter() {
    let repo1_listing = [
        "worktree /base/roots/repo1\n",
        "HEAD abc111\n",
        "branch refs/heads/main\n",
        "\n",
        "worktree /base/trees/repo1--feature\n",
        "HEAD abc123\n",
        "branch refs/heads/feature\n",
    ]
    .concat();
    let repo2_listing = [
        "worktree /base/roots/repo2\n",
        "HEAD def111\n",
        "branch refs/heads/main\n",
        "\n",
        "worktree /base/trees/repo2--fix--a-bug\n",
        "HEAD def456\n",
        "branch refs/heads/fix/a-bug\n",
    ]
    .concat();
    let inputs = vec![local_input("repo1", &repo1_listing), local_input("repo2", &repo2_listing)];

    let result = list_call(&inputs, &None).unwrap();

    assert_eq!(result.len(), 2);

    assert_eq!(result[0].root, "repo1");
    assert_eq!(result[0].trees.len(), 1);
    assert_eq!(result[0].trees[0].name, "repo1--feature");
    assert!(result[0].trees[0].path.ends_with("trees/repo1--feature"));
    assert_eq!(result[0].trees[0].branch, "feature");
    assert!(!result[0].trees[0].head.is_empty());

    assert_eq!(result[1].root, "repo2");
    assert_eq!(result[1].trees.len(), 1);
    assert_eq!(result[1].trees[0].name, "repo2--fix--a-bug");
    assert!(result[1].trees[0].path.ends_with("trees/repo2--fix--a-bug"));
    assert_eq!(result[1].trees[0].branch, "fix/a-bug");
    assert!(!result[1].trees[0].head.is_empty());
}

#[test]
fn test_run_with_root_filter() {
    let bare = "worktree /base/roots/repo1\nHEAD abc111\nbranch refs/heads/main\n";
    let bare2 = "worktree /base/roots/repo2\nHEAD def111\nbranch refs/heads/main\n";
    let inputs = vec![local_input("repo1", bare), local_input("repo2", bare2)];

    let result = list_call(&inputs, &Some("repo1".to_string())).unwrap();

    assert_eq!(result.len(), 1);
    assert_eq!(result[0].root, "repo1");
    assert_eq!(result[0].trees.len(), 0);
}

#[test]
fn trees_list_empty_roots() {
    let result = list_call(&Vec::new(), &None).unwrap();

    assert!(result.is_empty());
}

#[test]
fn trees_list_missing_filtered_root() {
    let result = list_call(&Vec::new(), &Some("ghost".to_string())).unwrap();

    assert_eq!(result.len(), 1);
    assert_eq!(result[0].root, "ghost");
    assert!(result[0].trees.is_empty());
}

#[test]
fn trees_list_propagates_remote_error() {
    let mut input = local_input("repo1", "");
    input.remotes = failed_output("not a git repository");

    let err = list_call(&vec![input], &None).unwrap_err();

    match err {
        GitError::CommandFailed { command, base_dir, stderr } => {
            assert_eq!(command, "remote");
            assert_eq!(base_dir, "/base/roots/repo1");
            assert!(stderr.contains("not a git repository"));
        },
        _ => panic!("unexpected error"),
    }
}

#[test]
fn trees_list_propagates_undefined_default_branch() {
    let mut input = local_input("repo1", "");
    input.branches = ok_output("* develop\n");

    let err = list_call(&vec![input], &None).unwrap_err();

    assert!(matches!(err, GitError::UndefinedDefaultBranch));
}

#[test]
fn git_root_trees_tolerates_failure() {
    let ok = ok_output("worktree /x\n");
    let bad = failed_output("fatal: not a git repository");

    assert_eq!(git_root_trees(&ok), "worktree /x\n");
    assert_eq!(git_root_trees(&bad), "");
}

fn sample_listing() -> Vec<RootTrees> {
    vec![RootTrees {
        root: "test-repo".to_string(),
        trees: vec![tree(
            "test-repo--feature",
            "/base/trees/test-repo--feature",
            "feature",
            "abc123",
        )],
    }]
}

#[test]
fn get_test_root_does_not_exist() {
    let listing: Vec<RootTrees> = Vec::new();

    let result = get_call(&listing, "nonexistent-root", "some-tree");

    assert!(result.is_err());
    assert!(result.unwrap_err().message().contains("Root 'nonexistent-root' not found"));
}

#[test]
fn get_test_tree_does_not_exist_empty_trees() {
    let listing = vec![RootTrees { root: "test-repo".to_string(), trees: Vec::new() }];

    let result = get_call(&listing, "test-repo", "nonexistent-tree");

    assert!(result.is_err());
    assert!(
        result
            .unwrap_err()
            .message()
            .contains("Tree 'nonexistent-tree' not found in root 'test-repo'")
    );
}

#[test]
fn get_test_tree_does_not_exist_nonempty_trees() {
    let listing = vec![RootTrees {
        root: "test-repo".to_string(),
        trees: vec![tree("test-repo--other-tree", "/base/trees/test-repo--other-tree", "other-tree", "fff")],
    }];

    let result = get_call(&listing, "test-repo", "nonexistent-tree");

    assert!(result.is_err());
    assert!(
        result
            .unwrap_err()
            .message()
            .contains("Tree 'nonexistent-tree' not found in root 'test-repo'")
    );
}

#[test]
fn get_test_tree_exists() {
    let result = get_call(&sample_listing(), "test-repo", "feature");

    assert!(result.is_ok());
    let found = result.unwrap();
    assert_eq!(found.branch, "feature");
    assert!(found.path.ends_with("test-repo--feature"));
}

#[test]
fn get_finds_tree_by_branch_and_by_canonical_name() {
    let listing = vec![RootTrees {
        root: "repo".to_string(),
        trees: vec![tree(
            "repo--feature--x",
            "/base/trees/repo--feature--x",
            "feature/x",
            "abc123",
        )],
    }];

    let by_branch = get_call(&listing, "repo", "feature/x").unwrap();
    let by_name = get_call(&listing, "repo", "repo--feature--x").unwrap();

    assert_eq!(by_branch, by_name);
    assert_eq!(by_branch.path, "/base/trees/repo--feature--x");
}

#[test]
fn exec_test_root_does_not_exist() {
    let listing: Vec<RootTrees> = Vec::new();

    let result = exec_call(&listing, "nonexistent-root", "some-tree", "echo test".to_string());

    assert!(result.is_err());
    assert!(result.unwrap_err().message().contains("Root 'nonexistent-root' not found"));
}

#[test]
fn exec_test_tree_does_not_exist_empty_trees() {
    let listing = vec![RootTrees { root: "test-repo".to_string(), trees: Vec::new() }];

    let result = exec_call(&listing, "test-repo", "nonexistent-tree", "echo test".to_string());

    assert!(result.is_err());
    assert!(
        result
            .unwrap_err()
            .message()
            .contains("Tree 'nonexistent-tree' not found in root 'test-repo'")
    );
}

#[test]
fn exec_test_tree_does_not_exist_nonempty_trees() {
    let listing = vec![RootTrees {
        root: "test-repo".to_string(),
        trees: vec![tree("test-repo--other-tree", "/base/trees/test-repo--other-tree", "other-tree", "fff")],
    }];

    let result = exec_call(&listing, "test-repo", "nonexistent-tree", "echo test".to_string());

    assert!(result.is_err());
    assert!(
        result
            .unwrap_err()
            .message()
            .contains("Tree 'nonexistent-tree' not found in root 'test-repo'")
    );
}

#[test]
fn exec_test_tree_exists() {
    let result =
        exec_call(&sample_listing(), "test-repo", "feature", "echo testing > testfile.txt".to_string())
            .unwrap();

    assert_eq!(result.dir, "/base/trees/test-repo--feature");
    assert_eq!(result.command, "echo testing > testfile.txt");
}

#[test]
fn test_git_root_trees_no_trees() {
    let porcelain = "worktree /base/roots/test-repo\nHEAD abc111\nbranch refs/heads/main\n";
    let result = git_root_trees(&ok_output(porcelain));

    assert_eq!(result.matches("worktree").count(), 1);
}

#[test]
fn test_git_root_trees_one_tree() {
    let porcelain = [
        "worktree /base/roots/test-repo\n",
        "HEAD abc111\n",
        "branch refs/heads/main\n",
        "\n",
        "worktree /base/trees/test-repo--feature\n",
        "HEAD abc222\n",
        "branch refs/heads/feature\n",
    ]
    .concat();
    let result = git_root_trees(&ok_output(&porcelain));

    assert_eq!(result.matches("worktree").count(), 2);
    assert_eq!(result.matches("test-repo--feature").count(), 1);
}

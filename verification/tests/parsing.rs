use forest::trees::list::root_trees;

#[test]
fn test_root_trees_empty_string() {
    let result = root_trees(String::from(""), "main").unwrap();

    assert!(result.is_empty());
}

#[test]
fn test_root_trees_empty_string_with_white_space() {
    let result = root_trees(String::from("    \n  \t  "), "main").unwrap();

    assert!(result.is_empty());
}

#[test]
fn test_root_trees_with_worktrees() {
    let input = [
        "worktree /path/to/trees/repo--main\n",
        "HEAD abc123def456\n",
        "branch refs/heads/main\n",
        "\n",
        "worktree /path/to/trees/repo--feature--ui\n",
        "HEAD 789ghi012jkl\n",
        "branch refs/heads/feature/ui\n",
    ]
    .concat();

    let result = root_trees(input, "main").unwrap();

    assert_eq!(result.len(), 1);

    let tree = &result[0];
    assert_eq!(tree.name, "repo--feature--ui");
    assert_eq!(tree.path, "/path/to/trees/repo--feature--ui");
    assert_eq!(tree.branch, "feature/ui");
    assert_eq!(tree.head, "789ghi012jkl");
}

#[test]
fn root_trees_default_branch_record_is_skipped() {
    let input = [
        "worktree /path/to/trees/repo--main\n",
        "HEAD abc123def456\n",
        "branch refs/heads/main\n",
    ]
    .concat();

    let result = root_trees(input, "main").unwrap();

    assert!(result.is_empty());
}

#[test]
fn root_trees_detached_record_is_skipped() {
    let input = [
        "worktree /path/to/repo\n",
        "HEAD abc123def456\n",
        "detached\n",
        "\n",
        "worktree /path/to/trees/repo--fix\n",
        "HEAD 789ghi012jkl\n",
        "branch refs/heads/fix\n",
    ]
    .concat();

    let result = root_trees(input, "main").unwrap();

    assert_eq!(result.len(), 1);
    assert_eq!(result[0].branch, "fix");
    assert_eq!(result[0].name, "repo--fix");
}

#[test]
fn root_trees_short_record_is_skipped() {
    let input = "worktree /path/to/repo\nHEAD abc123\n".to_string();

    let result = root_trees(input, "main").unwrap();

    assert!(result.is_empty());
}

use forest::application::Application;
use forest::config::{Config, GeneralConfig, RootConfig, RootConfigEntry};
use forest::trees::clean::{
    call as clean_call, confirm, record, select, CleanItem, CleanState,
};
use forest::trees::create::{call as create_call, CreateError, SetupStep};
use forest::trees::delete::{
    branch_delete_result, call as delete_call, remove_result, DeleteError,
};
use forest::trees::{RootTrees, Tree};
use forest::utils::cli_ui;
use forest::utils::exec::{outcome, ExecError};
use forest::utils::git::CmdOutput;

fn ok_output(stdout: &str) -> CmdOutput {
    CmdOutput { ok: true, stdout: stdout.to_string(), stderr: String::new() }
}

fn failed_output(stderr: &str) -> CmdOutput {
    CmdOutput { ok: false, stdout: String::new(), stderr: stderr.to_string() }
}

fn application(copy: Vec<String>, exec_cmds: Vec<String>, roots: Vec<RootConfigEntry>) -> Application {
    Application::new(Config {
        general: GeneralConfig { base_dir: "/base".to_string(), copy, exec_cmds },
        roots,
    })
}

/// Query outcomes for a root that has a remote with `main` as its
/// default branch.
fn remote_repo_queries() -> (CmdOutput, CmdOutput, CmdOutput) {
    (
        ok_output("origin\n"),
        ok_output("* main\n"),
        ok_output("refs/remotes/origin/main\n"),
    )
}

fn tree(name: &str, path: &str, branch: &str, head: &str) -> Tree {
    Tree {
        name: name.to_string(),
        path: path.to_string(),
        branch: branch.to_string(),
        head: head.to_string(),
    }
}

#[test]
fn application_new_derives_layout() {
    let app = application(Vec::new(), Vec::new(), Vec::new());

    assert_eq!(app.roots_dir, "/base/roots");
    assert_eq!(app.trees_dir, "/base/trees");
}

#[test]
fn test_create_worktree_success() {
    let app = application(
        vec![".env".to_string()],
        vec!["echo 'setup complete' > setup_via_exec.txt".to_string()],
        Vec::new(),
    );
    let (remotes, branches, symref) = remote_repo_queries();
    let added = ok_output("");

    let steps =
        create_call(&app, "test-repo", "feature/new-feature", &remotes, &branches, &symref, &added)
            .unwrap();

    assert_eq!(steps.len(), 2);
    match &steps[0] {
        SetupStep::CopyFile { file_name, source, destination } => {
            assert_eq!(file_name, ".env");
            assert_eq!(source, "/base/roots/test-repo/.env");
            assert_eq!(destination, "/base/trees/test-repo--feature--new-feature/.env");
        },
        _ => panic!("expected a copy step"),
    }
    match &steps[1] {
        SetupStep::RunCommand { command } => {
            assert_eq!(command, "echo 'setup complete' > setup_via_exec.txt");
        },
        _ => panic!("expected a command step"),
    }
}

#[test]
fn test_create_with_nonexistent_repo() {
    let app = application(Vec::new(), Vec::new(), Vec::new());
    // Every git query fails when the root directory is missing.
    let missing = failed_output(
        "fatal: cannot change to '/base/roots/nonexistent-repo': No such file or directory\n",
    );
    let added = ok_output("");

    let err =
        create_call(&app, "nonexistent-repo", "feature/test", &missing, &missing, &missing, &added)
            .unwrap_err();

    assert!(err.message().contains("No such file or directory"))
}

#[test]
fn test_duplicate_branch_name() {
    let app = application(Vec::new(), Vec::new(), Vec::new());
    let (remotes, branches, symref) = remote_repo_queries();
    let added =
        failed_output("fatal: a branch named 'feature/new-feature' already exists\n");

    let err =
        create_call(&app, "test-repo", "feature/new-feature", &remotes, &branches, &symref, &added)
            .unwrap_err();

    assert!(
        err.message().contains("a branch named 'feature/new-feature' already exists")
    )
}

#[test]
fn create_in_local_only_repo_uses_local_default() {
    let app = application(Vec::new(), Vec::new(), Vec::new());
    // No remote configured: the local-branch path of the policy applies.
    let remotes = ok_output("");
    let branches = ok_output("* main\n");
    let symref = failed_output("fatal: ref refs/remotes/origin/HEAD is not a symbolic ref\n");
    let added = ok_output("");

    let result = create_call(&app, "test-repo", "feature/x", &remotes, &branches, &symref, &added);

    assert!(result.is_ok());
}

#[test]
fn create_with_malformed_ref_fails() {
    let app = application(Vec::new(), Vec::new(), Vec::new());
    // A remote exists but its symbolic ref has an unexpected shape: the
    // resolution fails rather than guessing a branch.
    let remotes = ok_output("origin\n");
    let branches = ok_output("* main\n");
    let symref = ok_output("refs/heads/other\n");
    let added = ok_output("");

    let err = create_call(&app, "test-repo", "feature/x", &remotes, &branches, &symref, &added)
        .unwrap_err();

    assert!(matches!(err, CreateError::DefaultBranchFailed { .. }));
    assert!(err.message().contains("Impossible to identify a default branch"));
}

#[test]
fn test_set_up_worktree_no_root_config() {
    let app = application(
        vec!["general_file.txt".to_string()],
        vec!["echo 'general command' > general_output.txt".to_string()],
        Vec::new(),
    );

    let steps = forest::trees::create::set_up_worktree(&app, "test-repo", "/r/test-repo", "/t/x");

    assert_eq!(steps.len(), 2);
    match &steps[0] {
        SetupStep::CopyFile { file_name, source, destination } => {
            assert_eq!(file_name, "general_file.txt");
            assert_eq!(source, "/r/test-repo/general_file.txt");
            assert_eq!(destination, "/t/x/general_file.txt");
        },
        _ => panic!("expected a copy step"),
    }
    match &steps[1] {
        SetupStep::RunCommand { command } => {
            assert_eq!(command, "echo 'general command' > general_output.txt");
        },
        _ => panic!("expected a command step"),
    }
}

#[test]
fn test_set_up_worktree_with_root_config() {
    let overrides = vec![RootConfigEntry {
        root: "test-repo".to_string(),
        config: RootConfig {
            copy: vec!["root_file.txt".to_string()],
            exec_cmds: vec!["echo 'root command' > root_output.txt".to_string()],
        },
    }];
    let app = application(
        vec!["general_file.txt".to_string()],
        vec!["echo 'general command' > general_output.txt".to_string()],
        overrides,
    );

    let steps = forest::trees::create::set_up_worktree(&app, "test-repo", "/r/test-repo", "/t/x");

    assert_eq!(steps.len(), 2);
    match &steps[0] {
        SetupStep::CopyFile { file_name, .. } => assert_eq!(file_name, "root_file.txt"),
        _ => panic!("expected a copy step"),
    }
    match &steps[1] {
        SetupStep::RunCommand { command } => {
            assert_eq!(command, "echo 'root command' > root_output.txt");
        },
        _ => panic!("expected a command step"),
    }
}

fn delete_listing() -> Vec<RootTrees> {
    vec![RootTrees {
        root: "test-repo".to_string(),
        trees: vec![tree(
            "test-repo--feature-branch",
            "/base/trees/test-repo--feature-branch",
            "feature-branch",
            "abc123",
        )],
    }]
}

#[test]
fn test_delete_tree_success() {
    let plan =
        delete_call("/base/roots", "test-repo", true, &delete_listing(), "feature-branch").unwrap();

    assert_eq!(plan.root.name, "test-repo");
    assert_eq!(plan.root.path, "/base/roots/test-repo");
    assert_eq!(plan.tree.path, "/base/trees/test-repo--feature-branch");
    assert_eq!(plan.tree.branch, "feature-branch");

    assert!(remove_result(&plan, &ok_output("")).is_ok());
    assert!(branch_delete_result(&plan, &ok_output("")).is_ok());
}

#[test]
fn test_delete_nonexistent_tree() {
    let result = delete_call("/base/roots", "test-repo", true, &delete_listing(), "nonexistent-tree");

    assert!(result.is_err());
    assert!(
        result
            .unwrap_err()
            .message()
            .contains("Failed to find tree 'nonexistent-tree' in root 'test-repo'")
    );
}

#[test]
fn test_delete_tree_nonexistent_root() {
    let listing: Vec<RootTrees> = Vec::new();
    let result = delete_call("/base/roots", "nonexistent-root", false, &listing, "some-tree");

    assert!(result.is_err());
    assert!(
        result
            .unwrap_err()
            .message()
            .contains("Failed to find root 'nonexistent-root'")
    );
}

#[test]
fn delete_remove_failure_is_fatal() {
    let plan =
        delete_call("/base/roots", "test-repo", true, &delete_listing(), "feature-branch").unwrap();

    let err = remove_result(&plan, &failed_output("fatal: not a working tree\n")).unwrap_err();
    assert!(
        err.message().contains("Failed to remove worktree at '/base/trees/test-repo--feature-branch'")
    );

    let err2 = branch_delete_result(&plan, &failed_output("error: branch not found\n")).unwrap_err();
    assert!(err2.message().contains("Failed to delete branch 'feature-branch'"));
    assert!(matches!(err2, DeleteError::BranchDeleteFailed { .. }));
}

fn two_tree_listing() -> Vec<RootTrees> {
    vec![
        RootTrees {
            root: "repo1".to_string(),
            trees: vec![tree("repo1--a", "/base/trees/repo1--a", "a", "111")],
        },
        RootTrees {
            root: "repo2".to_string(),
            trees: vec![tree("repo2--b", "/base/trees/repo2--b", "b", "222")],
        },
    ]
}

#[test]
fn clean_empty_listing_cancels() {
    let listing: Vec<RootTrees> = Vec::new();

    match clean_call(&listing) {
        CleanState::Cancelled { message } => assert_eq!(message, "No trees found to clean"),
        _ => panic!("expected a cancelled run"),
    }
}

#[test]
fn clean_no_selection_cancels() {
    let items = match clean_call(&two_tree_listing()) {
        CleanState::Selecting { items } => items,
        _ => panic!("expected a selection state"),
    };

    match select(items, &Vec::new()) {
        CleanState::Cancelled { message } => assert_eq!(message, "No trees selected"),
        _ => panic!("expected a cancelled run"),
    }
}

#[test]
fn clean_declined_confirmation_cancels() {
    let items = match clean_call(&two_tree_listing()) {
        CleanState::Selecting { items } => items,
        _ => panic!("expected a selection state"),
    };
    let chosen = match select(items, &vec![0usize, 1]) {
        CleanState::Confirming { chosen } => chosen,
        _ => panic!("expected a confirmation state"),
    };

    match confirm(chosen, false) {
        CleanState::Cancelled { message } => assert_eq!(message, "Clean cancelled"),
        _ => panic!("expected a cancelled run"),
    }
}

#[test]
fn clean_reports_one_outcome_per_item() {
    let items = match clean_call(&two_tree_listing()) {
        CleanState::Selecting { items } => items,
        _ => panic!("expected a selection state"),
    };
    assert_eq!(items.len(), 2);

    let chosen = match select(items, &vec![0usize, 1]) {
        CleanState::Confirming { chosen } => chosen,
        _ => panic!("expected a confirmation state"),
    };
    let (pending, report) = match confirm(chosen, true) {
        CleanState::Deleting { pending, report } => (pending, report),
        _ => panic!("expected a deleting state"),
    };
    assert_eq!(pending.len(), 2);
    assert_eq!(report.len(), 0);

    // First deletion fails, second succeeds: the batch never stops.
    let (pending, report) = match record(pending, report, Some("already removed".to_string())) {
        CleanState::Deleting { pending, report } => (pending, report),
        _ => panic!("expected the batch to continue"),
    };
    let report = match record(pending, report, None) {
        CleanState::Reporting { report } => report,
        _ => panic!("expected the terminal report"),
    };

    assert_eq!(report.len(), 2);
    assert_eq!(report[0].item.root, "repo1");
    assert_eq!(report[0].item.tree.branch, "a");
    assert_eq!(report[0].failure, Some("already removed".to_string()));
    assert_eq!(report[1].item.root, "repo2");
    assert_eq!(report[1].item.tree.branch, "b");
    assert_eq!(report[1].failure, None);
}

#[test]
fn clean_selection_respects_order() {
    let items = vec![
        CleanItem { root: "r".to_string(), tree: tree("r--x", "/t/r--x", "x", "1") },
        CleanItem { root: "r".to_string(), tree: tree("r--y", "/t/r--y", "y", "2") },
    ];

    match select(items, &vec![1usize]) {
        CleanState::Confirming { chosen } => {
            assert_eq!(chosen.len(), 1);
            assert_eq!(chosen[0].tree.branch, "y");
        },
        _ => panic!("expected a confirmation state"),
    }
}

#[test]
fn cli_tree_line() {
    let t = tree("repo--feature", "/t/repo--feature", "feature", "abc");

    assert_eq!(cli_ui::tree("repo", &t), "[repo] feature");
}

#[test]
fn exec_outcome_cases() {
    assert!(outcome("ls".to_string(), true, 0).is_ok());

    let err = outcome("nosuchcommand".to_string(), false, 127).unwrap_err();
    match err {
        ExecError::CommandFailed { command, code } => {
            assert_eq!(command, "nosuchcommand");
            assert_eq!(code, 127);
        },
    }
}

#[test]
fn create_error_messages_exact() {
    let e1 = CreateError::DefaultBranchFailed {
        cause: forest::utils::git::GitError::UndefinedDefaultBranch,
    };
    let e2 = CreateError::CreateFailed { stderr: "y".to_string() };

    assert_eq!(
        e1.message(),
        "Failed to find default branch: Impossible to identify a default branch"
    );
    assert_eq!(e2.message(), "Create failed: y");
}

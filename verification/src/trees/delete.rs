//! Deleting one tree: locate it, remove the worktree, delete the backing
//! branch. Each step's failure is wrapped with context naming the step;
//! there is no rollback.

use vstd::prelude::*;
use vstd::string::*;

use super::get::{root_entry_index, tree_index};
use super::{RootTrees, Tree, TreesError};
use crate::roots::Root;
use crate::utils::git::{CmdOutput, Git, GitError};
use crate::utils::path::spec_join;

verus! {

/// Failures of the deletion flow, each naming the step that failed.
#[derive(Debug)]
pub enum DeleteError {
    RootNotFound { root: String },
    TreeNotFound { tree: String, root: String },
    RemoveFailed { path: String, cause: GitError },
    BranchDeleteFailed { branch: String, cause: GitError },
}

impl DeleteError {
    /// The user-facing description of the failure.
    pub fn message(&self) -> (r: String)
        ensures
            (self matches DeleteError::RootNotFound { root } ==> r@ == "Failed to find root '"@
                + root@ + "'"@),
            (self matches DeleteError::TreeNotFound { tree, root } ==> r@
                == "Failed to find tree '"@ + tree@ + "' in root '"@ + root@ + "'"@),
            (self matches DeleteError::RemoveFailed { path, .. } ==> r@
                == "Failed to remove worktree at '"@ + path@ + "'"@),
            (self matches DeleteError::BranchDeleteFailed { branch, .. } ==> r@
                == "Failed to delete branch '"@ + branch@ + "'"@),
    {
        match self {
            DeleteError::RootNotFound { root } => {
                let mut m: String = "Failed to find root '".to_owned();
                m.append(root.as_str());
                m.append("'");
                proof {
                    assert(m@ =~= "Failed to find root '"@ + root@ + "'"@);
                }
                m
            },
            DeleteError::TreeNotFound { tree, root } => {
                let mut m: String = "Failed to find tree '".to_owned();
                m.append(tree.as_str());
                m.append("' in root '");
                m.append(root.as_str());
                m.append("'");
                proof {
                    assert(m@ =~= "Failed to find tree '"@ + tree@ + "' in root '"@ + root@
                        + "'"@);
                }
                m
            },
            DeleteError::RemoveFailed { path, .. } => {
                let mut m: String = "Failed to remove worktree at '".to_owned();
                m.append(path.as_str());
                m.append("'");
                proof {
                    assert(m@ =~= "Failed to remove worktree at '"@ + path@ + "'"@);
                }
                m
            },
            DeleteError::BranchDeleteFailed { branch, .. } => {
                let mut m: String = "Failed to delete branch '".to_owned();
                m.append(branch.as_str());
                m.append("'");
                proof {
                    assert(m@ =~= "Failed to delete branch '"@ + branch@ + "'"@);
                }
                m
            },
        }
    }
}

/// Everything the two destructive steps need: the located root and tree.
#[derive(Debug)]
pub struct DeletePlan {
    pub root: Root,
    pub tree: Tree,
}

/// Locate the tree to delete.
///
/// Fails naming the root when its directory does not exist, and naming
/// tree and root when the listing holds no match; no partial deletion is
/// attempted for a tree that cannot be found.
pub fn call(roots_dir: &str, root: &str, root_exists: bool, listing: &Vec<RootTrees>, tree: &str)
    -> (r: Result<DeletePlan, DeleteError>)
    ensures
        !root_exists ==> (r is Err && (r->Err_0 matches DeleteError::RootNotFound { root: n }
            && n@ == root@)),
        root_exists ==> ({
            let ri = root_entry_index(listing@, root@);
            let ti = if ri == -1 {
                -1
            } else {
                tree_index(listing@[ri].trees@, tree@)
            };
            if ri == -1 || ti == -1 {
                r is Err && (r->Err_0 matches DeleteError::TreeNotFound { tree: t, root: n } && t@
                    == tree@ && n@ == root@)
            } else {
                r is Ok && r->Ok_0.root.name@ == root@ && r->Ok_0.root.path@ == spec_join(
                    roots_dir@,
                    root@,
                ) && r->Ok_0.tree@ == listing@[ri].trees@[ti]@
            }
        }),
{
    let located = match crate::roots::get::call(roots_dir, root, root_exists) {
        Ok(x) => x,
        Err(_) => {
            return Err(DeleteError::RootNotFound { root: root.to_owned() });
        },
    };
    match super::get::call(listing, root, tree) {
        Ok(t) => Ok(DeletePlan { root: located, tree: t }),
        Err(_) => Err(DeleteError::TreeNotFound { tree: tree.to_owned(), root: root.to_owned() }),
    }
}

/// Interpret the outcome of removing the worktree at the plan's path.
pub fn remove_result(plan: &DeletePlan, output: &CmdOutput) -> (r: Result<(), DeleteError>)
    ensures
        output.ok ==> r is Ok,
        !output.ok ==> (r is Err && (r->Err_0 matches DeleteError::RemoveFailed { path, cause }
            && path@ == plan.tree.path@ && (cause matches GitError::CommandFailed {
            command,
            base_dir,
            stderr,
        } && command@ == "worktree-remove"@ && base_dir@ == plan.root.path@ && stderr@
            == output.stderr@))),
{
    let git = Git::new(&plan.root.path);
    match git.remove_worktree(output) {
        Ok(_) => Ok(()),
        Err(e) => Err(DeleteError::RemoveFailed { path: plan.tree.path.clone(), cause: e }),
    }
}

/// Interpret the outcome of force-deleting the plan's backing branch.
pub fn branch_delete_result(plan: &DeletePlan, output: &CmdOutput) -> (r: Result<(), DeleteError>)
    ensures
        output.ok ==> r is Ok,
        !output.ok ==> (r is Err && (r->Err_0 matches DeleteError::BranchDeleteFailed {
            branch,
            cause,
        } && branch@ == plan.tree.branch@ && (cause matches GitError::CommandFailed {
            command,
            base_dir,
            stderr,
        } && command@ == "branch-delete"@ && base_dir@ == plan.root.path@ && stderr@
            == output.stderr@))),
{
    let git = Git::new(&plan.root.path);
    match git.delete_branch(output) {
        Ok(_) => Ok(()),
        Err(e) => Err(DeleteError::BranchDeleteFailed { branch: plan.tree.branch.clone(), cause: e }),
    }
}

} // verus!

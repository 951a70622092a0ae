//! Worktrees ("trees"): the records the registry surfaces and the
//! operations over them.

use vstd::prelude::*;
use vstd::string::*;

verus! {

/// One active worktree, as surfaced by the listing.
#[derive(Debug, PartialEq)]
pub struct Tree {
    /// Display name: the last path segment of the worktree directory.
    pub name: String,
    /// Absolute location of the worktree directory.
    pub path: String,
    /// The checked-out branch, slash segments preserved.
    pub branch: String,
    /// The commit checked out, an opaque identifier.
    pub head: String,
}

/// The mathematical value of a [`Tree`]: its four fields as char sequences.
pub ghost struct TreeView {
    pub name: Seq<char>,
    pub path: Seq<char>,
    pub branch: Seq<char>,
    pub head: Seq<char>,
}

impl View for Tree {
    type V = TreeView;

    open spec fn view(&self) -> TreeView {
        TreeView { name: self.name@, path: self.path@, branch: self.branch@, head: self.head@ }
    }
}

impl Clone for Tree {
    fn clone(&self) -> (r: Self)
        ensures
            r@ == self@,
    {
        Tree {
            name: self.name.clone(),
            path: self.path.clone(),
            branch: self.branch.clone(),
            head: self.head.clone(),
        }
    }
}

/// The views of a sequence of trees.
pub open spec fn views_of(ts: Seq<Tree>) -> Seq<TreeView> {
    ts.map_values(|t: Tree| t@)
}

/// Lookup failures over the tree read model.
#[derive(Debug)]
pub enum TreesError {
    /// The requested root is not part of the listing.
    RootNotFound { root: String },
    /// No tree of the root matches the requested name or branch.
    TreeNotFound { tree: String, root: String },
}

impl TreesError {
    /// The user-facing description of the failure.
    pub fn message(&self) -> (r: String)
        ensures
            (self is RootNotFound ==> r@ == "Root '"@ + self->RootNotFound_root@ + "' not found"@),
            (self is TreeNotFound ==> r@ == "Tree '"@ + self->TreeNotFound_tree@
                + "' not found in root '"@ + self->TreeNotFound_root@ + "'"@),
    {
        match self {
            TreesError::RootNotFound { root } => {
                let mut m: String = "Root '".to_owned();
                m.append(root.as_str());
                m.append("' not found");
                proof {
                    assert(m@ =~= "Root '"@ + root@ + "' not found"@);
                }
                m
            },
            TreesError::TreeNotFound { tree, root } => {
                let mut m: String = "Tree '".to_owned();
                m.append(tree.as_str());
                m.append("' not found in root '");
                m.append(root.as_str());
                m.append("'");
                proof {
                    assert(m@ =~= "Tree '"@ + tree@ + "' not found in root '"@ + root@ + "'"@);
                }
                m
            },
        }
    }
}

/// The trees of one root.
pub type Trees = Vec<Tree>;

/// A listing entry: one root together with its trees.
#[derive(Debug)]
pub struct RootTrees {
    pub root: String,
    pub trees: Vec<Tree>,
}

/// The full read model: every listed root with its trees, in root order.
pub type RootsTrees = Vec<RootTrees>;

} // verus!

pub mod clean;
pub mod create;
pub mod delete;
pub mod exec;
pub mod get;
pub mod list;

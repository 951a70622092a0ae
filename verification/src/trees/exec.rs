//! Running a command inside a tree: the lookup and the request the
//! application executes.

use vstd::prelude::*;

use super::get::{root_entry_index, tree_index};
use super::{RootTrees, TreesError};

verus! {

/// A command to run with a tree's directory as working directory.
#[derive(Debug)]
pub struct ExecRequest {
    pub dir: String,
    pub command: String,
}

/// Locate `tree` under `root` and build the request that runs `command`
/// inside it; the lookup fails exactly as [`super::get::call`] does.
pub fn call(listing: &Vec<RootTrees>, root: &str, tree: &str, command: String) -> (r: Result<
    ExecRequest,
    TreesError,
>)
    ensures
        ({
            let ri = root_entry_index(listing@, root@);
            if ri == -1 {
                r is Err && (r->Err_0 matches TreesError::RootNotFound { root: n } && n@ == root@)
            } else {
                let ti = tree_index(listing@[ri].trees@, tree@);
                if ti == -1 {
                    r is Err && (r->Err_0 matches TreesError::TreeNotFound { tree: t, root: n }
                        && t@ == tree@ && n@ == root@)
                } else {
                    r is Ok && r->Ok_0.dir@ == listing@[ri].trees@[ti].path@ && r->Ok_0.command@
                        == command@
                }
            }
        }),
{
    match super::get::call(listing, root, tree) {
        Ok(t) => Ok(ExecRequest { dir: t.path, command }),
        Err(e) => Err(e),
    }
}

} // verus!

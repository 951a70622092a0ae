//! Looking one tree up in the read model, by name or by branch.

use vstd::prelude::*;

use super::{RootTrees, Tree, TreesError};
use crate::utils::text::str_eq;

verus! {

/// Index of the first entry for `root`; `-1` if none.
pub open spec fn root_entry_index(lst: Seq<RootTrees>, root: Seq<char>) -> int
    decreases lst.len(),
{
    if lst.len() == 0 {
        -1
    } else if lst[0].root@ == root {
        0
    } else {
        let r = root_entry_index(lst.drop_first(), root);
        if r == -1 {
            -1
        } else {
            r + 1
        }
    }
}

/// A first match at `i` pins the index down.
pub proof fn lemma_root_entry_index_at(lst: Seq<RootTrees>, root: Seq<char>, i: int)
    requires
        0 <= i < lst.len(),
        lst[i].root@ == root,
        forall|k: int| 0 <= k < i ==> lst[k].root@ != root,
    ensures
        root_entry_index(lst, root) == i,
    decreases i,
{
    if i > 0 {
        assert(lst[0].root@ != root);
        lemma_root_entry_index_at(lst.drop_first(), root, i - 1);
    }
}

/// No match anywhere pins the index to `-1`.
pub proof fn lemma_root_entry_index_none(lst: Seq<RootTrees>, root: Seq<char>)
    requires
        forall|k: int| 0 <= k < lst.len() ==> lst[k].root@ != root,
    ensures
        root_entry_index(lst, root) == -1,
    decreases lst.len(),
{
    if lst.len() > 0 {
        lemma_root_entry_index_none(lst.drop_first(), root);
    }
}

/// Does the lookup key pick this tree? Either its name or its branch.
pub open spec fn tree_matches(t: Tree, key: Seq<char>) -> bool {
    t.name@ == key || t.branch@ == key
}

/// Index of the first tree matching `key`; `-1` if none.
pub open spec fn tree_index(ts: Seq<Tree>, key: Seq<char>) -> int
    decreases ts.len(),
{
    if ts.len() == 0 {
        -1
    } else if tree_matches(ts[0], key) {
        0
    } else {
        let r = tree_index(ts.drop_first(), key);
        if r == -1 {
            -1
        } else {
            r + 1
        }
    }
}

pub proof fn lemma_tree_index_at(ts: Seq<Tree>, key: Seq<char>, i: int)
    requires
        0 <= i < ts.len(),
        tree_matches(ts[i], key),
        forall|k: int| 0 <= k < i ==> !tree_matches(ts[k], key),
    ensures
        tree_index(ts, key) == i,
    decreases i,
{
    if i > 0 {
        assert(!tree_matches(ts[0], key));
        lemma_tree_index_at(ts.drop_first(), key, i - 1);
    }
}

pub proof fn lemma_tree_index_none(ts: Seq<Tree>, key: Seq<char>)
    requires
        forall|k: int| 0 <= k < ts.len() ==> !tree_matches(ts[k], key),
    ensures
        tree_index(ts, key) == -1,
    decreases ts.len(),
{
    if ts.len() > 0 {
        lemma_tree_index_none(ts.drop_first(), key);
    }
}

/// What looking `tree` up under `root` in `lst` yields: the first tree of
/// the root's entry whose name or branch equals the key; an error naming
/// the root when the root has no entry, or naming both when no tree
/// matches.
pub open spec fn spec_get(lst: Seq<RootTrees>, root: Seq<char>, tree: Seq<char>, r: Result<
    Tree,
    TreesError,
>) -> bool {
    let ri = root_entry_index(lst, root);
    if ri == -1 {
        r is Err && (r->Err_0 matches TreesError::RootNotFound { root: n } && n@ == root)
    } else {
        let ti = tree_index(lst[ri].trees@, tree);
        if ti == -1 {
            r is Err && (r->Err_0 matches TreesError::TreeNotFound { tree: t, root: n } && t@
                == tree && n@ == root)
        } else {
            r is Ok && r->Ok_0@ == lst[ri].trees@[ti]@
        }
    }
}

/// A found index is in range and names the root.
pub proof fn lemma_root_entry_index_found(lst: Seq<RootTrees>, root: Seq<char>)
    requires
        root_entry_index(lst, root) != -1,
    ensures
        ({
            let ri = root_entry_index(lst, root);
            0 <= ri < lst.len() && lst[ri].root@ == root
        }),
    decreases lst.len(),
{
    if lst.len() > 0 && lst[0].root@ != root {
        lemma_root_entry_index_found(lst.drop_first(), root);
    }
}

/// Lookup by branch and by canonical name agree: once the listing holds
/// a created tree — its display name the canonical name, its branch the
/// requested branch — and no earlier tree of that root matches either
/// key, looking the root up by either key succeeds and returns that
/// same record.
pub proof fn lemma_get_by_branch_and_name_agree(
    lst: Seq<RootTrees>,
    root: Seq<char>,
    ti: int,
    r1: Result<Tree, TreesError>,
    r2: Result<Tree, TreesError>,
)
    requires
        root_entry_index(lst, root) != -1,
        ({
            let ri = root_entry_index(lst, root);
            &&& 0 <= ti < lst[ri].trees@.len()
            &&& forall|k: int|
                0 <= k < ti ==> !tree_matches(lst[ri].trees@[k], lst[ri].trees@[ti].name@)
                    && !tree_matches(lst[ri].trees@[k], lst[ri].trees@[ti].branch@)
            &&& spec_get(lst, root, lst[ri].trees@[ti].name@, r1)
            &&& spec_get(lst, root, lst[ri].trees@[ti].branch@, r2)
        }),
    ensures
        r1 is Ok,
        r2 is Ok,
        ({
            let ri = root_entry_index(lst, root);
            r1->Ok_0@ == lst[ri].trees@[ti]@ && r2->Ok_0@ == lst[ri].trees@[ti]@
        }),
{
    let ri = root_entry_index(lst, root);
    lemma_root_entry_index_found(lst, root);
    let ts = lst[ri].trees@;
    lemma_tree_index_at(ts, ts[ti].name@, ti);
    lemma_tree_index_at(ts, ts[ti].branch@, ti);
}

/// Look `tree` up under `root` in the listing.
pub fn call(listing: &Vec<RootTrees>, root: &str, tree: &str) -> (r: Result<Tree, TreesError>)
    ensures
        spec_get(listing@, root@, tree@, r),
{
    let mut i: usize = 0;
    while i < listing.len()
        invariant
            i <= listing@.len(),
            forall|k: int| 0 <= k < i ==> listing@[k].root@ != root@,
        decreases listing@.len() - i,
    {
        if str_eq(listing[i].root.as_str(), root) {
            proof {
                lemma_root_entry_index_at(listing@, root@, i as int);
            }
            let ts = &listing[i].trees;
            let mut j: usize = 0;
            while j < ts.len()
                invariant
                    j <= ts@.len(),
                    i < listing@.len(),
                    root_entry_index(listing@, root@) == i as int,
                    ts@ == listing@[i as int].trees@,
                    forall|k: int| 0 <= k < j ==> !tree_matches(ts@[k], tree@),
                decreases ts@.len() - j,
            {
                if str_eq(ts[j].name.as_str(), tree) || str_eq(ts[j].branch.as_str(), tree) {
                    proof {
                        lemma_tree_index_at(ts@, tree@, j as int);
                    }
                    return Ok(ts[j].clone());
                }
                j = j + 1;
            }
            proof {
                lemma_tree_index_none(ts@, tree@);
            }
            return Err(
                TreesError::TreeNotFound { tree: tree.to_owned(), root: root.to_owned() },
            );
        }
        i = i + 1;
    }
    proof {
        lemma_root_entry_index_none(listing@, root@);
    }
    Err(TreesError::RootNotFound { root: root.to_owned() })
}

} // verus!

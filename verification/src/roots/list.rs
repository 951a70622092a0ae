//! Listing the roots area: one root per subdirectory, sorted by name.

use vstd::prelude::*;
use vstd::multiset::Multiset;
use vstd::seq_lib::*;

use super::Root;
use crate::utils::path::{join, spec_join};
use crate::utils::text::{lemma_lex_total, lemma_lex_trans, lex_le, str_le};

verus! {

/// What the application read from the roots directory: one entry per
/// directory item, its basename and whether it is a subdirectory.
pub struct DirEntry {
    pub name: String,
    pub is_dir: bool,
}

/// The name and path every directory entry from `i` on contributes, in
/// directory order; non-directories contribute nothing.
pub open spec fn spec_roots_from(dir: Seq<char>, es: Seq<DirEntry>, i: int) -> Seq<
    (Seq<char>, Seq<char>),
>
    decreases es.len() - i,
{
    if i < 0 || i >= es.len() {
        Seq::empty()
    } else {
        let rest = spec_roots_from(dir, es, i + 1);
        if es[i].is_dir {
            seq![(es[i].name@, spec_join(dir, es[i].name@))] + rest
        } else {
            rest
        }
    }
}

/// The names and paths of a root sequence.
pub open spec fn root_views(rs: Seq<Root>) -> Seq<(Seq<char>, Seq<char>)> {
    rs.map_values(|r: Root| (r.name@, r.path@))
}

/// Sorted by name, lexicographically.
pub open spec fn sorted_by_name(rs: Seq<Root>) -> bool {
    forall|i: int, j: int| 0 <= i < j < rs.len() ==> lex_le(rs[i].name@, rs[j].name@)
}

/// Build the root list from the directory entries: every subdirectory of
/// `roots_dir` becomes a root, and the result is sorted by name. Reading
/// the directory itself is the application's job.
pub fn call(roots_dir: &str, entries: &Vec<DirEntry>) -> (r: Vec<Root>)
    ensures
        sorted_by_name(r@),
        root_views(r@).to_multiset() == spec_roots_from(roots_dir@, entries@, 0).to_multiset(),
{
    broadcast use vstd::seq_lib::group_to_multiset_ensures;

    let mut out: Vec<Root> = Vec::new();
    let mut i: usize = 0;
    proof {
        assert(root_views(out@) =~= Seq::<(Seq<char>, Seq<char>)>::empty());
        assert(root_views(out@).to_multiset().add(
            spec_roots_from(roots_dir@, entries@, 0).to_multiset(),
        ) =~= spec_roots_from(roots_dir@, entries@, 0).to_multiset());
    }
    while i < entries.len()
        invariant
            i <= entries@.len(),
            sorted_by_name(out@),
            root_views(out@).to_multiset().add(
                spec_roots_from(roots_dir@, entries@, i as int).to_multiset(),
            ) == spec_roots_from(roots_dir@, entries@, 0).to_multiset(),
        decreases entries@.len() - i,
    {
        let ghost pre = spec_roots_from(roots_dir@, entries@, i as int);
        let ghost post = spec_roots_from(roots_dir@, entries@, i + 1);
        if entries[i].is_dir {
            let name = entries[i].name.clone();
            let path = join(roots_dir, name.as_str());
            let root = Root { name, path };
            let ghost rv = (root.name@, root.path@);
            proof {
                assert(pre == seq![rv] + post);
                lemma_multiset_commutative(seq![rv], post);
                let emp = Seq::<(Seq<char>, Seq<char>)>::empty();
                to_multiset_build(emp, rv);
                to_multiset_len(emp);
                assert(emp.to_multiset().len() == 0);
                vstd::multiset::lemma_multiset_empty_len(emp.to_multiset());
                assert(emp.push(rv) =~= seq![rv]);
                assert(seq![rv].to_multiset() =~= Multiset::<(Seq<char>, Seq<char>)>::empty()
                    .insert(rv));
            }
            // Insertion position: after everything at or below the new name.
            let mut p: usize = 0;
            while p < out.len() && str_le(out[p].name.as_str(), root.name.as_str())
                invariant
                    p <= out@.len(),
                    forall|k: int| 0 <= k < p ==> lex_le(out@[k].name@, root.name@),
                decreases out@.len() - p,
            {
                p = p + 1;
            }
            let ghost old_out = out@;
            proof {
                if p < out@.len() {
                    lemma_lex_total(old_out[p as int].name@, root.name@);
                }
                assert forall|k: int| p <= k < old_out.len() implies lex_le(
                    root.name@,
                    old_out[k].name@,
                ) by {
                    if p < k {
                        lemma_lex_trans(root.name@, old_out[p as int].name@, old_out[k].name@);
                    }
                }
            }
            out.insert(p, root);
            proof {
                assert(root_views(out@) =~= root_views(old_out).insert(p as int, rv));
                to_multiset_insert(root_views(old_out), p as int, rv);
                assert(root_views(out@).to_multiset().add(post.to_multiset())
                    =~= root_views(old_out).to_multiset().add(pre.to_multiset()));
                assert forall|a: int, b: int| 0 <= a < b < out@.len() implies lex_le(
                    out@[a].name@,
                    out@[b].name@,
                ) by {
                    if b < p {
                    } else if a < p && b == p {
                    } else if a < p && b > p {
                    } else if a == p {
                    } else {
                    }
                }
            }
        } else {
            proof {
                assert(pre == post);
            }
        }
        i = i + 1;
    }
    proof {
        assert(spec_roots_from(roots_dir@, entries@, entries@.len() as int)
            =~= Seq::<(Seq<char>, Seq<char>)>::empty());
        assert(root_views(out@).to_multiset().add(Seq::<(Seq<char>, Seq<char>)>::empty()
            .to_multiset()) =~= root_views(out@).to_multiset());
    }
    out
}

} // verus!

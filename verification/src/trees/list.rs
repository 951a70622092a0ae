//! The tree read model: parsing the porcelain worktree listing and
//! assembling the per-root map of trees.

use vstd::prelude::*;
use vstd::string::*;

use super::{RootTrees, RootsTrees, Tree, TreeView, TreesError, views_of};
use crate::roots::Root;
use crate::utils::git::{
    resolution_err, resolution_ok, resolved_branch, CmdOutput, Git, GitError,
};
use crate::utils::text::{all_space, find_nl, find_nl_exec, is_space_char, last_segment,
    last_segment_start, range_eq_str, range_has_prefix, str_eq, strip_cr, to_chars};

verus! {

/// First index at or after `i` where `"\n\n"` starts in `s`; `s.len()` if none.
pub open spec fn find_sep2(s: Seq<char>, i: int) -> int
    decreases s.len() - i,
{
    if i < 0 || i + 2 > s.len() {
        s.len() as int
    } else if s[i] == '\n' && s[i + 1] == '\n' {
        i
    } else {
        find_sep2(s, i + 1)
    }
}

pub proof fn lemma_find_sep2_bounds(s: Seq<char>, i: int)
    requires
        0 <= i <= s.len(),
    ensures
        i <= find_sep2(s, i) <= s.len(),
        find_sep2(s, i) < s.len() ==> find_sep2(s, i) + 2 <= s.len(),
    decreases s.len() - i,
{
    if i + 2 > s.len() {
    } else if s[i] == '\n' && s[i + 1] == '\n' {
    } else {
        lemma_find_sep2_bounds(s, i + 1);
    }
}

pub open spec fn worktree_prefix() -> Seq<char> {
    seq!['w', 'o', 'r', 'k', 't', 'r', 'e', 'e', ' ']
}

pub open spec fn head_prefix() -> Seq<char> {
    seq!['H', 'E', 'A', 'D', ' ']
}

pub open spec fn branch_prefix() -> Seq<char> {
    seq!['b', 'r', 'a', 'n', 'c', 'h', ' ', 'r', 'e', 'f', 's', '/', 'h', 'e', 'a', 'd', 's', '/']
}

/// One record of the listing, taken from the chunk `s[cs..ce)`.
///
/// A record yields a tree when its first three lines carry the `worktree`,
/// `HEAD` and `branch refs/heads/` prefixes and the branch differs from the
/// default branch; any other chunk is skipped.
pub open spec fn parse_record(s: Seq<char>, cs: int, ce: int, db: Seq<char>) -> Option<TreeView> {
    if !(0 <= cs && cs < ce && ce <= s.len()) {
        None
    } else {
        let e0 = find_nl(s, cs, ce);
        let line0 = strip_cr(s.subrange(cs, e0));
        if !(line0.len() >= worktree_prefix().len() && line0.subrange(0, worktree_prefix().len() as int)
            == worktree_prefix()) {
            None
        } else {
            let path = line0.subrange(worktree_prefix().len() as int, line0.len() as int);
            if !(e0 < ce && e0 + 1 < ce) {
                None
            } else {
                let s1 = e0 + 1;
                let e1 = find_nl(s, s1, ce);
                let line1 = strip_cr(s.subrange(s1, e1));
                if !(line1.len() >= head_prefix().len() && line1.subrange(0, head_prefix().len() as int)
                    == head_prefix()) {
                    None
                } else {
                    let head = line1.subrange(head_prefix().len() as int, line1.len() as int);
                    if !(e1 < ce && e1 + 1 < ce) {
                        None
                    } else {
                        let s2 = e1 + 1;
                        let e2 = find_nl(s, s2, ce);
                        let line2 = strip_cr(s.subrange(s2, e2));
                        if !(line2.len() >= branch_prefix().len() && line2.subrange(
                            0,
                            branch_prefix().len() as int,
                        ) == branch_prefix()) {
                            None
                        } else {
                            let branch = line2.subrange(
                                branch_prefix().len() as int,
                                line2.len() as int,
                            );
                            if branch == db {
                                None
                            } else {
                                Some(
                                    TreeView {
                                        name: last_segment(path),
                                        path: path,
                                        branch: branch,
                                        head: head,
                                    },
                                )
                            }
                        }
                    }
                }
            }
        }
    }
}

/// All records of `s` from `i` on, chunked at blank lines.
pub open spec fn parse_from(s: Seq<char>, i: int, db: Seq<char>) -> Seq<TreeView>
    decreases s.len() - i,
{
    if i < 0 || i > s.len() {
        Seq::empty()
    } else {
        let j = find_sep2(s, i);
        proof {
            lemma_find_sep2_bounds(s, i);
        }
        let rest = if j < s.len() {
            parse_from(s, j + 2, db)
        } else {
            Seq::empty()
        };
        match parse_record(s, i, j, db) {
            Some(t) => seq![t] + rest,
            None => rest,
        }
    }
}

/// One unfolding of [`parse_from`], written out for the parsing loop.
pub proof fn lemma_parse_from_step(s: Seq<char>, i: int, db: Seq<char>)
    requires
        0 <= i <= s.len(),
    ensures
        ({
            let j = find_sep2(s, i);
            let rest = if j < s.len() {
                parse_from(s, j + 2, db)
            } else {
                Seq::<TreeView>::empty()
            };
            parse_from(s, i, db) == match parse_record(s, i, j, db) {
                Some(t) => seq![t] + rest,
                None => rest,
            }
        }),
{
}

/// The trees of one root, parsed from its raw porcelain listing.
///
/// A whitespace-only listing has no trees; records whose branch equals the
/// default branch, and malformed records, are skipped.
pub open spec fn spec_root_trees(raw: Seq<char>, db: Seq<char>) -> Seq<TreeView> {
    if all_space(raw) {
        Seq::empty()
    } else {
        parse_from(raw, 0, db)
    }
}

fn find_sep2_exec(v: &Vec<char>, i: usize) -> (j: usize)
    requires
        i <= v@.len(),
    ensures
        j == find_sep2(v@, i as int),
        i <= j <= v@.len(),
    decreases v@.len() - i,
{
    let n = v.len();
    let mut k: usize = i;
    while n >= 2 && k <= n - 2
        invariant
            i <= k,
            k <= n,
            n == v@.len(),
            find_sep2(v@, i as int) == find_sep2(v@, k as int),
        decreases n - k,
    {
        if v[k] == '\n' && v[k + 1] == '\n' {
            proof {
                lemma_find_sep2_bounds(v@, i as int);
            }
            return k;
        }
        k = k + 1;
    }
    proof {
        lemma_find_sep2_bounds(v@, i as int);
    }
    n
}

/// One chunk `v[cs..ce)` of the listing, parsed into a tree when well formed.
fn parse_record_exec(raw: &str, v: &Vec<char>, cs: usize, ce: usize, db: &str) -> (r: Option<Tree>)
    requires
        v@ == raw@,
        cs <= ce <= v@.len(),
    ensures
        match r {
            Some(t) => parse_record(v@, cs as int, ce as int, db@) == Some(t@),
            None => parse_record(v@, cs as int, ce as int, db@) is None,
        },
{
    proof {
        reveal_strlit("worktree ");
        reveal_strlit("HEAD ");
        reveal_strlit("branch refs/heads/");
        assert("worktree "@ =~= worktree_prefix());
        assert("HEAD "@ =~= head_prefix());
        assert("branch refs/heads/"@ =~= branch_prefix());
    }
    if cs >= ce {
        return None;
    }
    let e0 = find_nl_exec(v, cs, ce);
    let l0e = if e0 > cs && v[e0 - 1] == '\r' {
        e0 - 1
    } else {
        e0
    };
    proof {
        assert(strip_cr(v@.subrange(cs as int, e0 as int)) =~= v@.subrange(cs as int, l0e as int));
    }
    if !range_has_prefix(v, cs, l0e, "worktree ") {
        return None;
    }
    let ghost line0 = strip_cr(v@.subrange(cs as int, e0 as int));
    let ghost path_v = line0.subrange(worktree_prefix().len() as int, line0.len() as int);
    proof {
        assert(path_v =~= v@.subrange(cs + 9, l0e as int));
    }
    if !(e0 < ce && e0 + 1 < ce) {
        return None;
    }
    let s1 = e0 + 1;
    let e1 = find_nl_exec(v, s1, ce);
    let l1e = if e1 > s1 && v[e1 - 1] == '\r' {
        e1 - 1
    } else {
        e1
    };
    proof {
        assert(strip_cr(v@.subrange(s1 as int, e1 as int)) =~= v@.subrange(s1 as int, l1e as int));
    }
    if !range_has_prefix(v, s1, l1e, "HEAD ") {
        return None;
    }
    let ghost line1 = strip_cr(v@.subrange(s1 as int, e1 as int));
    let ghost head_v = line1.subrange(head_prefix().len() as int, line1.len() as int);
    proof {
        assert(head_v =~= v@.subrange(s1 + 5, l1e as int));
    }
    if !(e1 < ce && e1 + 1 < ce) {
        return None;
    }
    let s2 = e1 + 1;
    let e2 = find_nl_exec(v, s2, ce);
    let l2e = if e2 > s2 && v[e2 - 1] == '\r' {
        e2 - 1
    } else {
        e2
    };
    proof {
        assert(strip_cr(v@.subrange(s2 as int, e2 as int)) =~= v@.subrange(s2 as int, l2e as int));
    }
    if !range_has_prefix(v, s2, l2e, "branch refs/heads/") {
        return None;
    }
    let ghost line2 = strip_cr(v@.subrange(s2 as int, e2 as int));
    let ghost branch_v = line2.subrange(branch_prefix().len() as int, line2.len() as int);
    proof {
        assert(branch_v =~= v@.subrange(s2 + 18, l2e as int));
    }
    if range_eq_str(v, s2 + 18, l2e, db) {
        return None;
    }
    // The display name: the last path segment of the worktree path.
    let ps = cs + 9;
    let si = last_segment_start(v, ps, l0e);
    let name = String::from_str(raw.substring_char(si, l0e));
    let path = String::from_str(raw.substring_char(ps, l0e));
    let branch = String::from_str(raw.substring_char(s2 + 18, l2e));
    let head = String::from_str(raw.substring_char(s1 + 5, l1e));
    let t = Tree { name, path, branch, head };
    proof {
        assert(t@.path =~= path_v);
        assert(t@.head =~= head_v);
        assert(t@.branch =~= branch_v);
        assert(t@.name =~= last_segment(path_v));
    }
    Some(t)
}

/// Parse one root's raw worktree listing against its default branch.
///
/// Never fails: a whitespace-only listing is an empty result, malformed
/// records and the default-branch checkout are skipped.
pub fn root_trees(raw_trees: String, default_branch: &str) -> (r: Result<Vec<Tree>, TreesError>)
    ensures
        r is Ok,
        views_of(r->Ok_0@) == spec_root_trees(raw_trees@, default_branch@),
{
    let v = to_chars(raw_trees.as_str());
    let n = v.len();

    let mut i: usize = 0;
    while i < n && is_space_char(v[i])
        invariant
            i <= n,
            n == v@.len(),
            forall|k: int| 0 <= k < i ==> crate::utils::text::is_space(v@[k]),
        decreases n - i,
    {
        i = i + 1;
    }
    if i == n {
        let empty: Vec<Tree> = Vec::new();
        proof {
            assert(all_space(raw_trees@));
            assert(views_of(empty@) =~= Seq::<TreeView>::empty());
        }
        return Ok(empty);
    }
    proof {
        assert(!all_space(raw_trees@));
    }

    let mut out: Vec<Tree> = Vec::new();
    let mut cs: usize = 0;
    let mut j = find_sep2_exec(&v, 0);
    proof {
        lemma_parse_from_step(v@, 0, default_branch@);
    }
    if let Some(t) = parse_record_exec(raw_trees.as_str(), &v, cs, j, default_branch) {
        let ghost before = out@;
        out.push(t);
        proof {
            assert(views_of(out@) =~= views_of(before).push(t@));
            assert(views_of(before).push(t@) =~= seq![t@]);
        }
    }
    while j < n
        invariant
            cs <= j <= n,
            n == v@.len(),
            v@ == raw_trees@,
            j == find_sep2(v@, cs as int),
            views_of(out@) + (if (j as int) < v@.len() {
                parse_from(v@, j + 2, default_branch@)
            } else {
                Seq::<TreeView>::empty()
            }) == parse_from(v@, 0, default_branch@),
        decreases n - j,
    {
        proof {
            lemma_find_sep2_bounds(v@, cs as int);
        }
        cs = j + 2;
        j = find_sep2_exec(&v, cs);
        proof {
            lemma_parse_from_step(v@, cs as int, default_branch@);
        }
        let ghost before = out@;
        if let Some(t) = parse_record_exec(raw_trees.as_str(), &v, cs, j, default_branch) {
            out.push(t);
            proof {
                assert(views_of(out@) =~= views_of(before).push(t@));
                assert(views_of(before).push(t@) + (if (j as int) < v@.len() {
                    parse_from(v@, j + 2, default_branch@)
                } else {
                    Seq::<TreeView>::empty()
                }) =~= views_of(before) + (seq![t@] + (if (j as int) < v@.len() {
                    parse_from(v@, j + 2, default_branch@)
                } else {
                    Seq::<TreeView>::empty()
                })));
            }
        }
    }
    Ok(out)
}

/// No newline anywhere in `x`.
pub open spec fn no_nl(x: Seq<char>) -> bool {
    forall|k: int| 0 <= k < x.len() ==> x[k] != '\n'
}

/// A field as the porcelain format carries it on one line: free of
/// newlines and not ending in a carriage return.
pub open spec fn clean_field(x: Seq<char>) -> bool {
    no_nl(x) && (x.len() == 0 || x[x.len() - 1] != '\r')
}

pub open spec fn nl() -> Seq<char> {
    seq!['\n']
}

/// One record of the listing as text: its three lines, without the
/// record's trailing newline when `trailing` is false.
pub open spec fn record_text(p: Seq<char>, h: Seq<char>, b: Seq<char>, trailing: bool) -> Seq<
    char,
> {
    worktree_prefix() + p + nl() + head_prefix() + h + nl() + branch_prefix() + b + (if trailing {
        nl()
    } else {
        Seq::empty()
    })
}

proof fn lemma_find_nl_at(s: Seq<char>, i: int, e: int, j: int)
    requires
        0 <= i <= j <= e <= s.len(),
        forall|k: int| i <= k < j ==> s[k] != '\n',
        j == e || s[j] == '\n',
    ensures
        find_nl(s, i, e) == j,
    decreases j - i,
{
    if i < j {
        assert(s[i] != '\n');
        lemma_find_nl_at(s, i + 1, e, j);
    }
}

proof fn lemma_find_sep2_at(s: Seq<char>, i: int, j: int)
    requires
        0 <= i <= j,
        j + 2 <= s.len(),
        forall|k: int| i <= k < j ==> !(#[trigger] s[k] == '\n' && s[k + 1] == '\n'),
        s[j] == '\n',
        s[j + 1] == '\n',
    ensures
        find_sep2(s, i) == j,
    decreases j - i,
{
    if i < j {
        lemma_find_sep2_at(s, i + 1, j);
    }
}

proof fn lemma_find_sep2_none(s: Seq<char>, i: int)
    requires
        0 <= i <= s.len(),
        forall|k: int| i <= k && k + 2 <= s.len() ==> !(#[trigger] s[k] == '\n' && s[k + 1] == '\n'),
    ensures
        find_sep2(s, i) == s.len(),
    decreases s.len() - i,
{
    if i + 2 <= s.len() {
        lemma_find_sep2_none(s, i + 1);
    }
}

/// What one well-formed record parses to: nothing when its branch is the
/// default branch, else exactly the tree whose fields are the record's
/// path, head and branch verbatim, named by the path's last segment.
#[verifier::rlimit(60)]
pub proof fn lemma_parse_standard_record(
    s: Seq<char>,
    cs: int,
    ce: int,
    p: Seq<char>,
    h: Seq<char>,
    b: Seq<char>,
    db: Seq<char>,
    trailing: bool,
)
    requires
        0 <= cs <= ce <= s.len(),
        clean_field(p),
        clean_field(h),
        clean_field(b),
        s.subrange(cs, ce) == record_text(p, h, b, trailing),
    ensures
        parse_record(s, cs, ce, db) == (if b == db {
            None::<TreeView>
        } else {
            Some(TreeView { name: last_segment(p), path: p, branch: b, head: h })
        }),
{
    let c = s.subrange(cs, ce);
    let o2 = 9 + p.len() as int;
    let o3 = o2 + 1;
    let o5 = o3 + 5 + h.len();
    let o6 = o5 + 1;
    let o7 = o6 + 18;
    let o8 = o7 + b.len();
    assert(c.len() == o8 + (if trailing { 1int } else { 0int }));
    assert(forall|k: int| 0 <= k < c.len() ==> c[k] == s[cs + k]);

    assert forall|k: int| 0 <= k < o2 implies c[k] != '\n' by {
        if k < 9 {
            assert(c[k] == worktree_prefix()[k]);
        } else {
            assert(c[k] == p[k - 9]);
        }
    }
    assert(c[o2] == '\n');
    let e0 = cs + o2;
    assert forall|k: int| cs <= k < e0 implies s[k] != '\n' by {
        assert(s[k] == c[k - cs]);
        assert(c[k - cs] != '\n');
    }
    lemma_find_nl_at(s, cs, ce, e0);
    assert(strip_cr(s.subrange(cs, e0)) =~= s.subrange(cs, e0)) by {
        assert(s.subrange(cs, e0) =~= c.subrange(0, o2));
        if p.len() > 0 {
            assert(c[o2 - 1] == p[p.len() - 1]);
        } else {
            assert(c[o2 - 1] == worktree_prefix()[8]);
        }
    }
    let line0 = strip_cr(s.subrange(cs, e0));
    assert(line0 =~= c.subrange(0, o2));
    assert(line0.subrange(0, 9) =~= worktree_prefix());
    assert(line0.subrange(9, line0.len() as int) =~= p);

    assert forall|k: int| o3 <= k < o5 implies c[k] != '\n' by {
        if k < o3 + 5 {
            assert(c[k] == head_prefix()[k - o3]);
        } else {
            assert(c[k] == h[k - o3 - 5]);
        }
    }
    assert(c[o5] == '\n');
    let s1 = e0 + 1;
    let e1 = cs + o5;
    assert forall|k: int| s1 <= k < e1 implies s[k] != '\n' by {
        assert(s[k] == c[k - cs]);
        assert(c[k - cs] != '\n');
    }
    lemma_find_nl_at(s, s1, ce, e1);
    assert(strip_cr(s.subrange(s1, e1)) =~= s.subrange(s1, e1)) by {
        if h.len() > 0 {
            assert(c[o5 - 1] == h[h.len() - 1]);
        } else {
            assert(c[o5 - 1] == head_prefix()[4]);
        }
    }
    let line1 = strip_cr(s.subrange(s1, e1));
    assert(line1 =~= c.subrange(o3, o5));
    assert(line1.subrange(0, 5) =~= head_prefix());
    assert(line1.subrange(5, line1.len() as int) =~= h);

    assert forall|k: int| o6 <= k < o8 implies c[k] != '\n' by {
        if k < o7 {
            assert(c[k] == branch_prefix()[k - o6]);
        } else {
            assert(c[k] == b[k - o7]);
        }
    }
    let s2 = e1 + 1;
    let e2 = cs + o8;
    assert forall|k: int| s2 <= k < e2 implies s[k] != '\n' by {
        assert(s[k] == c[k - cs]);
        assert(c[k - cs] != '\n');
    }
    if trailing {
        assert(c[o8] == '\n');
        lemma_find_nl_at(s, s2, ce, e2);
    } else {
        lemma_find_nl_at(s, s2, ce, ce);
        assert(e2 == ce);
    }
    assert(strip_cr(s.subrange(s2, e2)) =~= s.subrange(s2, e2)) by {
        if b.len() > 0 {
            assert(c[o8 - 1] == b[b.len() - 1]);
        } else {
            assert(c[o8 - 1] == branch_prefix()[17]);
        }
    }
    let line2 = strip_cr(s.subrange(s2, e2));
    assert(line2 =~= c.subrange(o6, o8));
    assert(line2.subrange(0, 18) =~= branch_prefix());
    assert(line2.subrange(18, line2.len() as int) =~= b);
}

proof fn lemma_parse_from_no_default(s: Seq<char>, i: int, db: Seq<char>)
    ensures
        forall|k: int|
            0 <= k < parse_from(s, i, db).len() ==> #[trigger] parse_from(s, i, db)[k].branch
                != db,
    decreases s.len() - i,
{
    if 0 <= i <= s.len() {
        let j = find_sep2(s, i);
        lemma_find_sep2_bounds(s, i);
        let rest = if j < s.len() {
            parse_from(s, j + 2, db)
        } else {
            Seq::<TreeView>::empty()
        };
        if j < s.len() {
            lemma_parse_from_no_default(s, j + 2, db);
        }
        match parse_record(s, i, j, db) {
            Some(t) => {
                assert(t.branch != db);
                assert forall|k: int| 0 <= k < parse_from(s, i, db).len() implies #[trigger] parse_from(
                    s,
                    i,
                    db,
                )[k].branch != db by {
                    if k > 0 {
                        assert(parse_from(s, i, db)[k] == rest[k - 1]);
                    }
                }
            },
            None => {
                assert(parse_from(s, i, db) == rest);
            },
        }
    }
}

/// No surfaced tree is checked out on the default branch: the default
/// checkout is the root itself, never a tree, whatever the listing holds.
pub proof fn lemma_no_default_branch_tree(raw: Seq<char>, db: Seq<char>)
    ensures
        forall|k: int|
            0 <= k < spec_root_trees(raw, db).len() ==> #[trigger] spec_root_trees(raw, db)[k].branch
                != db,
{
    lemma_parse_from_no_default(raw, 0, db);
}

/// Where the newlines of one record's text sit: after each of its three
/// lines and nowhere else.
#[verifier::rlimit(60)]
proof fn lemma_record_text_nl_positions(p: Seq<char>, h: Seq<char>, b: Seq<char>)
    requires
        clean_field(p),
        clean_field(h),
        clean_field(b),
    ensures
        ({
            let r = record_text(p, h, b, true);
            forall|k: int|
                0 <= k < r.len() ==> ((#[trigger] r[k] == '\n') <==> (k == 9 + p.len() || k == 15
                    + p.len() + h.len() || k == r.len() - 1))
        }),
{
    let r = record_text(p, h, b, true);
    let a2 = 9 + p.len() as int;
    let a5 = a2 + 6 + h.len();
    let a8 = a5 + 19 + b.len();
    assert(r.len() == a8 + 1);
    assert forall|k: int| 0 <= k < r.len() implies ((#[trigger] r[k] == '\n') <==> (k == a2 || k
        == a5 || k == a8)) by {
        if k < 9 {
            assert(r[k] == worktree_prefix()[k]);
        } else if k < a2 {
            assert(r[k] == p[k - 9]);
        } else if k == a2 {
            assert(r[k] == '\n');
        } else if k < a2 + 6 {
            assert(r[k] == head_prefix()[k - a2 - 1]);
        } else if k < a5 {
            assert(r[k] == h[k - a2 - 6]);
        } else if k == a5 {
            assert(r[k] == '\n');
        } else if k < a5 + 19 {
            assert(r[k] == branch_prefix()[k - a5 - 1]);
        } else if k < a8 {
            assert(r[k] == b[k - a5 - 19]);
        } else {
            assert(r[k] == '\n');
        }
    }
}

/// The shape facts the listing lemma needs of one record's text: it
/// starts with `w`, ends with its newline, and holds no blank line.
proof fn lemma_record_text_shape(p: Seq<char>, h: Seq<char>, b: Seq<char>)
    requires
        clean_field(p),
        clean_field(h),
        clean_field(b),
    ensures
        ({
            let r = record_text(p, h, b, true);
            &&& r.len() == 35 + p.len() + h.len() + b.len()
            &&& r[r.len() - 1] == '\n'
            &&& r[0] == 'w'
            &&& forall|k: int|
                0 <= k < r.len() - 1 ==> !(#[trigger] r[k] == '\n' && r[k + 1] == '\n')
        }),
{
    let r = record_text(p, h, b, true);
    let a2 = 9 + p.len() as int;
    let a5 = a2 + 6 + h.len();
    let a8 = a5 + 19 + b.len();
    lemma_record_text_nl_positions(p, h, b);
    assert(r[0] == worktree_prefix()[0]);
    assert(r[a8] == '\n');
    assert forall|k: int| 0 <= k < r.len() - 1 implies !(#[trigger] r[k] == '\n' && r[k + 1]
        == '\n') by {
        if r[k] == '\n' && r[k + 1] == '\n' {
            assert(k == a2 || k == a5);
            assert(k + 1 == a2 || k + 1 == a5 || k + 1 == a8);
        }
    }
}

/// What a two-record listing parses to: the record checked out on the
/// default branch contributes nothing, and the other record yields
/// exactly one tree whose path, head and branch are the record's fields
/// verbatim, named by the path's last segment.
#[verifier::rlimit(100)]
#[verifier::spinoff_prover]
pub proof fn lemma_two_record_listing(
    p1: Seq<char>,
    h1: Seq<char>,
    b1: Seq<char>,
    p2: Seq<char>,
    h2: Seq<char>,
    b2: Seq<char>,
    db: Seq<char>,
)
    requires
        clean_field(p1),
        clean_field(h1),
        clean_field(b1),
        clean_field(p2),
        clean_field(h2),
        clean_field(b2),
        b1 == db,
        b2 != db,
    ensures
        ({
            let raw = record_text(p1, h1, b1, true) + nl() + record_text(p2, h2, b2, true);
            spec_root_trees(raw, db) == seq![
                TreeView { name: last_segment(p2), path: p2, branch: b2, head: h2 },
            ]
        }),
{
    let r1 = record_text(p1, h1, b1, true);
    let r2 = record_text(p2, h2, b2, true);
    let raw = r1 + nl() + r2;
    let len1 = r1.len() as int;
    let n = raw.len() as int;
    let j = len1 - 1;
    lemma_record_text_shape(p1, h1, b1);
    lemma_record_text_shape(p2, h2, b2);
    assert(forall|k: int| 0 <= k < len1 ==> raw[k] == r1[k]);
    assert(raw[len1] == '\n');
    assert(forall|k: int| len1 + 1 <= k < n ==> raw[k] == r2[k - len1 - 1]);

    // The first blank line sits exactly between the two records.
    assert(raw[j] == '\n');
    assert forall|k: int| 0 <= k < j implies !(#[trigger] raw[k] == '\n' && raw[k + 1] == '\n')
        by {
        if raw[k] == '\n' && raw[k + 1] == '\n' {
            assert(r1[k] == '\n' && r1[k + 1] == '\n');
        }
    }
    lemma_find_sep2_at(raw, 0, j);

    // The first chunk is the first record without its trailing newline.
    assert(raw.subrange(0, j) =~= record_text(p1, h1, b1, false));
    lemma_parse_standard_record(raw, 0, j, p1, h1, b1, db, false);

    // The rest of the listing is one chunk: the second record.
    assert forall|k: int| j + 2 <= k && k + 2 <= n implies !(#[trigger] raw[k] == '\n' && raw[k
        + 1] == '\n') by {
        if raw[k] == '\n' && raw[k + 1] == '\n' {
            assert(r2[k - len1 - 1] == '\n' && r2[k - len1] == '\n');
        }
    }
    lemma_find_sep2_none(raw, j + 2);
    assert(raw.subrange(j + 2, n) =~= r2);
    lemma_parse_standard_record(raw, j + 2, n, p2, h2, b2, db, true);

    let tv = TreeView { name: last_segment(p2), path: p2, branch: b2, head: h2 };
    lemma_parse_from_step(raw, j + 2, db);
    assert(parse_from(raw, j + 2, db) =~= seq![tv]);
    lemma_parse_from_step(raw, 0, db);
    assert(parse_from(raw, 0, db) == seq![tv]);

    assert(raw[0] == worktree_prefix()[0]);
    assert(!crate::utils::text::is_space(raw[0]));
    assert(!all_space(raw));
}

/// A whitespace-only listing yields no trees, whatever the default
/// branch.
pub proof fn lemma_blank_listing_empty(raw: Seq<char>, db: Seq<char>)
    requires
        all_space(raw),
    ensures
        spec_root_trees(raw, db) == Seq::<TreeView>::empty(),
{
}

/// Everything the registry needs to list one root: the root and the
/// outcomes of the four read-only git commands the application ran
/// against it.
pub struct RootListing {
    pub root: Root,
    pub remotes: CmdOutput,
    pub branches: CmdOutput,
    pub symref: CmdOutput,
    pub worktrees: CmdOutput,
}

/// The raw text a root's worktree listing contributes: a failed listing
/// counts as empty — a fresh root simply reports zero trees.
pub open spec fn spec_raw_listing(o: CmdOutput) -> Seq<char> {
    if o.ok {
        o.stdout@
    } else {
        Seq::empty()
    }
}

/// Tolerate a failed `git worktree list`: its text, or nothing.
pub fn git_root_trees(output: &CmdOutput) -> (r: String)
    ensures
        r@ == spec_raw_listing(*output),
{
    if output.ok {
        output.stdout.clone()
    } else {
        String::new()
    }
}

/// Does the root filter keep this input?
pub open spec fn keeps(x: RootListing, g: Option<Seq<char>>) -> bool {
    match g {
        Some(n) => x.root.name@ == n,
        None => true,
    }
}

/// The filter as a view.
pub open spec fn opt_name_view(o: Option<String>) -> Option<Seq<char>> {
    match o {
        Some(s) => Some(s@),
        None => None,
    }
}

/// The branch a root's queries resolve to, by the one policy.
pub open spec fn input_default_branch(x: RootListing) -> Option<Seq<char>> {
    resolved_branch(x.remotes, x.branches, x.symref)
}

/// Listing one root succeeds exactly when its default-branch resolution
/// does.
pub open spec fn input_ok(x: RootListing) -> bool {
    resolution_ok(x.remotes, x.branches, x.symref)
}

/// The trees a successfully listed root contributes.
pub open spec fn input_trees(x: RootListing) -> Seq<TreeView> {
    match input_default_branch(x) {
        Some(db) => spec_root_trees(spec_raw_listing(x.worktrees), db),
        None => Seq::empty(),
    }
}

/// The error a failing input produces.
pub open spec fn err_matches(e: GitError, x: RootListing) -> bool {
    resolution_err(e, x.root.path@, x.remotes, x.branches, x.symref)
}

/// Index of the first kept input whose listing fails; `-1` if none.
pub open spec fn first_bad(inputs: Seq<RootListing>, g: Option<Seq<char>>, i: int) -> int
    decreases inputs.len() - i,
{
    if i < 0 || i >= inputs.len() {
        -1
    } else if keeps(inputs[i], g) && !input_ok(inputs[i]) {
        i
    } else {
        first_bad(inputs, g, i + 1)
    }
}

/// The entries the kept inputs from `i` on contribute, in input order.
pub open spec fn spec_entries(inputs: Seq<RootListing>, g: Option<Seq<char>>, i: int) -> Seq<
    (Seq<char>, Seq<TreeView>),
>
    decreases inputs.len() - i,
{
    if i < 0 || i >= inputs.len() {
        Seq::empty()
    } else {
        let rest = spec_entries(inputs, g, i + 1);
        if keeps(inputs[i], g) {
            seq![(inputs[i].root.name@, input_trees(inputs[i]))] + rest
        } else {
            rest
        }
    }
}

/// Does the filter keep any input from `i` on?
pub open spec fn any_kept(inputs: Seq<RootListing>, g: Option<Seq<char>>, i: int) -> bool
    decreases inputs.len() - i,
{
    if i < 0 || i >= inputs.len() {
        false
    } else {
        keeps(inputs[i], g) || any_kept(inputs, g, i + 1)
    }
}

pub open spec fn entry_views(s: Seq<RootTrees>) -> Seq<(Seq<char>, Seq<TreeView>)> {
    s.map_values(|e: RootTrees| (e.root@, views_of(e.trees@)))
}

/// The read model: the trees of every kept root, in input order.
///
/// Each kept root's default branch is resolved by the applicable policy
/// and its listing parsed against it; a failed worktree listing counts
/// as empty, while a failed remote query or an unresolvable default
/// branch aborts the whole call with that root's error. A filter naming
/// a root that no input carries yields that root with no trees — the
/// "no trees yet" reading — rather than an error.
pub fn call(inputs: &Vec<RootListing>, root_filter: &Option<String>) -> (r: Result<
    RootsTrees,
    GitError,
>)
    ensures
        ({
            let g = opt_name_view(*root_filter);
            let fb = first_bad(inputs@, g, 0);
            &&& (r is Ok) == (fb == -1)
            &&& (r is Err ==> err_matches(r->Err_0, inputs@[fb]))
            &&& (r is Ok && g is Some && !any_kept(inputs@, g, 0) ==> (r->Ok_0@.len() == 1 && (
            g matches Some(gn) ==> r->Ok_0@[0].root@ == gn) && r->Ok_0@[0].trees@.len() == 0))
            &&& (r is Ok && (g is None || any_kept(inputs@, g, 0)) ==> entry_views(r->Ok_0@)
                == spec_entries(inputs@, g, 0))
        }),
{
    let ghost g = opt_name_view(*root_filter);
    let mut out: Vec<RootTrees> = Vec::new();
    let mut matched = false;
    let mut i: usize = 0;
    proof {
        assert(entry_views(out@) + spec_entries(inputs@, g, 0) =~= spec_entries(inputs@, g, 0));
    }
    while i < inputs.len()
        invariant
            i <= inputs@.len(),
            g == opt_name_view(*root_filter),
            first_bad(inputs@, g, 0) == first_bad(inputs@, g, i as int),
            any_kept(inputs@, g, 0) == (matched || any_kept(inputs@, g, i as int)),
            entry_views(out@) + spec_entries(inputs@, g, i as int) == spec_entries(inputs@, g, 0),
        decreases inputs@.len() - i,
    {
        let x = &inputs[i];
        let keep = match root_filter {
            Some(gname) => str_eq(x.root.name.as_str(), gname.as_str()),
            None => true,
        };
        proof {
            assert(keep == keeps(inputs@[i as int], g));
        }
        if keep {
            matched = true;
            let git = Git::new(&x.root.path);
            let db = match git.resolve_default_branch(&x.remotes, &x.branches, &x.symref) {
                Ok(d) => d,
                Err(e) => {
                    proof {
                        assert(!input_ok(inputs@[i as int]));
                        assert(first_bad(inputs@, g, i as int) == i as int);
                    }
                    return Err(e);
                },
            };
            let raw = git_root_trees(&x.worktrees);
            let ts = root_trees(raw, db.as_str()).unwrap();
            let ghost before = out@;
            out.push(RootTrees { root: x.root.name.clone(), trees: ts });
            proof {
                assert(input_ok(inputs@[i as int]));
                assert(first_bad(inputs@, g, i as int) == first_bad(inputs@, g, i + 1));
                assert(any_kept(inputs@, g, i as int));
                assert(views_of(out@[out@.len() - 1].trees@) == input_trees(inputs@[i as int]));
                assert(entry_views(out@) =~= entry_views(before).push(
                    (inputs@[i as int].root.name@, input_trees(inputs@[i as int])),
                ));
                assert(spec_entries(inputs@, g, i as int) == seq![
                    (inputs@[i as int].root.name@, input_trees(inputs@[i as int])),
                ] + spec_entries(inputs@, g, i + 1));
                assert(entry_views(out@) + spec_entries(inputs@, g, i + 1) =~= entry_views(before)
                    + spec_entries(inputs@, g, i as int));
            }
        } else {
            proof {
                assert(first_bad(inputs@, g, i as int) == first_bad(inputs@, g, i + 1));
                assert(any_kept(inputs@, g, i as int) == any_kept(inputs@, g, i + 1));
                assert(spec_entries(inputs@, g, i as int) == spec_entries(inputs@, g, i + 1));
            }
        }
        i = i + 1;
    }
    proof {
        assert(first_bad(inputs@, g, inputs@.len() as int) == -1);
        assert(!any_kept(inputs@, g, inputs@.len() as int));
        assert(spec_entries(inputs@, g, inputs@.len() as int) =~= Seq::<
            (Seq<char>, Seq<TreeView>),
        >::empty());
        assert(entry_views(out@) =~= entry_views(out@) + spec_entries(
            inputs@,
            g,
            inputs@.len() as int,
        ));
    }
    if !matched {
        if let Some(gname) = root_filter {
            let mut only: Vec<RootTrees> = Vec::new();
            only.push(RootTrees { root: gname.clone(), trees: Vec::new() });
            proof {
                assert(only@[0].trees@.len() == 0);
            }
            return Ok(only);
        }
    }
    Ok(out)
}

} // verus!


//! Interactive bulk cleanup, as an explicit state machine.
//!
//! The application drives the machine: it presents the selection, asks
//! for confirmation, runs each deletion, and feeds every answer back in.
//! Each terminal outcome — nothing to clean, nothing selected, declined
//! confirmation, completed batch — is a state of its own.

use vstd::prelude::*;
use vstd::string::*;

use super::{RootTrees, Tree, TreeView, views_of};

verus! {

/// One deletable tree, tagged with the root it belongs to.
pub struct CleanItem {
    pub root: String,
    pub tree: Tree,
}

/// The recorded outcome of one selected item: `failure` carries the error
/// text when its deletion failed, and is `None` when it succeeded.
pub struct CleanResult {
    pub item: CleanItem,
    pub failure: Option<String>,
}

/// The states of the cleanup run. Listing is the entry transition
/// ([`call`]); Reporting and Cancelled are terminal.
pub enum CleanState {
    /// The flattened trees await multi-selection.
    Selecting { items: Vec<CleanItem> },
    /// The chosen trees await an explicit confirmation.
    Confirming { chosen: Vec<CleanItem> },
    /// Deletions run one by one; `pending` is what is left, `report` what
    /// already has an outcome.
    Deleting { pending: Vec<CleanItem>, report: Vec<CleanResult> },
    /// Terminal: every selected item has exactly one outcome.
    Reporting { report: Vec<CleanResult> },
    /// Terminal: nothing was deleted.
    Cancelled { message: String },
}

/// The mathematical value of an item: its root and tree views.
pub open spec fn item_view(c: CleanItem) -> (Seq<char>, TreeView) {
    (c.root@, c.tree@)
}

pub open spec fn item_views(items: Seq<CleanItem>) -> Seq<(Seq<char>, TreeView)> {
    items.map_values(|c: CleanItem| item_view(c))
}

pub open spec fn result_views(rs: Seq<CleanResult>) -> Seq<
    ((Seq<char>, TreeView), Option<Seq<char>>),
> {
    rs.map_values(
        |r: CleanResult|
            (
                item_view(r.item),
                match r.failure {
                    Some(m) => Some(m@),
                    None => None,
                },
            ),
    )
}

/// Every tree of every root, flattened in listing order, from entry `i` on.
pub open spec fn spec_flatten_from(lst: Seq<RootTrees>, i: int) -> Seq<(Seq<char>, TreeView)>
    decreases lst.len() - i,
{
    if i < 0 || i >= lst.len() {
        Seq::empty()
    } else {
        views_of(lst[i].trees@).map_values(|t: TreeView| (lst[i].root@, t)) + spec_flatten_from(
            lst,
            i + 1,
        )
    }
}

/// The items the given selection indices pick, in selection order;
/// indices out of range pick nothing.
pub open spec fn spec_chosen(items: Seq<CleanItem>, sels: Seq<usize>) -> Seq<
    (Seq<char>, TreeView),
>
    decreases sels.len(),
{
    if sels.len() == 0 {
        Seq::empty()
    } else {
        let head = if (sels[0] as int) < items.len() {
            seq![item_view(items[sels[0] as int])]
        } else {
            Seq::empty()
        };
        head + spec_chosen(items, sels.drop_first())
    }
}

/// The deleting phase as a function: one [`record`] step takes the first
/// pending item and appends it, paired with its outcome, to the report.
pub open spec fn spec_deleting_run(
    pending: Seq<(Seq<char>, TreeView)>,
    report: Seq<((Seq<char>, TreeView), Option<Seq<char>>)>,
    outcomes: Seq<Option<Seq<char>>>,
) -> Seq<((Seq<char>, TreeView), Option<Seq<char>>)>
    decreases outcomes.len(),
{
    if outcomes.len() == 0 || pending.len() == 0 {
        report
    } else {
        spec_deleting_run(
            pending.drop_first(),
            report.push((pending[0], outcomes[0])),
            outcomes.drop_first(),
        )
    }
}

proof fn lemma_deleting_run_acc(
    pending: Seq<(Seq<char>, TreeView)>,
    report: Seq<((Seq<char>, TreeView), Option<Seq<char>>)>,
    outcomes: Seq<Option<Seq<char>>>,
)
    requires
        pending.len() == outcomes.len(),
    ensures
        ({
            let rep = spec_deleting_run(pending, report, outcomes);
            &&& rep.len() == report.len() + pending.len()
            &&& forall|k: int| 0 <= k < report.len() ==> rep[k] == report[k]
            &&& forall|k: int|
                0 <= k < pending.len() ==> rep[report.len() + k] == (pending[k], outcomes[k])
        }),
    decreases outcomes.len(),
{
    if outcomes.len() > 0 && pending.len() > 0 {
        let r2 = report.push((pending[0], outcomes[0]));
        lemma_deleting_run_acc(pending.drop_first(), r2, outcomes.drop_first());
        let rep = spec_deleting_run(pending, report, outcomes);
        assert(rep == spec_deleting_run(pending.drop_first(), r2, outcomes.drop_first()));
        assert forall|k: int| 0 <= k < report.len() implies rep[k] == report[k] by {
            assert(rep[k] == r2[k]);
        }
        assert forall|k: int| 0 <= k < pending.len() implies rep[report.len() + k] == (
        pending[k],
        outcomes[k],
        ) by {
            if k == 0 {
                assert(rep[report.len() as int] == r2[report.len() as int]);
            } else {
                assert(rep[r2.len() + (k - 1)] == (
                    pending.drop_first()[k - 1],
                    outcomes.drop_first()[k - 1],
                ));
            }
        }
    }
}

/// One outcome per selected item, in selection order: running the batch
/// over the queued items — one failure never stopping it — ends with a
/// report that pairs the k-th selected item with the k-th outcome,
/// nothing more and nothing less.
pub proof fn lemma_deleting_run_pairs(
    pending: Seq<(Seq<char>, TreeView)>,
    outcomes: Seq<Option<Seq<char>>>,
)
    requires
        pending.len() == outcomes.len(),
    ensures
        ({
            let rep = spec_deleting_run(pending, Seq::empty(), outcomes);
            &&& rep.len() == pending.len()
            &&& forall|k: int| 0 <= k < rep.len() ==> rep[k] == (pending[k], outcomes[k])
        }),
{
    lemma_deleting_run_acc(pending, Seq::empty(), outcomes);
}

/// Listing: flatten the read model into the selectable items. An empty
/// flattening ends the run at once.
pub fn call(listing: &Vec<RootTrees>) -> (s: CleanState)
    ensures
        spec_flatten_from(listing@, 0).len() == 0 ==> (s matches CleanState::Cancelled { message }
            && message@ == "No trees found to clean"@),
        spec_flatten_from(listing@, 0).len() > 0 ==> (s matches CleanState::Selecting { items }
            && item_views(items@) == spec_flatten_from(listing@, 0)),
{
    let mut items: Vec<CleanItem> = Vec::new();
    let mut i: usize = 0;
    proof {
        assert(item_views(items@) + spec_flatten_from(listing@, 0) =~= spec_flatten_from(
            listing@,
            0,
        ));
    }
    while i < listing.len()
        invariant
            i <= listing@.len(),
            item_views(items@) + spec_flatten_from(listing@, i as int) == spec_flatten_from(
                listing@,
                0,
            ),
        decreases listing@.len() - i,
    {
        let entry = &listing[i];
        let ghost tagged = views_of(entry.trees@).map_values(
            |t: TreeView| (listing@[i as int].root@, t),
        );
        let mut j: usize = 0;
        while j < entry.trees.len()
            invariant
                j <= entry.trees@.len(),
                i < listing@.len(),
                *entry == listing@[i as int],
                tagged == views_of(entry.trees@).map_values(
                    |t: TreeView| (listing@[i as int].root@, t),
                ),
                item_views(items@) + tagged.skip(j as int) + spec_flatten_from(listing@, i + 1)
                    == spec_flatten_from(listing@, 0),
            decreases entry.trees@.len() - j,
        {
            let ghost before = items@;
            items.push(CleanItem { root: entry.root.clone(), tree: entry.trees[j].clone() });
            proof {
                assert(item_views(items@) =~= item_views(before).push(
                    (entry.root@, entry.trees@[j as int]@),
                ));
                assert(tagged[j as int] == (listing@[i as int].root@, entry.trees@[j as int]@));
                assert(item_views(items@) + tagged.skip(j + 1) =~= item_views(before)
                    + tagged.skip(j as int));
                assert((item_views(items@) + tagged.skip(j + 1)) + spec_flatten_from(
                    listing@,
                    i + 1,
                ) =~= (item_views(before) + tagged.skip(j as int)) + spec_flatten_from(
                    listing@,
                    i + 1,
                ));
            }
            j = j + 1;
        }
        proof {
            assert(tagged.skip(entry.trees@.len() as int)
                =~= Seq::<(Seq<char>, TreeView)>::empty());
            assert(spec_flatten_from(listing@, i as int) == tagged + spec_flatten_from(
                listing@,
                i + 1,
            ));
            assert(item_views(items@) + spec_flatten_from(listing@, i + 1) =~= (item_views(items@)
                + tagged.skip(entry.trees@.len() as int)) + spec_flatten_from(listing@, i + 1));
        }
        i = i + 1;
    }
    proof {
        assert(spec_flatten_from(listing@, listing@.len() as int)
            =~= Seq::<(Seq<char>, TreeView)>::empty());
        assert(item_views(items@) =~= item_views(items@) + spec_flatten_from(
            listing@,
            listing@.len() as int,
        ));
    }
    if items.len() == 0 {
        CleanState::Cancelled { message: "No trees found to clean".to_owned() }
    } else {
        CleanState::Selecting { items }
    }
}

/// Selecting: the user picked `selections` by index. Picking nothing
/// ends the run; otherwise the chosen items await confirmation.
pub fn select(items: Vec<CleanItem>, selections: &Vec<usize>) -> (s: CleanState)
    ensures
        selections@.len() == 0 ==> (s matches CleanState::Cancelled { message } && message@
            == "No trees selected"@),
        selections@.len() > 0 ==> (s matches CleanState::Confirming { chosen } && item_views(
            chosen@,
        ) == spec_chosen(items@, selections@)),
{
    if selections.len() == 0 {
        return CleanState::Cancelled { message: "No trees selected".to_owned() };
    }
    let mut chosen: Vec<CleanItem> = Vec::new();
    let mut k: usize = 0;
    proof {
        assert(selections@.skip(0) =~= selections@);
        assert(item_views(chosen@) + spec_chosen(items@, selections@) =~= spec_chosen(
            items@,
            selections@,
        ));
    }
    while k < selections.len()
        invariant
            k <= selections@.len(),
            item_views(chosen@) + spec_chosen(items@, selections@.skip(k as int)) == spec_chosen(
                items@,
                selections@,
            ),
        decreases selections@.len() - k,
    {
        let sel = selections[k];
        proof {
            assert(selections@.skip(k as int)[0] == selections@[k as int]);
            assert(selections@.skip(k as int).drop_first() =~= selections@.skip(k + 1));
        }
        if sel < items.len() {
            let ghost before = chosen@;
            chosen.push(
                CleanItem { root: items[sel].root.clone(), tree: items[sel].tree.clone() },
            );
            proof {
                assert(item_views(chosen@) =~= item_views(before).push(
                    item_view(items@[sel as int]),
                ));
                assert(item_views(chosen@) + spec_chosen(items@, selections@.skip(k + 1))
                    =~= item_views(before) + spec_chosen(items@, selections@.skip(k as int)));
            }
        } else {
            proof {
                assert(spec_chosen(items@, selections@.skip(k as int)) == spec_chosen(
                    items@,
                    selections@.skip(k + 1),
                ));
            }
        }
        k = k + 1;
    }
    proof {
        assert(selections@.skip(selections@.len() as int) =~= Seq::<usize>::empty());
        assert(item_views(chosen@) =~= item_views(chosen@) + spec_chosen(
            items@,
            selections@.skip(selections@.len() as int),
        ));
    }
    CleanState::Confirming { chosen }
}

/// Confirming: deletion is destructive, so it needs an explicit yes.
/// Declining cancels the run with nothing deleted; agreeing queues the
/// chosen items in selection order with an empty report.
pub fn confirm(chosen: Vec<CleanItem>, yes: bool) -> (s: CleanState)
    ensures
        !yes ==> (s matches CleanState::Cancelled { message } && message@ == "Clean cancelled"@),
        yes ==> (s matches CleanState::Deleting { pending, report } && pending@ == chosen@
            && report@.len() == 0),
{
    if yes {
        CleanState::Deleting { pending: chosen, report: Vec::new() }
    } else {
        CleanState::Cancelled { message: "Clean cancelled".to_owned() }
    }
}

/// Deleting: record the outcome of the first pending item. One failure
/// never stops the batch: the item gets its outcome and the machine moves
/// on, reaching Reporting when every item has exactly one outcome, in
/// selection order.
pub fn record(pending: Vec<CleanItem>, report: Vec<CleanResult>, failure: Option<String>) -> (s:
    CleanState)
    requires
        pending@.len() > 0,
    ensures
        ({
            let fv = match failure {
                Some(m) => Some(m@),
                None => None,
            };
            let rec = result_views(report@).push((item_view(pending@[0]), fv));
            &&& rec == spec_deleting_run(item_views(pending@), result_views(report@), seq![fv])
            &&& if pending@.len() == 1 {
                s matches CleanState::Reporting { report: r2 } && result_views(r2@) == rec
            } else {
                s matches CleanState::Deleting { pending: p2, report: r2 } && p2@
                    == pending@.drop_first() && result_views(r2@) == rec
            }
        }),
{
    let mut pending = pending;
    let mut report = report;
    let ghost p0 = pending@;
    let ghost before = report@;
    let ghost fv = match &failure {
        Some(m) => Some(m@),
        None => None::<Seq<char>>,
    };
    let item = pending.remove(0);
    proof {
        assert(pending@ =~= p0.drop_first());
    }
    report.push(CleanResult { item, failure });
    proof {
        assert(result_views(report@) =~= result_views(before).push((item_view(p0[0]), fv)));
        assert(seq![fv].drop_first() =~= Seq::<Option<Seq<char>>>::empty());
        assert(seq![fv][0] == fv);
        assert(spec_deleting_run(
            item_views(p0).drop_first(),
            result_views(before).push((item_views(p0)[0], fv)),
            Seq::<Option<Seq<char>>>::empty(),
        ) == result_views(before).push((item_views(p0)[0], fv)));
        assert(spec_deleting_run(item_views(p0), result_views(before), seq![fv])
            == result_views(before).push((item_views(p0)[0], fv)));
        assert(item_views(p0)[0] == item_view(p0[0]));
    }
    if pending.len() == 0 {
        CleanState::Reporting { report }
    } else {
        CleanState::Deleting { pending, report }
    }
}

} // verus!

use vstd::prelude::*;
use crate::reference::{RefView, ComponentView};
use crate::tree::{TreeView, EntryView, tree_view_wf, propagated, walk, reference_walk};
use crate::analysis::{safety_spec, rank};

verus! {

/// Folding the same reference in a second time changes nothing, so a
/// repeated analysis of an unchanged tree leaves the same blockers and the
/// same report.
pub proof fn lemma_propagation_idempotent(t: TreeView, file: int, r: RefView, cs: Seq<ComponentView>, low: Seq<Seq<char>>)
    requires
        tree_view_wf(t),
        0 < file < t.shape.len(),
    ensures
        propagated(propagated(t, file, r, cs), file, r, cs) == propagated(t, file, r, cs),
        forall|n: int| 0 <= n < t.shape.len() ==> safety_spec(#[trigger] propagated(propagated(t, file, r, cs), file, r, cs).moves[n], low)
            == safety_spec(propagated(t, file, r, cs).moves[n], low),
{
    let once = propagated(t, file, r, cs);
    let twice = propagated(once, file, r, cs);
    assert forall|n: int| 0 <= n < t.moves.len() implies #[trigger] twice.moves[n] == once.moves[n] by {
        assert(t.moves[n].insert(r).insert(r) =~= t.moves[n].insert(r));
    }
    assert forall|n: int| 0 <= n < t.renames.len() implies #[trigger] twice.renames[n] == once.renames[n] by {
        assert(t.renames[n].insert(r).insert(r) =~= t.renames[n].insert(r));
    }
    assert(twice.moves =~= once.moves);
    assert(twice.renames =~= once.renames);
}

/// A verdict never moves back towards safe when blockers are added.
pub proof fn lemma_safety_monotone(s1: Set<RefView>, s2: Set<RefView>, low: Seq<Seq<char>>)
    requires
        s1.subset_of(s2),
    ensures
        rank(safety_spec(s1, low)) <= rank(safety_spec(s2, low)),
{
    if !s1.is_empty() && s2.is_empty() {
        let x = choose|x: RefView| s1.contains(x);
        assert(s2.contains(x));
    }
    if !s1.is_empty() && rank(safety_spec(s1, low)) == 2 {
        if exists|r: RefView| s2 == set![r] && low.contains(r.file) {
            let r = choose|r: RefView| s2 == set![r] && low.contains(r.file);
            let x = choose|x: RefView| s1.contains(x);
            assert(s2.contains(x));
            assert(s1 =~= set![r]);
        }
    }
}

/// Adding a reference only adds blockers, and so can only move a node from
/// safe towards blocked.
pub proof fn lemma_propagation_monotone(t: TreeView, file: int, r: RefView, cs: Seq<ComponentView>, low: Seq<Seq<char>>)
    requires
        tree_view_wf(t),
        0 < file < t.shape.len(),
    ensures
        forall|n: int| 0 <= n < t.shape.len() ==> t.moves[n].subset_of(#[trigger] propagated(t, file, r, cs).moves[n]),
        forall|n: int| 0 <= n < t.shape.len() ==> t.renames[n].subset_of(#[trigger] propagated(t, file, r, cs).renames[n]),
        forall|n: int| 0 <= n < t.shape.len() ==> rank(safety_spec(t.moves[n], low)) <= rank(safety_spec(#[trigger] propagated(t, file, r, cs).moves[n], low)),
{
    let p = propagated(t, file, r, cs);
    assert forall|n: int| 0 <= n < t.shape.len() implies rank(safety_spec(t.moves[n], low)) <= rank(safety_spec(#[trigger] p.moves[n], low)) by {
        lemma_safety_monotone(t.moves[n], p.moves[n], low);
    }
}

/// The file that holds a reference is always among its own move blockers.
pub proof fn lemma_self_blocking(t: TreeView, file: int, r: RefView, cs: Seq<ComponentView>)
    requires
        tree_view_wf(t),
        0 < file < t.shape.len(),
    ensures
        propagated(t, file, r, cs).moves[file].contains(r),
{
}

/// Every node a walk marks as rename-blocked it also marks as move-blocked.
pub proof fn lemma_walk_renames_in_moves(t: Seq<EntryView>, cur: int, cs: Seq<ComponentView>)
    ensures
        walk(t, cur, cs).renames.subset_of(walk(t, cur, cs).moves),
    decreases cs.len(),
{
    if cs.len() > 0 {
        match cs[0] {
            ComponentView::CurDir => lemma_walk_renames_in_moves(t, cur, cs.drop_first()),
            ComponentView::ParentDir => match t[cur].parent {
                Some(p) => lemma_walk_renames_in_moves(t, p as int, cs.drop_first()),
                None => {},
            },
            ComponentView::Normal(name) => match crate::tree::child_named(t, cur, name) {
                Some(c) => lemma_walk_renames_in_moves(t, c as int, cs.drop_first()),
                None => {},
            },
            ComponentView::Anchor => {},
        }
    }
}

/// A reference makes a node rename-blocked only where it makes it
/// move-blocked too: only name steps rename-block, while `..` steps and the
/// file itself only move-block.
pub proof fn lemma_rename_blockers_also_block_moves(t: TreeView, file: int, r: RefView, cs: Seq<ComponentView>)
    requires
        tree_view_wf(t),
        0 < file < t.shape.len(),
    ensures
        forall|n: int| 0 <= n < t.shape.len() && #[trigger] propagated(t, file, r, cs).renames[n].contains(r)
            && !t.renames[n].contains(r) ==> propagated(t, file, r, cs).moves[n].contains(r),
{
    lemma_walk_renames_in_moves(t.shape, t.shape[file].parent.unwrap() as int, cs);
    let w = reference_walk(t.shape, file, cs);
    assert forall|n: int| 0 <= n < t.shape.len() && #[trigger] propagated(t, file, r, cs).renames[n].contains(r)
        && !t.renames[n].contains(r) implies propagated(t, file, r, cs).moves[n].contains(r) by {
        assert(w.renames.contains(n));
        assert(w.moves.contains(n));
    }
}

} // verus!

use vstd::prelude::*;
use crate::reference::{Reference, RefView, ref_set, TargetKind, ResolveError, resolve, resolved_components, components_view};
use crate::tree::{FileTree, PropagateError, propagated, reference_walk};

verus! {

/// How a node fares in the report.
pub enum Safety {
    /// Nothing blocks moving it.
    Safe,
    /// A single reference blocks moving it, and it comes from a low-priority
    /// referrer whose entries are cheap to update.
    OnlyReferencedBy(Reference),
    /// Anything else: not reported.
    Blocked,
}

pub ghost enum SafetyView {
    Safe,
    OnlyReferencedBy(RefView),
    Blocked,
}

impl View for Safety {
    type V = SafetyView;

    open spec fn view(&self) -> SafetyView {
        match self {
            Safety::Safe => SafetyView::Safe,
            Safety::OnlyReferencedBy(r) => SafetyView::OnlyReferencedBy(r@),
            Safety::Blocked => SafetyView::Blocked,
        }
    }
}

/// The verdict for a node whose move blockers are `s`, where `low` lists the
/// low-priority referrer files.
pub open spec fn safety_spec(s: Set<RefView>, low: Seq<Seq<char>>) -> SafetyView {
    if s.is_empty() {
        SafetyView::Safe
    } else if exists|r: RefView| s == set![r] && low.contains(r.file) {
        SafetyView::OnlyReferencedBy(choose|r: RefView| s == set![r] && low.contains(r.file))
    } else {
        SafetyView::Blocked
    }
}

/// How far a verdict is from safe.
pub open spec fn rank(v: SafetyView) -> nat {
    match v {
        SafetyView::Safe => 0,
        SafetyView::OnlyReferencedBy(_) => 1,
        SafetyView::Blocked => 2,
    }
}

pub open spec fn strings_view(v: Seq<String>) -> Seq<Seq<char>> {
    v.map_values(|s: String| s@)
}

/// The verdict for node `n`.
pub fn safety(tree: &FileTree, n: usize, low: &Vec<String>) -> (r: Safety)
    requires
        tree.wf(),
        n < tree@.shape.len(),
    ensures
        r@ == safety_spec(tree@.moves[n as int], strings_view(low@)),
{
    let v = tree.move_blockers(n);
    let ghost s = tree@.moves[n as int];
    let ghost lv = strings_view(low@);
    if v.len() == 0 {
        assert(s =~= Set::empty());
        return Safety::Safe;
    }
    let first = &v[0];
    assert(s.contains(first@));
    let mut k: usize = 1;
    while k < v.len()
        invariant
            1 <= k <= v.len(),
            first == &v@[0],
            s == ref_set(v@),
            s == tree@.moves[n as int],
            n < tree@.shape.len(),
            tree.wf(),
            lv == strings_view(low@),
            s.contains(first@),
            forall|j: int| 0 <= j < k ==> #[trigger] v@[j]@ == first@,
        decreases v.len() - k,
    {
        if !v[k].same_as(first) {
            proof {
                assert(v@[k as int]@ == v@[k as int]@);
            assert(s.contains(v@[k as int]@));
                assert forall|r: RefView| !(s == set![r] && lv.contains(r.file)) by {
                    if s == set![r] {
                        assert(set![r].contains(first@));
                        assert(set![r].contains(v@[k as int]@));
                    }
                }
            }
            assert(!s.is_empty()) by {
                if s.is_empty() {
                    assert(s.contains(first@));
                }
            }
            return Safety::Blocked;
        }
        k += 1;
    }
    assert(s =~= set![first@]) by {
        assert forall|r: RefView| s.contains(r) implies r == first@ by {
            let j = choose|j: int| 0 <= j < v@.len() && #[trigger] v@[j]@ == r;
        }
    }
    let mut j: usize = 0;
    while j < low.len()
        invariant
            j <= low.len(),
            lv == strings_view(low@),
            s =~= set![first@],
            s == tree@.moves[n as int],
            n < tree@.shape.len(),
            tree.wf(),
            forall|i: int| 0 <= i < j ==> #[trigger] low@[i]@ != first.file@,
        decreases low.len() - j,
    {
        if low[j] == first.file {
            proof {
                assert(lv[j as int] == first.file@);
                assert(lv.contains(first@.file));
                assert(s == set![first@] && lv.contains(first@.file));
                let c = choose|r: RefView| s == set![r] && lv.contains(r.file);
                assert(set![c].contains(first@));
            }
            return Safety::OnlyReferencedBy(first.duplicate());
        }
        j += 1;
    }
    proof {
        assert forall|r: RefView| !(s == set![r] && lv.contains(r.file)) by {
            if s == set![r] && lv.contains(r.file) {
                assert(set![r].contains(first@));
                let i = choose|i: int| 0 <= i < lv.len() && lv[i] == r.file;
                assert(low@[i]@ == lv[i]);
            }
        }
    }
    Safety::Blocked
}

/// The verdict for every node, by node index.
pub fn report(tree: &FileTree, low: &Vec<String>) -> (r: Vec<Safety>)
    requires
        tree.wf(),
    ensures
        r@.len() == tree@.shape.len(),
        forall|n: int| 0 <= n < r@.len() ==> #[trigger] r@[n]@ == safety_spec(tree@.moves[n], strings_view(low@)),
{
    let mut out: Vec<Safety> = Vec::new();
    let mut n: usize = 0;
    while n < tree.len()
        invariant
            tree.wf(),
            n <= tree@.shape.len(),
            out@.len() == n,
            forall|m: int| 0 <= m < n ==> #[trigger] out@[m]@ == safety_spec(tree@.moves[m], strings_view(low@)),
        decreases tree@.shape.len() - n,
    {
        out.push(safety(tree, n, low));
        n += 1;
    }
    out
}

/// Why a reference contributed nothing, or not all it should have.
#[derive(Clone, Copy, PartialEq, Eq, Structural, Debug)]
pub enum ReferenceError {
    /// Its target could not be resolved; nothing was recorded.
    Resolve(ResolveError),
    /// Its walk stopped early; what was marked before the stop stays.
    Propagate(PropagateError),
}

/// Resolves `reference`, held by the file at node `file`, whose canonical
/// target has kind `kind`, and folds it into the snapshot.
pub fn process_reference(tree: &mut FileTree, file: usize, reference: &Reference, kind: TargetKind) -> (res: Result<(), ReferenceError>)
    requires
        old(tree).wf(),
        0 < file < old(tree)@.shape.len(),
    ensures
        final(tree).wf(),
        match resolved_components(reference.text@, kind) {
            Err(e) => res == Err::<(), ReferenceError>(ReferenceError::Resolve(e)) && final(tree)@ == old(tree)@,
            Ok(cs) => {
                &&& final(tree)@ == propagated(old(tree)@, file as int, reference@, cs)
                &&& match res {
                    Ok(()) => reference_walk(old(tree)@.shape, file as int, cs).stop is None,
                    Err(e) => reference_walk(old(tree)@.shape, file as int, cs).stop matches Some(p)
                        && e == ReferenceError::Propagate(p),
                }
            },
        },
{
    match resolve(&reference.text, kind) {
        Err(e) => Err(ReferenceError::Resolve(e)),
        Ok(comps) => match tree.propagate(file, reference, &comps) {
            Ok(()) => Ok(()),
            Err(e) => Err(ReferenceError::Propagate(e)),
        },
    }
}

} // verus!

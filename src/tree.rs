use vstd::prelude::*;
use crate::reference::{Reference, RefView, ref_set, lemma_ref_set_push, Component, ComponentView, components_view};

verus! {

/// One filesystem entry of the snapshot: its name, its parent and its children.
pub struct Entry {
    pub name: String,
    pub parent: Option<usize>,
    pub children: Vec<usize>,
}

pub ghost struct EntryView {
    pub name: Seq<char>,
    pub parent: Option<usize>,
    pub children: Seq<usize>,
}

impl View for Entry {
    type V = EntryView;

    open spec fn view(&self) -> EntryView {
        EntryView { name: self.name@, parent: self.parent, children: self.children@ }
    }
}

/// The value of a snapshot: its shape and, per node, the references that
/// block moving it and renaming it.
pub ghost struct TreeView {
    pub shape: Seq<EntryView>,
    pub moves: Seq<Set<RefView>>,
    pub renames: Seq<Set<RefView>>,
}

/// An in-memory mirror of a directory tree, addressed by node index; node 0
/// is the root.
pub struct FileTree {
    entries: Vec<Entry>,
    moves: Vec<Vec<Reference>>,
    renames: Vec<Vec<Reference>>,
}

#[derive(Clone, Copy, PartialEq, Eq, Structural, Debug)]
pub enum TreeError {
    NoSuchNode,
    DuplicateName,
}

/// Why propagation of a reference stopped before its last component.
#[derive(Clone, Copy, PartialEq, Eq, Structural, Debug)]
pub enum PropagateError {
    /// A `..` step was taken at the root.
    AboveRoot,
    /// A name step named no child of the current node.
    MissingChild,
    /// A root anchor or prefix, which a relative reference cannot follow.
    Unsupported,
}

pub open spec fn shape_wf(t: Seq<EntryView>) -> bool {
    &&& t.len() >= 1
    &&& t[0].parent is None
    &&& forall|n: int| 0 < n < t.len() ==> (#[trigger] t[n].parent matches Some(p) && p < t.len())
    &&& forall|n: int, j: int| 0 <= n < t.len() && 0 <= j < t[n].children.len() ==> {
        let c = #[trigger] t[n].children[j];
        c < t.len() && t[c as int].parent == Some(n as usize)
    }
    &&& forall|n: int, j1: int, j2: int|
        0 <= n < t.len() && 0 <= j1 < t[n].children.len() && 0 <= j2 < t[n].children.len()
            && #[trigger] t[t[n].children[j1] as int].name == #[trigger] t[t[n].children[j2] as int].name
            ==> t[n].children[j1] == t[n].children[j2]
}

/// The child of node `n` called `name`, if there is one.
pub open spec fn child_named(t: Seq<EntryView>, n: int, name: Seq<char>) -> Option<usize> {
    if exists|j: int| 0 <= j < t[n].children.len() && #[trigger] t[t[n].children[j] as int].name == name {
        let j = choose|j: int| 0 <= j < t[n].children.len() && #[trigger] t[t[n].children[j] as int].name == name;
        Some(t[n].children[j])
    } else {
        None
    }
}

/// The nodes that a walk from `cur` along `comps` marks, and where it stops.
pub ghost struct Walk {
    pub moves: Set<int>,
    pub renames: Set<int>,
    pub stop: Option<PropagateError>,
}

/// Walking `comps` from node `cur`: a `..` step marks the node it leaves as
/// move-blocked, a name step marks the child it enters as move- and
/// rename-blocked, a `.` step does nothing.
pub open spec fn walk(t: Seq<EntryView>, cur: int, comps: Seq<ComponentView>) -> Walk
    decreases comps.len(),
{
    if comps.len() == 0 {
        Walk { moves: Set::empty(), renames: Set::empty(), stop: None }
    } else {
        let rest = comps.drop_first();
        match comps[0] {
            ComponentView::CurDir => walk(t, cur, rest),
            ComponentView::ParentDir => match t[cur].parent {
                None => Walk { moves: set![cur], renames: Set::empty(), stop: Some(PropagateError::AboveRoot) },
                Some(p) => {
                    let w = walk(t, p as int, rest);
                    Walk { moves: w.moves.insert(cur), ..w }
                },
            },
            ComponentView::Normal(name) => match child_named(t, cur, name) {
                None => Walk { moves: Set::empty(), renames: Set::empty(), stop: Some(PropagateError::MissingChild) },
                Some(c) => {
                    let w = walk(t, c as int, rest);
                    Walk { moves: w.moves.insert(c as int), renames: w.renames.insert(c as int), stop: w.stop }
                },
            },
            ComponentView::Anchor => Walk { moves: Set::empty(), renames: Set::empty(), stop: Some(PropagateError::Unsupported) },
        }
    }
}

/// The walk of a reference held by node `file`: it starts at the file's parent.
pub open spec fn reference_walk(t: Seq<EntryView>, file: int, comps: Seq<ComponentView>) -> Walk {
    walk(t, t[file].parent.unwrap() as int, comps)
}

/// The snapshot after folding reference `r`, held by node `file`, along `comps`:
/// the file itself and every node of the walk gain `r` as a move blocker,
/// the nodes entered by name gain it as a rename blocker.
pub open spec fn propagated(t: TreeView, file: int, r: RefView, comps: Seq<ComponentView>) -> TreeView {
    let w = reference_walk(t.shape, file, comps);
    TreeView {
        shape: t.shape,
        moves: Seq::new(t.moves.len(), |n: int| if n == file || w.moves.contains(n) { t.moves[n].insert(r) } else { t.moves[n] }),
        renames: Seq::new(t.renames.len(), |n: int| if w.renames.contains(n) { t.renames[n].insert(r) } else { t.renames[n] }),
    }
}

pub open spec fn tree_view_wf(t: TreeView) -> bool {
    &&& shape_wf(t.shape)
    &&& t.moves.len() == t.shape.len()
    &&& t.renames.len() == t.shape.len()
}

impl View for FileTree {
    type V = TreeView;

    closed spec fn view(&self) -> TreeView {
        TreeView {
            shape: self.entries@.map_values(|e: Entry| e@),
            moves: self.moves@.map_values(|v: Vec<Reference>| ref_set(v@)),
            renames: self.renames@.map_values(|v: Vec<Reference>| ref_set(v@)),
        }
    }
}

impl FileTree {
    pub open spec fn wf(&self) -> bool {
        tree_view_wf(self@)
    }

    /// A snapshot that holds only its root, with no blockers.
    pub fn new() -> (r: FileTree)
        ensures
            r.wf(),
            r@.shape.len() == 1,
            r@.shape[0].children.len() == 0,
            r@.moves[0].is_empty(),
            r@.renames[0].is_empty(),
    {
        let root = Entry { name: String::new(), parent: None, children: Vec::new() };
        let t = FileTree { entries: vec![root], moves: vec![Vec::new()], renames: vec![Vec::new()] };
        assert(ref_set(Seq::<Reference>::empty()) =~= Set::empty());
        t
    }

    pub fn len(&self) -> (r: usize)
        ensures
            r == self@.shape.len(),
    {
        self.entries.len()
    }

    /// Finds the child of node `n` called `name`.
    pub fn child(&self, n: usize, name: &String) -> (r: Option<usize>)
        requires
            self.wf(),
            n < self@.shape.len(),
        ensures
            r == child_named(self@.shape, n as int, name@),
    {
        let ghost t = self@.shape;
        let children = &self.entries[n].children;
        let mut j: usize = 0;
        while j < children.len()
            invariant
                self.wf(),
                t == self@.shape,
                n < t.len(),
                children@ == t[n as int].children,
                forall|k: int| 0 <= k < j ==> #[trigger] t[t[n as int].children[k] as int].name != name@,
            decreases children.len() - j,
        {
            let c = children[j];
            assert(t[n as int].children[j as int] == c);
            if self.entries[c].name == *name {
                assert(t[c as int].name == self.entries@[c as int]@.name);
                proof {
                    let jj = choose|jj: int| 0 <= jj < t[n as int].children.len() && #[trigger] t[t[n as int].children[jj] as int].name == name@;
                    assert(t[t[n as int].children[j as int] as int].name == name@);
                }
                return Some(c);
            }
            assert(t[c as int].name == self.entries@[c as int]@.name);
            j += 1;
        }
        None
    }

    /// Adds a child called `name` under node `parent` and returns its index.
    pub fn add_child(&mut self, parent: usize, name: String) -> (r: Result<usize, TreeError>)
        requires
            old(self).wf(),
        ensures
            final(self).wf(),
            match r {
                Ok(c) => {
                    &&& parent < old(self)@.shape.len()
                    &&& child_named(old(self)@.shape, parent as int, name@) is None
                    &&& c == old(self)@.shape.len()
                    &&& final(self)@.shape == old(self)@.shape.update(parent as int, EntryView {
                        children: old(self)@.shape[parent as int].children.push(c),
                        ..old(self)@.shape[parent as int]
                    }).push(EntryView { name: name@, parent: Some(parent), children: Seq::empty() })
                    &&& final(self)@.moves == old(self)@.moves.push(Set::empty())
                    &&& final(self)@.renames == old(self)@.renames.push(Set::empty())
                },
                Err(TreeError::NoSuchNode) => parent >= old(self)@.shape.len() && *final(self) == *old(self),
                Err(TreeError::DuplicateName) => {
                    &&& parent < old(self)@.shape.len()
                    &&& child_named(old(self)@.shape, parent as int, name@) is Some
                    &&& *final(self) == *old(self)
                },
            },
    {
        if parent >= self.entries.len() {
            return Err(TreeError::NoSuchNode);
        }
        if self.child(parent, &name).is_some() {
            return Err(TreeError::DuplicateName);
        }
        let ghost t = self@.shape;
        let ghost old_moves = self@.moves;
        let ghost old_renames = self@.renames;
        let c = self.entries.len();
        self.entries[parent].children.push(c);
        self.entries.push(Entry { name, parent: Some(parent), children: Vec::new() });
        self.moves.push(Vec::new());
        self.renames.push(Vec::new());
        assert(ref_set(Seq::<Reference>::empty()) =~= Set::empty());
        assert(self@.moves =~= old_moves.push(Set::empty()));
        assert(self@.renames =~= old_renames.push(Set::empty()));
        let ghost nt = self@.shape;
        assert(nt =~= t.update(parent as int, EntryView { children: t[parent as int].children.push(c), ..t[parent as int] })
            .push(EntryView { name: name@, parent: Some(parent), children: Seq::empty() }));
        assert forall|n: int, j1: int, j2: int|
            0 <= n < nt.len() && 0 <= j1 < nt[n].children.len() && 0 <= j2 < nt[n].children.len()
                && #[trigger] nt[nt[n].children[j1] as int].name == #[trigger] nt[nt[n].children[j2] as int].name
            implies nt[n].children[j1] == nt[n].children[j2] by {
            if n == parent && (j1 == t[n].children.len() || j2 == t[n].children.len()) {
                if j1 != j2 {
                    let j = if j1 == t[n].children.len() { j2 } else { j1 };
                    assert(t[t[n].children[j] as int].name == nt[nt[n].children[j] as int].name);
                }
            } else {
                assert(t[t[n].children[j1] as int].name == nt[nt[n].children[j1] as int].name);
                assert(t[t[n].children[j2] as int].name == nt[nt[n].children[j2] as int].name);
            }
        }
        assert forall|n: int, j: int| 0 <= n < nt.len() && 0 <= j < nt[n].children.len() implies {
            let c = #[trigger] nt[n].children[j];
            c < nt.len() && nt[c as int].parent == Some(n as usize)
        } by {
            if !(n == parent && j == t[n].children.len()) {
                assert(nt[n].children[j] == t[n].children[j]);
            }
        }
        Ok(c)
    }

    /// The references stored as move blockers of node `n`.
    pub fn move_blockers(&self, n: usize) -> (r: &Vec<Reference>)
        requires
            self.wf(),
            n < self@.shape.len(),
        ensures
            ref_set(r@) == self@.moves[n as int],
    {
        &self.moves[n]
    }

    /// The references stored as rename blockers of node `n`.
    pub fn rename_blockers(&self, n: usize) -> (r: &Vec<Reference>)
        requires
            self.wf(),
            n < self@.shape.len(),
        ensures
            ref_set(r@) == self@.renames[n as int],
    {
        &self.renames[n]
    }

    fn block_move(&mut self, n: usize, r: &Reference)
        requires
            old(self).wf(),
            n < old(self)@.shape.len(),
        ensures
            final(self).wf(),
            final(self)@ == (TreeView { moves: old(self)@.moves.update(n as int, old(self)@.moves[n as int].insert(r@)), ..old(self)@ }),
    {
        let ghost before = self.moves@[n as int]@;
        let ghost t = self@;
        self.moves[n].push(r.duplicate());
        proof {
            lemma_ref_set_push(before, self.moves@[n as int]@.last());
            assert(self.moves@[n as int]@ == before.push(self.moves@[n as int]@.last()));
        }
        assert(self@.moves =~= t.moves.update(n as int, t.moves[n as int].insert(r@)));
    }

    fn block_rename(&mut self, n: usize, r: &Reference)
        requires
            old(self).wf(),
            n < old(self)@.shape.len(),
        ensures
            final(self).wf(),
            final(self)@ == (TreeView { renames: old(self)@.renames.update(n as int, old(self)@.renames[n as int].insert(r@)), ..old(self)@ }),
    {
        let ghost before = self.renames@[n as int]@;
        let ghost t = self@;
        self.renames[n].push(r.duplicate());
        proof {
            lemma_ref_set_push(before, self.renames@[n as int]@.last());
            assert(self.renames@[n as int]@ == before.push(self.renames@[n as int]@.last()));
        }
        assert(self@.renames =~= t.renames.update(n as int, t.renames[n as int].insert(r@)));
    }

    /// Folds reference `r`, held by the file at node `file`, into the snapshot
    /// along `comps`: the file itself is move-blocked, each `..` step
    /// move-blocks the node it leaves, each name step move- and rename-blocks
    /// the child it enters. A step that cannot be taken stops the walk, and
    /// what was marked before it stays.
    pub fn propagate(&mut self, file: usize, r: &Reference, comps: &Vec<Component>) -> (res: Result<(), PropagateError>)
        requires
            old(self).wf(),
            0 < file < old(self)@.shape.len(),
        ensures
            final(self).wf(),
            final(self)@ == propagated(old(self)@, file as int, r@, components_view(comps@)),
            final(self)@.moves[file as int].contains(r@),
            match res {
                Ok(()) => reference_walk(old(self)@.shape, file as int, components_view(comps@)).stop is None,
                Err(e) => reference_walk(old(self)@.shape, file as int, components_view(comps@)).stop == Some(e),
            },
    {
        let ghost t0 = self@;
        let ghost cs = components_view(comps@);
        let ghost wall = reference_walk(t0.shape, file as int, cs);
        self.block_move(file, r);
        let mut cur: usize = match self.entries[file].parent {
            Some(p) => p,
            None => { return Err(PropagateError::AboveRoot); },
        };
        assert(self.entries@[file as int]@.parent == t0.shape[file as int].parent);
        let ghost mut acc_m: Set<int> = Set::empty();
        let ghost mut acc_r: Set<int> = Set::empty();
        let mut i: usize = 0;
        assert(cs.subrange(0, cs.len() as int) =~= cs);
        while i < comps.len()
            invariant
                self.wf(),
                t0 == old(self)@,
                self@.shape == t0.shape,
                self@.moves.len() == t0.moves.len(),
                self@.renames.len() == t0.renames.len(),
                0 < file < t0.shape.len(),
                cur < t0.shape.len(),
                i <= comps.len(),
                cs == components_view(comps@),
                wall == reference_walk(t0.shape, file as int, cs),
                ({
                    let w = walk(t0.shape, cur as int, cs.subrange(i as int, cs.len() as int));
                    &&& wall.moves == acc_m + w.moves
                    &&& wall.renames == acc_r + w.renames
                    &&& wall.stop == w.stop
                }),
                forall|n: int| 0 <= n < t0.moves.len() ==> #[trigger] self@.moves[n] == (if n == file || acc_m.contains(n) { t0.moves[n].insert(r@) } else { t0.moves[n] }),
                forall|n: int| 0 <= n < t0.renames.len() ==> #[trigger] self@.renames[n] == (if acc_r.contains(n) { t0.renames[n].insert(r@) } else { t0.renames[n] }),
            decreases comps.len() - i,
        {
            let ghost rest = cs.subrange(i as int, cs.len() as int);
            assert(rest.drop_first() =~= cs.subrange(i + 1, cs.len() as int));
            assert(rest[0] == comps@[i as int]@);
            let ghost tb = self@;
            match &comps[i] {
                Component::CurDir => {},
                Component::ParentDir => {
                    self.block_move(cur, r);
                    proof {
                        assert(tb.moves[cur as int].insert(r@).insert(r@) =~= tb.moves[cur as int].insert(r@));
                        assert(t0.moves[cur as int].insert(r@).insert(r@) =~= t0.moves[cur as int].insert(r@));
                        acc_m = acc_m.insert(cur as int);
                    }
                    assert(self.entries@[cur as int]@.parent == t0.shape[cur as int].parent);
                    match self.entries[cur].parent {
                        Some(p) => { cur = p; },
                        None => {
                            assert(wall.moves =~= acc_m);
                            assert(wall.renames =~= acc_r);
                            assert(self@.moves =~= propagated(t0, file as int, r@, cs).moves);
                            assert(self@.renames =~= propagated(t0, file as int, r@, cs).renames);
                            return Err(PropagateError::AboveRoot);
                        },
                    }
                },
                Component::Normal(name) => {
                    match self.child(cur, name) {
                        Some(c) => {
                            proof {
                                assert(t0.shape[cur as int].children.contains(c)) by {
                                    let j = choose|j: int| 0 <= j < t0.shape[cur as int].children.len() && #[trigger] t0.shape[t0.shape[cur as int].children[j] as int].name == name@;
                                    assert(t0.shape[cur as int].children[j] == c);
                                }
                            }
                            self.block_move(c, r);
                            self.block_rename(c, r);
                            proof {
                                assert(tb.moves[c as int].insert(r@).insert(r@) =~= tb.moves[c as int].insert(r@));
                                assert(t0.moves[c as int].insert(r@).insert(r@) =~= t0.moves[c as int].insert(r@));
                                assert(tb.renames[c as int].insert(r@).insert(r@) =~= tb.renames[c as int].insert(r@));
                                assert(t0.renames[c as int].insert(r@).insert(r@) =~= t0.renames[c as int].insert(r@));
                                acc_m = acc_m.insert(c as int);
                                acc_r = acc_r.insert(c as int);
                            }
                            cur = c;
                        },
                        None => {
                            assert(wall.moves =~= acc_m);
                            assert(wall.renames =~= acc_r);
                            assert(self@.moves =~= propagated(t0, file as int, r@, cs).moves);
                            assert(self@.renames =~= propagated(t0, file as int, r@, cs).renames);
                            return Err(PropagateError::MissingChild);
                        },
                    }
                },
                Component::Anchor => {
                    assert(wall.moves =~= acc_m);
                    assert(wall.renames =~= acc_r);
                    assert(self@.moves =~= propagated(t0, file as int, r@, cs).moves);
                    assert(self@.renames =~= propagated(t0, file as int, r@, cs).renames);
                    return Err(PropagateError::Unsupported);
                },
            }
            proof {
                let w2 = walk(t0.shape, cur as int, cs.subrange(i + 1, cs.len() as int));
                assert(wall.moves =~= acc_m + w2.moves);
                assert(wall.renames =~= acc_r + w2.renames);
            }
            i += 1;
        }
        proof {
            assert(cs.subrange(i as int, cs.len() as int) =~= Seq::<ComponentView>::empty());
            assert(wall.moves =~= acc_m);
            assert(wall.renames =~= acc_r);
            assert(self@.moves =~= propagated(t0, file as int, r@, cs).moves);
            assert(self@.renames =~= propagated(t0, file as int, r@, cs).renames);
        }
        Ok(())
    }
}

} // verus!

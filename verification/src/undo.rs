//! Editor-side undo/redo history.
//!
//! Every undoable edit is a pair of command batches: the commands that revert
//! it and the commands that reapply it. The history is generic over the
//! command type; the editor instantiates it with its wire commands.

use vstd::prelude::*;

verus! {

/// One undo unit: inverse commands to roll back, forward commands to redo.
pub struct UndoEntry<C> {
    /// Human label shown in menus ("Translate Player", "Delete Crate").
    pub label: String,
    /// Commands that revert the change.
    pub undo: Vec<C>,
    /// Commands that reapply the change.
    pub redo: Vec<C>,
    /// Entity created by a spawn (tracked so redo-of-undo deletes the copy).
    pub spawned_entity: Option<u64>,
    /// Trash token returned by the runtime for delete operations.
    pub trash_id: Option<u64>,
}

/// `b` is a copy of `a`: the same label and ids, and each command of `b` is
/// a clone of the command of `a` at the same position.
pub open spec fn entry_copied<C: Clone>(a: UndoEntry<C>, b: UndoEntry<C>) -> bool {
    &&& b.label@ == a.label@
    &&& b.spawned_entity == a.spawned_entity
    &&& b.trash_id == a.trash_id
    &&& b.undo@.len() == a.undo@.len()
    &&& b.redo@.len() == a.redo@.len()
    &&& forall|i: int| 0 <= i < a.undo@.len() ==> cloned(a.undo@[i], #[trigger] b.undo@[i])
    &&& forall|i: int| 0 <= i < a.redo@.len() ==> cloned(a.redo@[i], #[trigger] b.redo@[i])
}

/// Two histories agree entry by entry, up to copying.
pub open spec fn entries_copied<C: Clone>(a: Seq<UndoEntry<C>>, b: Seq<UndoEntry<C>>) -> bool {
    &&& a.len() == b.len()
    &&& forall|i: int| 0 <= i < a.len() ==> entry_copied(a[i], #[trigger] b[i])
}

/// The facts of an entry: label, command batches and ids.
pub open spec fn entry_view<C>(e: UndoEntry<C>) -> (Seq<char>, Seq<C>, Seq<C>, Option<u64>, Option<u64>) {
    (e.label@, e.undo@, e.redo@, e.spawned_entity, e.trash_id)
}

/// Cloning a command gives an equal command.
pub open spec fn clone_is_copy<C: Clone>() -> bool {
    forall|a: C, b: C| #[trigger] cloned(a, b) ==> a == b
}

/// Two entries carry the same label, ids and batch sizes.
pub open spec fn entry_same_shape<C>(a: UndoEntry<C>, b: UndoEntry<C>) -> bool {
    &&& b.label@ == a.label@
    &&& b.spawned_entity == a.spawned_entity
    &&& b.trash_id == a.trash_id
    &&& b.undo@.len() == a.undo@.len()
    &&& b.redo@.len() == a.redo@.len()
}

/// The top entry of `from0` left it (`from1`) and a copy of it was pushed
/// onto `to0` (giving `to1`).
pub open spec fn top_moved<C: Clone>(
    from0: Seq<UndoEntry<C>>,
    to0: Seq<UndoEntry<C>>,
    from1: Seq<UndoEntry<C>>,
    to1: Seq<UndoEntry<C>>,
) -> bool {
    &&& from0.len() > 0
    &&& from1 == from0.drop_last()
    &&& to1.len() == to0.len() + 1
    &&& to1.drop_last() == to0
    &&& entry_copied(from0.last(), to1.last())
}

impl<C: Clone> UndoEntry<C> {
    /// A copy of this entry (label, ids and cloned command batches).
    pub fn duplicate(&self) -> (r: UndoEntry<C>)
        ensures
            entry_copied(*self, r),
    {
        UndoEntry {
            label: self.label.clone(),
            undo: self.undo.clone(),
            redo: self.redo.clone(),
            spawned_entity: self.spawned_entity,
            trash_id: self.trash_id,
        }
    }
}

/// Bounded undo/redo history.
pub struct UndoStack<C> {
    undo: Vec<UndoEntry<C>>,
    redo: Vec<UndoEntry<C>>,
    limit: usize,
}

impl<C: Clone> UndoStack<C> {
    /// Entries that can be undone, oldest first (the last one is undone next).
    pub closed spec fn undo_entries(&self) -> Seq<UndoEntry<C>> {
        self.undo@
    }

    /// Entries that can be redone, the last one is redone next.
    pub closed spec fn redo_entries(&self) -> Seq<UndoEntry<C>> {
        self.redo@
    }

    /// Maximal number of entries the history keeps.
    pub closed spec fn limit(&self) -> nat {
        self.limit as nat
    }

    /// The history's invariant: a positive limit that bounds both branches
    /// together.
    pub open spec fn wf(&self) -> bool {
        &&& self.limit() >= 1
        &&& self.undo_entries().len() + self.redo_entries().len() <= self.limit()
    }

    /// An empty history keeping at most `limit` entries (at least one).
    pub fn new(limit: usize) -> (s: Self)
        ensures
            s.wf(),
            s.undo_entries() == Seq::<UndoEntry<C>>::empty(),
            s.redo_entries() == Seq::<UndoEntry<C>>::empty(),
            s.limit() == if limit >= 1 { limit as nat } else { 1 },
    {
        UndoStack { undo: Vec::new(), redo: Vec::new(), limit: if limit >= 1 { limit } else { 1 } }
    }

    /// Record a completed edit: the redo branch is cleared and, when the
    /// history is full, the oldest entry is dropped.
    pub fn push(&mut self, entry: UndoEntry<C>)
        requires
            old(self).wf(),
        ensures
            final(self).wf(),
            final(self).limit() == old(self).limit(),
            final(self).redo_entries() == Seq::<UndoEntry<C>>::empty(),
            final(self).undo_entries() == if old(self).undo_entries().len() + 1 > old(self).limit() {
                old(self).undo_entries().push(entry).drop_first()
            } else {
                old(self).undo_entries().push(entry)
            },
    {
        self.redo.clear();
        self.undo.push(entry);
        if self.undo.len() > self.limit {
            self.undo.remove(0);
        }
    }

    /// Take the most recent edit for undoing; a copy moves to the redo branch.
    pub fn pop_undo(&mut self) -> (r: Option<UndoEntry<C>>)
        requires
            old(self).wf(),
        ensures
            final(self).wf(),
            final(self).limit() == old(self).limit(),
            old(self).undo_entries().len() == 0 ==> r is None && final(self).undo_entries() == old(self).undo_entries()
                && final(self).redo_entries() == old(self).redo_entries(),
            old(self).undo_entries().len() > 0 ==> {
                &&& r == Some(old(self).undo_entries().last())
                &&& top_moved(old(self).undo_entries(), old(self).redo_entries(),
                    final(self).undo_entries(), final(self).redo_entries())
            },
    {
        match self.undo.pop() {
            None => None,
            Some(entry) => {
                let copy = entry.duplicate();
                self.redo.push(copy);
                proof {
                    assert(self.redo@.drop_last() =~= old(self).redo@);
                    assert(self.undo@ =~= old(self).undo@.drop_last());
                }
                Some(entry)
            },
        }
    }

    /// Take the most recently undone edit for redoing; a copy moves back to
    /// the undo branch.
    pub fn pop_redo(&mut self) -> (r: Option<UndoEntry<C>>)
        requires
            old(self).wf(),
        ensures
            final(self).wf(),
            final(self).limit() == old(self).limit(),
            old(self).redo_entries().len() == 0 ==> r is None && final(self).undo_entries() == old(self).undo_entries()
                && final(self).redo_entries() == old(self).redo_entries(),
            old(self).redo_entries().len() > 0 ==> {
                &&& r == Some(old(self).redo_entries().last())
                &&& top_moved(old(self).redo_entries(), old(self).undo_entries(),
                    final(self).redo_entries(), final(self).undo_entries())
            },
    {
        match self.redo.pop() {
            None => None,
            Some(entry) => {
                let copy = entry.duplicate();
                self.undo.push(copy);
                proof {
                    assert(self.undo@.drop_last() =~= old(self).undo@);
                    assert(self.redo@ =~= old(self).redo@.drop_last());
                }
                Some(entry)
            },
        }
    }

    /// Whether an edit can be undone.
    pub fn can_undo(&self) -> (b: bool)
        ensures
            b == (self.undo_entries().len() > 0),
    {
        !self.undo.is_empty()
    }

    /// Whether an edit can be redone.
    pub fn can_redo(&self) -> (b: bool)
        ensures
            b == (self.redo_entries().len() > 0),
    {
        !self.redo.is_empty()
    }

    /// Label of the edit that would be undone next.
    pub fn top_label(&self) -> (r: Option<&str>)
        ensures
            self.undo_entries().len() == 0 ==> r is None,
            self.undo_entries().len() > 0 ==> r is Some && r->0@ == self.undo_entries().last().label@,
    {
        let n = self.undo.len();
        if n == 0 {
            None
        } else {
            Some(self.undo[n - 1].label.as_str())
        }
    }

    /// Forget the whole history (both branches).
    pub fn clear(&mut self)
        requires
            old(self).wf(),
        ensures
            final(self).wf(),
            final(self).limit() == old(self).limit(),
            final(self).undo_entries() == Seq::<UndoEntry<C>>::empty(),
            final(self).redo_entries() == Seq::<UndoEntry<C>>::empty(),
    {
        self.undo.clear();
        self.redo.clear();
    }

    /// Number of edits that can be undone.
    pub fn len(&self) -> (n: usize)
        ensures
            n == self.undo_entries().len(),
    {
        self.undo.len()
    }

    /// Whether nothing can be undone.
    pub fn is_empty(&self) -> (b: bool)
        ensures
            b == (self.undo_entries().len() == 0),
    {
        self.undo.is_empty()
    }
}

/// Undoing an edit and then redoing it leaves the redo branch as it was and
/// the undo branch as it was, except that its top entry is a copy of a copy
/// of the top entry it was taken from (same label, ids and batch sizes).
pub proof fn lemma_undo_then_redo<C: Clone>(
    u0: Seq<UndoEntry<C>>,
    r0: Seq<UndoEntry<C>>,
    u1: Seq<UndoEntry<C>>,
    r1: Seq<UndoEntry<C>>,
    u2: Seq<UndoEntry<C>>,
    r2: Seq<UndoEntry<C>>,
)
    requires
        top_moved(u0, r0, u1, r1),
        top_moved(r1, u1, r2, u2),
    ensures
        r2 == r0,
        u2.len() == u0.len(),
        u2.drop_last() == u0.drop_last(),
        entry_same_shape(u0.last(), u2.last()),
{
}

/// Redoing an edit and then undoing it leaves the undo branch as it was and
/// the redo branch as it was, up to a copy of a copy of its top entry.
pub proof fn lemma_redo_then_undo<C: Clone>(
    u0: Seq<UndoEntry<C>>,
    r0: Seq<UndoEntry<C>>,
    u1: Seq<UndoEntry<C>>,
    r1: Seq<UndoEntry<C>>,
    u2: Seq<UndoEntry<C>>,
    r2: Seq<UndoEntry<C>>,
)
    requires
        top_moved(r0, u0, r1, u1),
        top_moved(u1, r1, u2, r2),
    ensures
        u2 == u0,
        r2.len() == r0.len(),
        r2.drop_last() == r0.drop_last(),
        entry_same_shape(r0.last(), r2.last()),
{
}

/// Recording an edit below the limit and undoing it right away gives back
/// exactly that edit and the undo branch as it was before the edit; the redo
/// branch then holds only a copy of the edit.
pub proof fn lemma_push_then_undo<C: Clone>(
    u0: Seq<UndoEntry<C>>,
    entry: UndoEntry<C>,
    u2: Seq<UndoEntry<C>>,
    r2: Seq<UndoEntry<C>>,
)
    requires
        top_moved(u0.push(entry), Seq::<UndoEntry<C>>::empty(), u2, r2),
    ensures
        u2 == u0,
        r2.len() == 1,
        entry_copied(entry, r2[0]),
{
    assert(u0.push(entry).drop_last() =~= u0);
    assert(u0.push(entry).last() == entry);
}

/// A copy of an entry carries the same facts, where cloning a command gives
/// an equal command.
proof fn lemma_copy_exact<C: Clone>(a: UndoEntry<C>, b: UndoEntry<C>)
    requires
        entry_copied(a, b),
        clone_is_copy::<C>(),
    ensures
        entry_view(b) == entry_view(a),
{
    assert forall|i: int| 0 <= i < a.undo@.len() implies b.undo@[i] == a.undo@[i] by {
        assert(cloned(a.undo@[i], b.undo@[i]));
    }
    assert forall|i: int| 0 <= i < a.redo@.len() implies b.redo@[i] == a.redo@[i] by {
        assert(cloned(a.redo@[i], b.redo@[i]));
    }
    assert(b.undo@ =~= a.undo@);
    assert(b.redo@ =~= a.redo@);
}

/// Where cloning a command gives an equal command, undoing an edit and then
/// redoing it restores both branches exactly, and the redo hands back the
/// very edit the undo took.
pub proof fn lemma_undo_then_redo_exact<C: Clone>(
    u0: Seq<UndoEntry<C>>,
    r0: Seq<UndoEntry<C>>,
    u1: Seq<UndoEntry<C>>,
    r1: Seq<UndoEntry<C>>,
    u2: Seq<UndoEntry<C>>,
    r2: Seq<UndoEntry<C>>,
)
    requires
        clone_is_copy::<C>(),
        top_moved(u0, r0, u1, r1),
        top_moved(r1, u1, r2, u2),
    ensures
        r2 == r0,
        entry_view(r1.last()) == entry_view(u0.last()),
        u2.map_values(|e: UndoEntry<C>| entry_view(e)) == u0.map_values(|e: UndoEntry<C>| entry_view(e)),
{
    lemma_copy_exact(u0.last(), r1.last());
    lemma_copy_exact(r1.last(), u2.last());
    let n = u0.len() as int;
    assert forall|i: int| 0 <= i < n implies entry_view(#[trigger] u2[i]) == entry_view(u0[i]) by {
        if i < n - 1 {
            assert(u2[i] == u2.drop_last()[i]);
            assert(u0[i] == u0.drop_last()[i]);
        }
    }
    assert(u2.map_values(|e: UndoEntry<C>| entry_view(e)) =~= u0.map_values(|e: UndoEntry<C>| entry_view(e)));
}

/// Where cloning a command gives an equal command, redoing an edit and then
/// undoing it restores both branches exactly, and the undo hands back the
/// very edit the redo took.
pub proof fn lemma_redo_then_undo_exact<C: Clone>(
    u0: Seq<UndoEntry<C>>,
    r0: Seq<UndoEntry<C>>,
    u1: Seq<UndoEntry<C>>,
    r1: Seq<UndoEntry<C>>,
    u2: Seq<UndoEntry<C>>,
    r2: Seq<UndoEntry<C>>,
)
    requires
        clone_is_copy::<C>(),
        top_moved(r0, u0, r1, u1),
        top_moved(u1, r1, u2, r2),
    ensures
        u2 == u0,
        entry_view(u1.last()) == entry_view(r0.last()),
        r2.map_values(|e: UndoEntry<C>| entry_view(e)) == r0.map_values(|e: UndoEntry<C>| entry_view(e)),
{
    lemma_undo_then_redo_exact(r0, u0, r1, u1, r2, u2);
}

} // verus!

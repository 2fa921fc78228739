//! Undo/redo history for graph operations.
//!
//! The stack is generic in the action type; the application stores
//! `UndoAction`s in it.

use vstd::prelude::*;

use crate::commands::{AppCommand, UiCommand, UiCommandView};
use crate::ids::PortId;

verus! {

/// An action that can be undone or redone.
#[derive(Debug)]
pub enum UndoAction {
    /// A PipeWire command.
    AppCommand(AppCommand),
    /// A local UI command.
    UiCommand(UiCommand),
    /// Remove the link between two ports (resolved at execution time), the
    /// reverse of a link creation whose link id is not known beforehand.
    RemoveLinkBetweenPorts {
        /// Source port.
        output_port: PortId,
        /// Destination port.
        input_port: PortId,
    },
    /// Multiple actions executed together.
    Batch(Vec<UndoAction>),
}

/// The view of an undo action: the same variants, with user interface commands
/// by their views and batches as sequences of views.
pub enum UndoActionView {
    /// A PipeWire command.
    AppCommand(AppCommand),
    /// A local UI command.
    UiCommand(UiCommandView),
    /// Remove the link between two ports.
    RemoveLinkBetweenPorts {
        /// Source port.
        output_port: PortId,
        /// Destination port.
        input_port: PortId,
    },
    /// Multiple actions executed together.
    Batch(Seq<UndoActionView>),
}

/// The view of an action.
pub open spec fn action_view(a: UndoAction) -> UndoActionView
    decreases a,
{
    match a {
        UndoAction::AppCommand(c) => UndoActionView::AppCommand(c),
        UndoAction::UiCommand(c) => UndoActionView::UiCommand(c@),
        UndoAction::RemoveLinkBetweenPorts { output_port, input_port } => UndoActionView::RemoveLinkBetweenPorts { output_port, input_port },
        UndoAction::Batch(v) => UndoActionView::Batch(actions_view(v@)),
    }
}

/// The views of a list of actions, in order.
pub open spec fn actions_view(s: Seq<UndoAction>) -> Seq<UndoActionView>
    decreases s,
{
    if s.len() == 0 {
        Seq::empty()
    } else {
        actions_view(s.drop_last()).push(action_view(s.last()))
    }
}

impl View for UndoAction {
    type V = UndoActionView;

    open spec fn view(&self) -> UndoActionView {
        action_view(*self)
    }
}

/// The steps of an action, in order: a batch is replaced by the steps of its
/// actions, every other action is a step of its own.
pub open spec fn undo_steps(a: UndoAction) -> Seq<UndoAction>
    decreases a,
{
    match a {
        UndoAction::Batch(v) => batch_steps(v@),
        _ => seq![a],
    }
}

/// The steps of a list of actions, in order.
pub open spec fn batch_steps(s: Seq<UndoAction>) -> Seq<UndoAction>
    decreases s,
{
    if s.len() == 0 {
        Seq::empty()
    } else {
        batch_steps(s.drop_last()) + undo_steps(s.last())
    }
}

/// No step of an action is a batch.
pub proof fn lemma_steps_not_batch(a: UndoAction)
    ensures
        forall|i: int| 0 <= i < undo_steps(a).len() ==> !(#[trigger] undo_steps(a)[i] is Batch),
    decreases a,
{
    match a {
        UndoAction::Batch(v) => {
            assert(decreases_to!(a => a->0));
            lemma_batch_steps_not_batch(v@);
        },
        _ => {},
    }
}

/// No step of a list of actions is a batch.
pub proof fn lemma_batch_steps_not_batch(s: Seq<UndoAction>)
    ensures
        forall|i: int| 0 <= i < batch_steps(s).len() ==> !(#[trigger] batch_steps(s)[i] is Batch),
    decreases s,
{
    if s.len() > 0 {
        lemma_batch_steps_not_batch(s.drop_last());
        lemma_steps_not_batch(s.last());
        let p = batch_steps(s.drop_last());
        let q = undo_steps(s.last());
        assert forall|i: int| 0 <= i < (p + q).len() implies !(#[trigger] (p + q)[i] is Batch) by {
            if i >= p.len() {
                assert((p + q)[i] == q[i - p.len()]);
            }
        }
    }
}

impl UndoAction {
    /// Copies the action: the copy has the same view (the same variant and
    /// contents, batches and node lists element by element).
    pub fn duplicate(&self) -> (r: UndoAction)
        ensures
            r@ == self@,
        decreases self,
    {
        match self {
            UndoAction::AppCommand(c) => UndoAction::AppCommand(*c),
            UndoAction::UiCommand(c) => UndoAction::UiCommand(c.duplicate()),
            UndoAction::RemoveLinkBetweenPorts { output_port, input_port } => UndoAction::RemoveLinkBetweenPorts {
                output_port: *output_port,
                input_port: *input_port,
            },
            UndoAction::Batch(v) => {
                let mut out: Vec<UndoAction> = Vec::new();
                let mut i: usize = 0;
                while i < v.len()
                    invariant
                        *self == UndoAction::Batch(*v),
                        i <= v.len(),
                        out@.len() == i,
                        actions_view(out@) == actions_view(v@.take(i as int)),
                    decreases v.len() - i,
                {
                    proof {
                        vstd::std_specs::vec::axiom_vec_index_decreases(*v, i as int);
                        assert(decreases_to!(*self => (*self)->0));
                    }
                    let d = v[i].duplicate();
                    let ghost before = out@;
                    out.push(d);
                    proof {
                        assert(out@.drop_last() =~= before);
                        assert(v@.take(i + 1).drop_last() =~= v@.take(i as int));
                        assert(v@.take(i + 1).last() == v@[i as int]);
                        assert(actions_view(out@) == actions_view(v@.take(i + 1)));
                    }
                    i += 1;
                }
                proof {
                    assert(v@.take(v@.len() as int) =~= v@);
                }
                UndoAction::Batch(out)
            },
        }
    }
}

impl Clone for UndoAction {
    /// Copies the action (see `duplicate`).
    fn clone(&self) -> (r: Self)
        ensures
            r@ == self@,
    {
        self.duplicate()
    }
}

/// A single entry in the undo history.
#[derive(Debug, Clone)]
pub struct UndoEntry<A> {
    /// Human-readable description of the action.
    pub description: String,
    /// The action to execute on redo (or initial execution).
    pub forward: A,
    /// The action to execute on undo.
    pub reverse: A,
}

/// Undo/redo history stack.
pub struct UndoStack<A> {
    /// All history entries.
    history: Vec<UndoEntry<A>>,
    /// Points past the last executed entry (i.e. the next redo position).
    cursor: usize,
    /// Maximum number of entries to keep.
    max_size: usize,
}

/// The abstract state of an undo stack.
pub struct UndoView<A> {
    /// The entries, oldest first.
    pub entries: Seq<UndoEntry<A>>,
    /// The position past the last executed entry.
    pub position: int,
    /// The maximum number of entries kept.
    pub capacity: int,
}

impl<A> UndoView<A> {
    /// The cursor lies within the history, which is within capacity.
    pub open spec fn wf(self) -> bool {
        &&& 0 <= self.position <= self.entries.len()
        &&& self.entries.len() <= self.capacity
    }

    /// The state after pushing `e`: redo entries are dropped, the oldest entries
    /// beyond the capacity are trimmed, and the cursor moves to the end.
    pub open spec fn pushed(self, e: UndoEntry<A>) -> UndoView<A> {
        let grown = self.entries.take(self.position).push(e);
        let kept = if grown.len() > self.capacity { grown.skip(grown.len() - self.capacity) } else { grown };
        UndoView { entries: kept, position: kept.len() as int, capacity: self.capacity }
    }

    /// The state after stepping back one entry (unchanged at the start).
    pub open spec fn undone(self) -> UndoView<A> {
        if self.position == 0 { self } else { UndoView { position: self.position - 1, ..self } }
    }

    /// The state after stepping forward one entry (unchanged at the end).
    pub open spec fn redone(self) -> UndoView<A> {
        if self.position >= self.entries.len() { self } else { UndoView { position: self.position + 1, ..self } }
    }
}

impl<A> View for UndoStack<A> {
    type V = UndoView<A>;

    closed spec fn view(&self) -> UndoView<A> {
        UndoView { entries: self.history@, position: self.cursor as int, capacity: self.max_size as int }
    }
}

impl<A> UndoStack<A> {
    /// Creates a new, empty undo stack with the given capacity.
    pub fn new(max_size: usize) -> (r: Self)
        ensures
            r@.wf(),
            r@.entries.len() == 0,
            r@.position == 0,
            r@.capacity == max_size,
    {
        UndoStack { history: Vec::new(), cursor: 0, max_size }
    }

    /// Number of entries held.
    pub fn len(&self) -> (r: usize)
        ensures
            r == self@.entries.len(),
    {
        self.history.len()
    }

    /// Pushes a new entry, discarding any redo history beyond the cursor and
    /// trimming the oldest entries beyond the capacity.
    pub fn push(&mut self, entry: UndoEntry<A>)
        requires
            old(self)@.wf(),
        ensures
            final(self)@ == old(self)@.pushed(entry),
            final(self)@.wf(),
    {
        let ghost grown = self.history@.take(self.cursor as int).push(entry);
        self.history.truncate(self.cursor);
        self.history.push(entry);
        proof {
            assert(self.history@ =~= grown);
        }
        self.cursor = self.history.len();
        if self.history.len() > self.max_size {
            let excess = self.history.len() - self.max_size;
            let tail = self.history.split_off(excess);
            self.history = tail;
            self.cursor = self.history.len();
            proof {
                assert(self.history@ =~= grown.skip(grown.len() - self.max_size));
            }
        }
    }

    /// Steps back: returns a copy of the reverse action of the last executed entry,
    /// or `None` at the start of the history.
    pub fn undo(&mut self) -> (r: Option<A>)
        where A: Clone,
        requires
            old(self)@.wf(),
        ensures
            final(self)@ == old(self)@.undone(),
            old(self)@.position == 0 <==> r is None,
            r is Some ==> cloned(old(self)@.entries[old(self)@.position - 1].reverse, r->0),
    {
        if self.cursor == 0 {
            return None;
        }
        self.cursor = self.cursor - 1;
        Some(self.history[self.cursor].reverse.clone())
    }

    /// Steps forward: returns a copy of the forward action of the next entry,
    /// or `None` at the end of the history.
    pub fn redo(&mut self) -> (r: Option<A>)
        where A: Clone,
        requires
            old(self)@.wf(),
        ensures
            final(self)@ == old(self)@.redone(),
            old(self)@.position == old(self)@.entries.len() <==> r is None,
            r is Some ==> cloned(old(self)@.entries[old(self)@.position].forward, r->0),
    {
        if self.cursor >= self.history.len() {
            return None;
        }
        let action = self.history[self.cursor].forward.clone();
        self.cursor = self.cursor + 1;
        Some(action)
    }

    /// Whether an undo operation is available.
    pub fn can_undo(&self) -> (r: bool)
        ensures
            r == (self@.position > 0),
    {
        self.cursor > 0
    }

    /// Whether a redo operation is available.
    pub fn can_redo(&self) -> (r: bool)
        ensures
            r == (self@.position < self@.entries.len()),
    {
        self.cursor < self.history.len()
    }

    /// Description of the action that would be undone.
    pub fn undo_description(&self) -> (r: Option<&str>)
        requires
            self@.wf(),
        ensures
            self@.position == 0 <==> r is None,
            r is Some ==> r->0@ == self@.entries[self@.position - 1].description@,
    {
        if self.cursor == 0 {
            return None;
        }
        Some(self.history[self.cursor - 1].description.as_str())
    }

    /// Description of the action that would be redone.
    pub fn redo_description(&self) -> (r: Option<&str>)
        requires
            self@.wf(),
        ensures
            self@.position == self@.entries.len() <==> r is None,
            r is Some ==> r->0@ == self@.entries[self@.position].description@,
    {
        if self.cursor >= self.history.len() {
            return None;
        }
        Some(self.history[self.cursor].description.as_str())
    }
}

impl<A> Default for UndoStack<A> {
    fn default() -> (r: Self)
        ensures
            r@.wf(),
            r@.entries.len() == 0,
            r@.position == 0,
            r@.capacity == 100,
    {
        Self::new(100)
    }
}

/// Every operation keeps the stack's invariant.
pub proof fn lemma_operations_keep_wf<A>(v: UndoView<A>, e: UndoEntry<A>)
    requires
        v.wf(),
    ensures
        v.pushed(e).wf(),
        v.undone().wf(),
        v.redone().wf(),
{
}

/// Redo after undo returns to the same state; undo after redo likewise.
pub proof fn lemma_undo_redo_inverse<A>(v: UndoView<A>)
    requires
        v.wf(),
    ensures
        v.position > 0 ==> v.undone().redone() == v,
        v.position < v.entries.len() ==> v.redone().undone() == v,
{
}

/// After a push there is nothing to redo, undo is available when the capacity
/// is positive, and the entry undone next is the one pushed.
pub proof fn lemma_push_then_undo<A>(v: UndoView<A>, e: UndoEntry<A>)
    requires
        v.wf(),
        v.capacity > 0,
    ensures
        v.pushed(e).position == v.pushed(e).entries.len(),
        v.pushed(e).position > 0,
        v.pushed(e).entries[v.pushed(e).position - 1] == e,
{
}

/// A push keeps `min(position + 1, capacity)` entries: the most recent entries
/// before the cursor, in order, followed by the new entry.
pub proof fn lemma_push_keeps_recent<A>(v: UndoView<A>, e: UndoEntry<A>)
    requires
        v.wf(),
    ensures
        v.pushed(e).entries.len() == if v.position + 1 > v.capacity { v.capacity } else { v.position + 1 },
        forall|i: int| 0 <= i < v.pushed(e).entries.len() - 1 ==>
            #[trigger] v.pushed(e).entries[i] == v.entries[v.position - (v.pushed(e).entries.len() - 1) + i],
{
}

/// Push, then undo, then redo: after a push there is nothing to redo; undo
/// steps back over the pushed entry (whose reverse action it hands out); redo
/// steps forward over the same entry (whose forward action it hands out) and
/// restores the state after the push, after which there is again nothing to redo.
pub proof fn lemma_push_undo_redo<A>(v: UndoView<A>, e: UndoEntry<A>)
    requires
        v.wf(),
        v.capacity > 0,
    ensures
        v.pushed(e).redone() == v.pushed(e),
        v.pushed(e).entries[v.pushed(e).position - 1] == e,
        v.pushed(e).undone().position == v.pushed(e).position - 1,
        v.pushed(e).undone().entries[v.pushed(e).undone().position] == e,
        v.pushed(e).undone().redone() == v.pushed(e),
        v.pushed(e).undone().redone().redone() == v.pushed(e),
{
    lemma_push_then_undo(v, e);
    lemma_operations_keep_wf(v, e);
    lemma_undo_redo_inverse(v.pushed(e));
}

/// A copy of an undo action has the action's view.
pub proof fn lemma_cloned_action(a: UndoAction, b: UndoAction)
    requires
        cloned(a, b),
    ensures
        b@ == a@,
{
}

/// Undo and redo hand out copies of the stored actions: after a push, undo
/// hands out an action with the view of the pushed entry's reverse action, and
/// the redo that follows one with the view of its forward action.
pub proof fn lemma_undo_redo_actions(v: UndoView<UndoAction>, e: UndoEntry<UndoAction>, undone: UndoAction, redone: UndoAction)
    requires
        v.wf(),
        v.capacity > 0,
        cloned(v.pushed(e).entries[v.pushed(e).position - 1].reverse, undone),
        cloned(v.pushed(e).undone().entries[v.pushed(e).undone().position].forward, redone),
    ensures
        undone@ == e.reverse@,
        redone@ == e.forward@,
{
    lemma_push_undo_redo(v, e);
    lemma_cloned_action(v.pushed(e).entries[v.pushed(e).position - 1].reverse, undone);
    lemma_cloned_action(v.pushed(e).undone().entries[v.pushed(e).undone().position].forward, redone);
}

}

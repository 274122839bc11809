//! Reversible edit history: events that record a single edit, and a stack
//! of them supporting undo and redo.
use vstd::prelude::*;

use crate::Position;

verus! {

/// One recorded edit. Each variant carries the document position at which
/// the change occurred, the grapheme index within the affected line, the
/// character involved, and the cursor's x-coordinate before the edit
/// (needed to restore cursor placement on undo).
#[derive(Clone, Copy, Debug, PartialEq, Eq, Structural)]
pub enum Event {
    Insert(Position, usize, char, usize),
    Delete(Position, usize, char, usize),
}

/// What reversing an event means: swap insert and delete, keep every field.
pub open spec fn reverse_spec(event: Event) -> Event {
    match event {
        Event::Insert(pos, graphemes, ch, px) => Event::Delete(pos, graphemes, ch, px),
        Event::Delete(pos, graphemes, ch, px) => Event::Insert(pos, graphemes, ch, px),
    }
}

/// What popping from a history yields: the most recent event, if any.
pub open spec fn pop_result(h: Seq<Event>) -> Option<Event> {
    if h.len() == 0 {
        None
    } else {
        Some(h.last())
    }
}

/// The history left behind by a pop: unchanged when empty, else one shorter.
pub open spec fn pop_rest(h: Seq<Event>) -> Seq<Event> {
    if h.len() == 0 {
        h
    } else {
        h.drop_last()
    }
}

/// What undoing yields: the reversal of the most recent event, if any.
pub open spec fn undo_result(h: Seq<Event>) -> Option<Event> {
    match pop_result(h) {
        None => None,
        Some(e) => Some(reverse_spec(e)),
    }
}

/// A LIFO record of edit events. `history` holds the events in temporal
/// order; `undone` holds the events removed by `undo`, so that `redo` can
/// replay them. Any fresh `push` invalidates the redo branch.
#[derive(Debug)]
pub struct EventStack {
    history: Vec<Event>,
    undone: Vec<Event>,
}

impl EventStack {
    /// The recorded events, oldest first.
    pub closed spec fn history(&self) -> Seq<Event> {
        self.history@
    }

    /// The events removed by `undo` and not yet replayed, oldest first.
    pub closed spec fn undone(&self) -> Seq<Event> {
        self.undone@
    }

    /// A fresh, empty history.
    pub fn new() -> (r: Self)
        ensures
            r.history() == Seq::<Event>::empty(),
            r.undone() == Seq::<Event>::empty(),
    {
        Self { history: Vec::new(), undone: Vec::new() }
    }

    /// Appends an event to the history and discards the redo branch.
    pub fn push(&mut self, event: Event)
        ensures
            final(self).history() == old(self).history().push(event),
            final(self).undone() == Seq::<Event>::empty(),
    {
        self.history.push(event);
        self.undone.clear();
    }

    /// Removes and returns the most recent event; `None` on an empty history.
    pub fn pop(&mut self) -> (r: Option<Event>)
        ensures
            r == pop_result(old(self).history()),
            final(self).history() == pop_rest(old(self).history()),
            final(self).undone() == old(self).undone(),
    {
        self.history.pop()
    }

    /// Clears all history, both the undo and the redo branch.
    pub fn empty(&mut self)
        ensures
            final(self).history() == Seq::<Event>::empty(),
            final(self).undone() == Seq::<Event>::empty(),
    {
        self.history.clear();
        self.undone.clear();
    }

    /// Removes the most recent event, remembers it for `redo`, and returns
    /// its reversal for the caller to apply; `None` on an empty history.
    pub fn undo(&mut self) -> (r: Option<Event>)
        ensures
            r == undo_result(old(self).history()),
            final(self).history() == pop_rest(old(self).history()),
            final(self).undone() == match pop_result(old(self).history()) {
                None => old(self).undone(),
                Some(e) => old(self).undone().push(e),
            },
    {
        if let Some(element) = self.history.pop() {
            self.undone.push(element);
            Some(EventStack::reverse(element))
        } else {
            None
        }
    }

    /// Takes the most recently undone event back onto the history and
    /// returns it for the caller to re-apply; `None` when nothing was undone.
    pub fn redo(&mut self) -> (r: Option<Event>)
        ensures
            r == pop_result(old(self).undone()),
            final(self).undone() == pop_rest(old(self).undone()),
            final(self).history() == match pop_result(old(self).undone()) {
                None => old(self).history(),
                Some(e) => old(self).history().push(e),
            },
    {
        if let Some(element) = self.undone.pop() {
            self.history.push(element);
            Some(element)
        } else {
            None
        }
    }

    /// Swaps an insertion for a deletion and vice versa, all fields kept.
    pub fn reverse(event: Event) -> (r: Event)
        ensures
            r == reverse_spec(event),
    {
        match event {
            Event::Insert(pos, graphemes, ch, px) => Event::Delete(pos, graphemes, ch, px),
            Event::Delete(pos, graphemes, ch, px) => Event::Insert(pos, graphemes, ch, px),
        }
    }
}

/// Law: reversal is an involution — reversing an event twice gives the
/// event back, for every event.
pub proof fn lemma_reverse_involution(event: Event)
    ensures
        reverse_spec(reverse_spec(event)) == event,
{
}

/// Law: on any history, an `undo` right after a `push` of `event` yields
/// the reversal of `event` and leaves the history as it was before the
/// push — one entry shorter than the pushed history — with `event` moved
/// to the redo branch.
pub proof fn lemma_undo_after_push(h: Seq<Event>, event: Event)
    ensures
        undo_result(h.push(event)) == Some(reverse_spec(event)),
        pop_rest(h.push(event)) == h,
        pop_rest(h.push(event)).len() == h.push(event).len() - 1,
        pop_result(h.push(event)) == Some(event),
{
    assert(h.push(event).last() == event);
    assert(h.push(event).drop_last() =~= h);
}

/// Law: after `empty`, a `pop` yields nothing — popping an empty history
/// returns `None` and leaves it empty.
pub proof fn lemma_pop_after_empty()
    ensures
        pop_result(Seq::<Event>::empty()) is None,
        pop_rest(Seq::<Event>::empty()) == Seq::<Event>::empty(),
{
}

} // verus!

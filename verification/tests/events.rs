use ox_core::Position;
use ox_core::undo::Event;
use ox_core::undo::EventStack;

fn sample_events() -> Vec<Event> {
    vec![
        Event::Insert(Position { x: 0, y: 0 }, 0, 'a', 0),
        Event::Delete(Position { x: 3, y: 7 }, 2, '日', 5),
        Event::Insert(Position { x: usize::MAX, y: 1 }, 9, '\n', usize::MAX),
    ]
}

#[test]
fn reverse_swaps_variants() {
    let e = Event::Insert(Position { x: 1, y: 2 }, 3, 'x', 4);
    assert_eq!(EventStack::reverse(e), Event::Delete(Position { x: 1, y: 2 }, 3, 'x', 4));
    let d = Event::Delete(Position { x: 1, y: 2 }, 3, 'x', 4);
    assert_eq!(EventStack::reverse(d), Event::Insert(Position { x: 1, y: 2 }, 3, 'x', 4));
}

#[test]
fn reverse_is_an_involution() {
    for e in sample_events() {
        assert_eq!(EventStack::reverse(EventStack::reverse(e)), e);
    }
}

#[test]
fn undo_after_push_yields_reversal_and_shrinks_history() {
    let mut stack = EventStack::new();
    let older = Event::Insert(Position { x: 0, y: 0 }, 0, 'a', 0);
    let pushed = Event::Delete(Position { x: 5, y: 6 }, 1, 'b', 4);
    stack.push(older);
    stack.push(pushed);
    assert_eq!(stack.undo(), Some(EventStack::reverse(pushed)));
    // The history is back to what it held before the push.
    assert_eq!(stack.pop(), Some(older));
    assert_eq!(stack.pop(), None);
}

#[test]
fn pop_after_empty_yields_nothing() {
    let mut stack = EventStack::new();
    stack.push(Event::Insert(Position { x: 1, y: 1 }, 0, 'z', 1));
    stack.push(Event::Delete(Position { x: 2, y: 2 }, 1, 'y', 2));
    stack.empty();
    assert_eq!(stack.pop(), None);
    let mut fresh = EventStack::new();
    fresh.empty();
    assert_eq!(fresh.pop(), None);
}

#[test]
fn undo_on_empty_history_is_a_no_op() {
    let mut stack = EventStack::new();
    assert_eq!(stack.undo(), None);
    assert_eq!(stack.pop(), None);
}

#[test]
fn redo_replays_the_undone_event() {
    let mut stack = EventStack::new();
    let e = Event::Insert(Position { x: 4, y: 2 }, 3, 'q', 3);
    stack.push(e);
    assert_eq!(stack.undo(), Some(EventStack::reverse(e)));
    assert_eq!(stack.redo(), Some(e));
    // The replayed event is back on the history.
    assert_eq!(stack.pop(), Some(e));
}

#[test]
fn redo_with_nothing_undone_yields_nothing() {
    let mut stack = EventStack::new();
    assert_eq!(stack.redo(), None);
    stack.push(Event::Insert(Position { x: 0, y: 0 }, 0, 'a', 0));
    assert_eq!(stack.redo(), None);
}

#[test]
fn push_invalidates_the_redo_branch() {
    let mut stack = EventStack::new();
    let a = Event::Insert(Position { x: 0, y: 0 }, 0, 'a', 0);
    let b = Event::Insert(Position { x: 1, y: 0 }, 1, 'b', 1);
    stack.push(a);
    stack.undo();
    stack.push(b);
    assert_eq!(stack.redo(), None);
}

//! The gesture dispatcher: a press/release state machine that resolves
//! pointer positions through the hit-test canvas and commits row-local
//! cell swaps into the table store.

use vstd::prelude::*;

use crate::canvas::Canvas;
use crate::store::{swap_seq, Element, TableStore};

verus! {

/// A pointer button. Only the left button drives gestures.
#[derive(Clone, Copy, PartialEq, Eq, Structural, Debug)]
pub enum Button {
    Left,
    Middle,
    Right,
}

/// A terminal event, as plain values. The surrounding loop reads raw
/// events and hands them here; everything it cannot express maps to
/// `Other`, which the dispatcher ignores.
#[derive(Clone, Copy, PartialEq, Eq, Structural, Debug)]
pub enum Event {
    /// A key press; `plain` is true when no modifier key was held.
    Key { ch: char, plain: bool },
    /// A pointer button went down at (column, row).
    MouseDown { button: Button, column: usize, row: usize },
    /// A pointer button went up at (column, row).
    MouseUp { button: Button, column: usize, row: usize },
    /// The terminal dimensions changed.
    Resize { columns: usize, rows: usize },
    /// Anything else: other keys, pointer motion, other event kinds.
    Other,
}

/// The dispatcher's state: idle, or holding a pressed cell and the row
/// it belongs to.
#[derive(Clone, Copy, PartialEq, Eq, Structural, Debug)]
pub enum Gesture {
    Idle,
    Pressed { cell: usize, row: usize },
}

/// What the outer loop must do after a step.
#[derive(Clone, Copy, PartialEq, Eq, Structural, Debug)]
pub enum Action {
    /// Nothing changed on screen: keep waiting for the next event.
    Wait,
    /// Visible state changed: repaint the frame.
    Redraw,
    /// The terminal was resized: reallocate the canvas, then repaint.
    Resize { columns: usize, rows: usize },
    /// The quit key was pressed: leave the loop.
    Quit,
}

/// The character that quits the loop when pressed with no modifiers.
pub const QUIT_KEY: char = 'q';

/// The gesture state is in step with the store: exactly the held cell
/// carries the pressed marker, and its back-reference matches.
pub open spec fn gesture_wf(s: TableStore, g: Gesture) -> bool {
    match g {
        Gesture::Idle => s.none_pressed(),
        Gesture::Pressed { cell, row } => {
            &&& cell < s.cells@.len()
            &&& s.cells@[cell as int].row == row
            &&& row < s.rows@.len()
            &&& s.cells@[cell as int].pressed
            &&& forall|c: int|
                0 <= c < s.cells@.len() && c != cell ==> !(#[trigger] s.cells@[c]).pressed
        },
    }
}

/// The cell the canvas resolves (column, row) to, if any: a position
/// holding a stale or non-cell reference is no target.
pub open spec fn target_cell(s: TableStore, canvas: Canvas, column: usize, row: usize) -> Option<
    usize,
> {
    match canvas.at(column as int, row as int) {
        Some(Element::Cell(c)) => if c < s.cells@.len() {
            Some(c)
        } else {
            None
        },
        _ => None,
    }
}

/// `s1` is `s0` with the pressed markers dropped and nothing else
/// changed.
pub open spec fn pressed_cleared(s0: TableStore, s1: TableStore) -> bool {
    &&& s1.headers@ == s0.headers@
    &&& s1.rows@ == s0.rows@
    &&& s1.cells@.len() == s0.cells@.len()
    &&& forall|c: int|
        0 <= c < s0.cells@.len() ==> {
            &&& (#[trigger] s1.cells@[c]).text == s0.cells@[c].text
            &&& s1.cells@[c].selected == s0.cells@[c].selected
            &&& s1.cells@[c].row == s0.cells@[c].row
            &&& !s1.cells@[c].pressed
        }
}

/// `s1` is `s0` with the pressed marker on exactly cell `cell` and
/// nothing else changed.
pub open spec fn pressed_marked(s0: TableStore, s1: TableStore, cell: usize) -> bool {
    &&& s1.headers@ == s0.headers@
    &&& s1.rows@ == s0.rows@
    &&& s1.cells@.len() == s0.cells@.len()
    &&& forall|c: int|
        0 <= c < s0.cells@.len() ==> {
            &&& (#[trigger] s1.cells@[c]).text == s0.cells@[c].text
            &&& s1.cells@[c].selected == s0.cells@[c].selected
            &&& s1.cells@[c].row == s0.cells@[c].row
            &&& s1.cells@[c].pressed == (c == cell)
        }
}

/// The column at which cell handle `c` stands in row `r`.
pub open spec fn pos_of(s: TableStore, r: int, c: usize) -> int {
    choose|k: int| 0 <= k < s.rows@[r].cells@.len() && s.rows@[r].cells@[k] == c
}

/// `s1` is `s0` with the cells of row `r` at columns `a` and `b`
/// exchanged, the pressed markers dropped, and nothing else changed.
pub open spec fn swap_committed(s0: TableStore, s1: TableStore, r: int, a: int, b: int) -> bool {
    &&& s1.headers@ == s0.headers@
    &&& s1.rows@.len() == s0.rows@.len()
    &&& forall|rr: int|
        0 <= rr < s0.rows@.len() && rr != r ==> (#[trigger] s1.rows@[rr]) == s0.rows@[rr]
    &&& s1.rows@[r].cells@ == swap_seq(s0.rows@[r].cells@, a, b)
    &&& s1.cells@.len() == s0.cells@.len()
    &&& forall|c: int|
        0 <= c < s0.cells@.len() ==> {
            &&& (#[trigger] s1.cells@[c]).text == s0.cells@[c].text
            &&& s1.cells@[c].selected == s0.cells@[c].selected
            &&& s1.cells@[c].row == s0.cells@[c].row
            &&& !s1.cells@[c].pressed
        }
}

/// What a pointer-up resolves to while a cell is held: a swap of two
/// columns of the held row when the target is a cell of that row, and
/// no row mutation at all otherwise. The pressed marker goes either way.
pub open spec fn release_outcome(
    s0: TableStore,
    s1: TableStore,
    canvas: Canvas,
    held: usize,
    held_row: usize,
    column: usize,
    row: usize,
) -> bool {
    match target_cell(s0, canvas, column, row) {
        Some(t) => if s0.cells@[t as int].row == held_row {
            swap_committed(
                s0,
                s1,
                held_row as int,
                pos_of(s0, held_row as int, held),
                pos_of(s0, held_row as int, t),
            )
        } else {
            pressed_cleared(s0, s1) && s1.rows@ == s0.rows@
        },
        None => pressed_cleared(s0, s1) && s1.rows@ == s0.rows@,
    }
}

/// Advances the state machine by one event.
///
/// - A pointer-down on a cell attaches the pressed marker and holds the
///   gesture; on anything else it is a no-op.
/// - A pointer-up while holding a cell resolves the gesture: over a cell
///   of the same row it swaps the two cells' columns; over anything else
///   it changes no row. Either way the pressed marker is dropped.
/// - A resize abandons any held gesture and asks the loop to reallocate
///   the canvas and repaint.
/// - The quit key drops any held marker and asks the loop to terminate.
pub fn step(store: &mut TableStore, canvas: &Canvas, state: Gesture, event: &Event) -> (r: (
    Gesture,
    Action,
))
    requires
        old(store).wf(),
        gesture_wf(*old(store), state),
        canvas.wf(),
    ensures
        final(store).wf(),
        gesture_wf(*final(store), r.0),
        match *event {
            Event::Key { ch, plain } => if plain && ch == QUIT_KEY {
                &&& pressed_cleared(*old(store), *final(store))
                &&& r == (Gesture::Idle, Action::Quit)
            } else {
                &&& *final(store) == *old(store)
                &&& r == (state, Action::Wait)
            },
            Event::Resize { columns, rows } => {
                &&& pressed_cleared(*old(store), *final(store))
                &&& r == (Gesture::Idle, Action::Resize { columns, rows })
            },
            Event::MouseDown { button, column, row } => if button == Button::Left && state
                == Gesture::Idle {
                match target_cell(*old(store), *canvas, column, row) {
                    Some(c) => {
                        &&& pressed_marked(*old(store), *final(store), c)
                        &&& r == (
                            Gesture::Pressed { cell: c, row: old(store).cells@[c as int].row },
                            Action::Redraw,
                        )
                    },
                    None => {
                        &&& *final(store) == *old(store)
                        &&& r == (state, Action::Wait)
                    },
                }
            } else {
                &&& *final(store) == *old(store)
                &&& r == (state, Action::Wait)
            },
            Event::MouseUp { button, column, row } => match state {
                Gesture::Pressed { cell: held, row: held_row } => if button == Button::Left {
                    &&& release_outcome(
                        *old(store),
                        *final(store),
                        *canvas,
                        held,
                        held_row,
                        column,
                        row,
                    )
                    &&& r == (Gesture::Idle, Action::Redraw)
                } else {
                    &&& *final(store) == *old(store)
                    &&& r == (state, Action::Wait)
                },
                Gesture::Idle => {
                    &&& *final(store) == *old(store)
                    &&& r == (state, Action::Wait)
                },
            },
            Event::Other => {
                &&& *final(store) == *old(store)
                &&& r == (state, Action::Wait)
            },
        },
{
    match *event {
        Event::Key { ch, plain } => {
            if plain && ch == QUIT_KEY {
                release_pressed(store, state);
                (Gesture::Idle, Action::Quit)
            } else {
                (state, Action::Wait)
            }
        },
        Event::Resize { columns, rows } => {
            release_pressed(store, state);
            (Gesture::Idle, Action::Resize { columns, rows })
        },
        Event::MouseDown { button, column, row } => {
            if button == Button::Left && state == Gesture::Idle {
                press_at(store, canvas, state, column, row)
            } else {
                (state, Action::Wait)
            }
        },
        Event::MouseUp { button, column, row } => {
            match state {
                Gesture::Pressed { cell: held, row: held_row } => {
                    if button == Button::Left {
                        release_at(store, canvas, held, held_row, column, row)
                    } else {
                        (state, Action::Wait)
                    }
                },
                Gesture::Idle => (state, Action::Wait),
            }
        },
        Event::Other => (state, Action::Wait),
    }
}

/// Handles a left pointer-down while idle: marks the resolved cell
/// pressed, or does nothing when the position resolves to no cell.
fn press_at(store: &mut TableStore, canvas: &Canvas, state: Gesture, column: usize, row: usize)
    -> (r: (Gesture, Action))
    requires
        old(store).wf(),
        old(store).none_pressed(),
        canvas.wf(),
        state == Gesture::Idle,
    ensures
        final(store).wf(),
        gesture_wf(*final(store), r.0),
        match target_cell(*old(store), *canvas, column, row) {
            Some(c) => {
                &&& pressed_marked(*old(store), *final(store), c)
                &&& r == (
                    Gesture::Pressed { cell: c, row: old(store).cells@[c as int].row },
                    Action::Redraw,
                )
            },
            None => {
                &&& *final(store) == *old(store)
                &&& r == (state, Action::Wait)
            },
        },
{
    match canvas.lookup(column, row) {
        Some(Element::Cell(c)) => {
            if c < store.cells.len() {
                store.cells[c].pressed = true;
                let cell_row = store.cells[c].row;
                (Gesture::Pressed { cell: c, row: cell_row }, Action::Redraw)
            } else {
                (state, Action::Wait)
            }
        },
        _ => (state, Action::Wait),
    }
}

/// Resolves a left pointer-up while a cell is held: swaps the held and
/// target cells' columns when both sit in the held row, and drops the
/// pressed marker whatever the pointer was over.
fn release_at(
    store: &mut TableStore,
    canvas: &Canvas,
    held: usize,
    held_row: usize,
    column: usize,
    row: usize,
) -> (r: (Gesture, Action))
    requires
        old(store).wf(),
        gesture_wf(*old(store), Gesture::Pressed { cell: held, row: held_row }),
        canvas.wf(),
    ensures
        final(store).wf(),
        gesture_wf(*final(store), r.0),
        release_outcome(*old(store), *final(store), *canvas, held, held_row, column, row),
        r == (Gesture::Idle, Action::Redraw),
{
    match canvas.lookup(column, row) {
        Some(Element::Cell(t)) => {
            if t < store.cells.len() {
                if store.cells[t].row == held_row {
                    swap_held(store, held, held_row, t);
                } else {
                    store.cells[held].pressed = false;
                }
            } else {
                store.cells[held].pressed = false;
            }
        },
        _ => {
            store.cells[held].pressed = false;
        },
    }
    (Gesture::Idle, Action::Redraw)
}

/// Commits the swap of the held cell with target cell `t` of the same
/// row, then drops the pressed marker.
fn swap_held(store: &mut TableStore, held: usize, held_row: usize, t: usize)
    requires
        old(store).wf(),
        gesture_wf(*old(store), Gesture::Pressed { cell: held, row: held_row }),
        t < old(store).cells@.len(),
        old(store).cells@[t as int].row == held_row,
    ensures
        final(store).wf(),
        final(store).none_pressed(),
        swap_committed(
            *old(store),
            *final(store),
            held_row as int,
            pos_of(*old(store), held_row as int, held),
            pos_of(*old(store), held_row as int, t),
        ),
{
    let a = position_of(&store.rows[held_row].cells, held);
    let b = position_of(&store.rows[held_row].cells, t);
    proof {
        let row_seq = store.rows@[held_row as int].cells@;
        assert(row_seq.contains(held));
        assert(row_seq.contains(t));
        let ka = pos_of(*store, held_row as int, held);
        let kb = pos_of(*store, held_row as int, t);
        assert(0 <= ka < row_seq.len() && row_seq[ka] == held);
        assert(0 <= kb < row_seq.len() && row_seq[kb] == t);
    }
    let a = a.unwrap();
    let b = b.unwrap();
    let _ = store.swap_cells_in_row(held_row, a, b);
    store.cells[held].pressed = false;
}

/// Drops the pressed marker named by the gesture state, if any.
fn release_pressed(store: &mut TableStore, state: Gesture)
    requires
        old(store).wf(),
        gesture_wf(*old(store), state),
    ensures
        final(store).wf(),
        pressed_cleared(*old(store), *final(store)),
        final(store).rows@ == old(store).rows@,
{
    match state {
        Gesture::Pressed { cell, row: _ } => {
            store.cells[cell].pressed = false;
        },
        Gesture::Idle => {},
    }
}

/// The first position of `x` in `v`, if it occurs.
fn position_of(v: &Vec<usize>, x: usize) -> (r: Option<usize>)
    ensures
        match r {
            Some(i) => i < v@.len() && v@[i as int] == x && forall|j: int|
                0 <= j < i ==> v@[j] != x,
            None => forall|j: int| 0 <= j < v@.len() ==> v@[j] != x,
        },
{
    let mut i: usize = 0;
    while i < v.len()
        invariant
            i <= v@.len(),
            forall|j: int| 0 <= j < i ==> v@[j] != x,
        decreases v@.len() - i,
    {
        if v[i] == x {
            return Some(i);
        }
        i += 1;
    }
    None
}

} // verus!

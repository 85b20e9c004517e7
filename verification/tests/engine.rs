use ecstable::canvas::Canvas;
use ecstable::gesture::{step, Action, Button, Event, Gesture};
use ecstable::store::{Element, StoreError, TableStore};
use ecstable::render::{plain_lines, render};

fn sample_columns() -> Vec<String> {
    vec!["Name".to_string(), "Age".to_string()]
}

fn sample_rows() -> Vec<Vec<String>> {
    vec![
        vec!["Ann".to_string(), "30".to_string()],
        vec!["Bo".to_string(), "25".to_string()],
    ]
}

fn sample_store() -> TableStore {
    TableStore::build(&sample_columns(), &sample_rows())
}

fn rendered(store: &TableStore, width: usize, height: usize) -> (Canvas, Vec<String>) {
    let mut canvas = Canvas::new();
    canvas.resize(width, height);
    let lines = render(store, &mut canvas);
    (canvas, lines)
}

// Screen layout of the sample table (second header and second cell of
// each row carry the demo highlight):
//   row 0:  (blank)
//   row 1:  Name, [Age],       "Name, " cols 0..6, "[Age], " cols 6..13
//   row 2:  Ann, [30],         "Ann, " cols 0..5, "[30], " cols 5..11
//   row 3:  Bo, [25],          "Bo, " cols 0..4, "[25], " cols 4..10
//   row 4:  (blank)

#[test]
fn build_counts_match() {
    let store = sample_store();
    assert_eq!(store.header_count(), 2);
    assert_eq!(store.row_count(), 2);
    for r in 0..store.row_count() {
        assert_eq!(store.cell_count(r), store.header_count());
    }
}

#[test]
fn build_texts_and_order() {
    let store = sample_store();
    assert_eq!(store.header_text(0).as_str(), "Name");
    assert_eq!(store.header_text(1).as_str(), "Age");
    assert_eq!(store.cell_text(0, 0).as_str(), "Ann");
    assert_eq!(store.cell_text(0, 1).as_str(), "30");
    assert_eq!(store.cell_text(1, 0).as_str(), "Bo");
    assert_eq!(store.cell_text(1, 1).as_str(), "25");
}

#[test]
fn swap_exchanges_cells() {
    let mut store = sample_store();
    assert_eq!(store.swap_cells_in_row(0, 0, 1), Ok(()));
    assert_eq!(store.cell_text(0, 0).as_str(), "30");
    assert_eq!(store.cell_text(0, 1).as_str(), "Ann");
    assert_eq!(store.cell_text(1, 0).as_str(), "Bo");
    assert_eq!(store.cell_text(1, 1).as_str(), "25");
}

#[test]
fn swap_twice_restores_order() {
    let mut store = sample_store();
    assert_eq!(store.swap_cells_in_row(1, 0, 1), Ok(()));
    assert_eq!(store.swap_cells_in_row(1, 0, 1), Ok(()));
    assert_eq!(store.cell_text(1, 0).as_str(), "Bo");
    assert_eq!(store.cell_text(1, 1).as_str(), "25");
}

#[test]
fn swap_rejects_out_of_bounds() {
    let mut store = sample_store();
    assert_eq!(store.swap_cells_in_row(0, 0, 2), Err(StoreError::InvalidIndex));
    assert_eq!(store.swap_cells_in_row(0, 9, 0), Err(StoreError::InvalidIndex));
    assert_eq!(store.swap_cells_in_row(7, 0, 1), Err(StoreError::InvalidIndex));
    assert_eq!(store.cell_text(0, 0).as_str(), "Ann");
}

#[test]
fn render_lines_exact() {
    let store = sample_store();
    let (_, lines) = rendered(&store, 40, 10);
    assert_eq!(lines.len(), 5);
    assert_eq!(lines[0], "");
    assert_eq!(lines[1], "Name, [Age], ");
    assert_eq!(lines[2], "Ann, [30], ");
    assert_eq!(lines[3], "Bo, [25], ");
    assert_eq!(lines[4], "");
}

#[test]
fn render_records_provenance() {
    let store = sample_store();
    let (canvas, _) = rendered(&store, 40, 10);
    let ann = Element::Cell(store.cell_id(0, 0));
    let thirty = Element::Cell(store.cell_id(0, 1));
    let bo = Element::Cell(store.cell_id(1, 0));
    // every position of a span resolves to the element that drew it
    for col in 0..6 {
        assert_eq!(canvas.lookup(col, 1), Some(Element::Header(0)));
    }
    for col in 6..13 {
        assert_eq!(canvas.lookup(col, 1), Some(Element::Header(1)));
    }
    for col in 0..5 {
        assert_eq!(canvas.lookup(col, 2), Some(ann));
    }
    for col in 5..11 {
        assert_eq!(canvas.lookup(col, 2), Some(thirty));
    }
    assert_eq!(canvas.lookup(0, 3), Some(bo));
    // positions never painted resolve to nothing
    assert_eq!(canvas.lookup(13, 1), None);
    assert_eq!(canvas.lookup(11, 2), None);
    assert_eq!(canvas.lookup(0, 0), None);
    assert_eq!(canvas.lookup(0, 4), None);
    assert_eq!(canvas.lookup(39, 9), None);
}

#[test]
fn render_truncates_at_right_edge() {
    let store = sample_store();
    // only 8 columns: "Name, [A" fits of the header line
    let (canvas, lines) = rendered(&store, 8, 10);
    // the text lines are not truncated, only the canvas is
    assert_eq!(lines[1], "Name, [Age], ");
    assert_eq!(canvas.lookup(7, 1), Some(Element::Header(1)));
    assert_eq!(canvas.lookup(8, 1), None);
}

#[test]
fn render_into_short_canvas_is_safe() {
    let store = sample_store();
    // height 2: only the blank line and the header line fit
    let (canvas, lines) = rendered(&store, 40, 2);
    assert_eq!(lines.len(), 5);
    assert_eq!(canvas.lookup(0, 1), Some(Element::Header(0)));
    assert_eq!(canvas.lookup(0, 2), None);
    assert_eq!(canvas.lookup(0, 3), None);
}

#[test]
fn render_empty_table() {
    let store = TableStore::build(&Vec::new(), &Vec::new());
    let (canvas, lines) = rendered(&store, 10, 5);
    assert_eq!(lines, vec!["".to_string(), "".to_string(), "".to_string()]);
    for row in 0..5 {
        for col in 0..10 {
            assert_eq!(canvas.lookup(col, row), None);
        }
    }
}

#[test]
fn resize_clears_stale_hits() {
    let store = sample_store();
    let (mut canvas, _) = rendered(&store, 40, 10);
    assert!(canvas.lookup(0, 2).is_some());
    canvas.resize(50, 12);
    for row in 0..12 {
        for col in 0..50 {
            assert_eq!(canvas.lookup(col, row), None);
        }
    }
    // the next render pass repopulates it
    let _ = render(&store, &mut canvas);
    assert!(canvas.lookup(0, 2).is_some());
}

#[test]
fn paint_clamps_to_width() {
    let mut canvas = Canvas::new();
    canvas.resize(5, 2);
    canvas.paint(Element::Header(0), 3, 0, 10);
    assert_eq!(canvas.lookup(3, 0), Some(Element::Header(0)));
    assert_eq!(canvas.lookup(4, 0), Some(Element::Header(0)));
    assert_eq!(canvas.lookup(2, 0), None);
    assert_eq!(canvas.lookup(0, 1), None);
    // painting below the buffer is silently dropped
    canvas.paint(Element::Header(0), 0, 7, 3);
    assert_eq!(canvas.lookup(0, 1), None);
}

#[test]
fn lookup_out_of_bounds_is_none() {
    let mut canvas = Canvas::new();
    canvas.resize(4, 3);
    canvas.paint(Element::Header(0), 0, 0, 4);
    assert_eq!(canvas.lookup(4, 0), None);
    assert_eq!(canvas.lookup(0, 3), None);
    assert_eq!(canvas.lookup(100, 100), None);
}

#[test]
fn mask_lines_show_ownership() {
    let mut canvas = Canvas::new();
    canvas.resize(4, 2);
    canvas.paint(Element::Header(0), 1, 0, 2);
    let mask = canvas.mask_lines();
    assert_eq!(mask, vec!["0110".to_string(), "0000".to_string()]);
}

#[test]
fn plain_lines_have_no_markers() {
    let store = sample_store();
    let lines = plain_lines(&store);
    assert_eq!(lines.len(), 5);
    assert_eq!(lines[0], "");
    assert_eq!(lines[1], "Name, Age, ");
    assert_eq!(lines[2], "Ann, 30, ");
    assert_eq!(lines[3], "Bo, 25, ");
    assert_eq!(lines[4], "");
}

#[test]
fn press_on_cell_starts_gesture_and_shows_marker() {
    let mut store = sample_store();
    let (canvas, _) = rendered(&store, 40, 10);
    let down = Event::MouseDown { button: Button::Left, column: 0, row: 2 };
    let (state, action) = step(&mut store, &canvas, Gesture::Idle, &down);
    assert_eq!(action, Action::Redraw);
    assert!(matches!(state, Gesture::Pressed { .. }));
    // the pressed cell is rendered bracket-marked on the next pass
    let mut canvas2 = Canvas::new();
    canvas2.resize(40, 10);
    let lines = render(&store, &mut canvas2);
    assert_eq!(lines[2], "[Ann], [30], ");
}

#[test]
fn press_on_header_is_a_no_op() {
    let mut store = sample_store();
    let (canvas, _) = rendered(&store, 40, 10);
    let down = Event::MouseDown { button: Button::Left, column: 0, row: 1 };
    let (state, action) = step(&mut store, &canvas, Gesture::Idle, &down);
    assert_eq!(state, Gesture::Idle);
    assert_eq!(action, Action::Wait);
}

#[test]
fn non_left_buttons_are_ignored() {
    let mut store = sample_store();
    let (canvas, _) = rendered(&store, 40, 10);
    let down = Event::MouseDown { button: Button::Right, column: 0, row: 2 };
    let (state, action) = step(&mut store, &canvas, Gesture::Idle, &down);
    assert_eq!(state, Gesture::Idle);
    assert_eq!(action, Action::Wait);
}

#[test]
fn quit_key_signals_quit() {
    let mut store = sample_store();
    let (canvas, _) = rendered(&store, 40, 10);
    let (state, action) = step(
        &mut store,
        &canvas,
        Gesture::Idle,
        &Event::Key { ch: 'q', plain: true },
    );
    assert_eq!(state, Gesture::Idle);
    assert_eq!(action, Action::Quit);
    // with a modifier held, or another character, nothing happens
    let (_, action) = step(
        &mut store,
        &canvas,
        Gesture::Idle,
        &Event::Key { ch: 'q', plain: false },
    );
    assert_eq!(action, Action::Wait);
    let (_, action) = step(
        &mut store,
        &canvas,
        Gesture::Idle,
        &Event::Key { ch: 'x', plain: true },
    );
    assert_eq!(action, Action::Wait);
}

#[test]
fn scenario_release_in_other_row_first_column() {
    // click "Ann", release over "Bo": different rows, no swap
    let mut store = sample_store();
    let (canvas, _) = rendered(&store, 40, 10);
    let down = Event::MouseDown { button: Button::Left, column: 0, row: 2 };
    let (state, _) = step(&mut store, &canvas, Gesture::Idle, &down);
    let up = Event::MouseUp { button: Button::Left, column: 0, row: 3 };
    let (state, action) = step(&mut store, &canvas, state, &up);
    assert_eq!(state, Gesture::Idle);
    assert_eq!(action, Action::Redraw);
    assert_eq!(store.cell_text(0, 0).as_str(), "Ann");
    assert_eq!(store.cell_text(0, 1).as_str(), "30");
    assert_eq!(store.cell_text(1, 0).as_str(), "Bo");
    assert_eq!(store.cell_text(1, 1).as_str(), "25");
}

#[test]
fn scenario_release_in_other_row_second_column() {
    // click "30", release over "25": different rows, no swap
    let mut store = sample_store();
    let (canvas, _) = rendered(&store, 40, 10);
    let down = Event::MouseDown { button: Button::Left, column: 6, row: 2 };
    let (state, _) = step(&mut store, &canvas, Gesture::Idle, &down);
    let up = Event::MouseUp { button: Button::Left, column: 5, row: 3 };
    let (state, _) = step(&mut store, &canvas, state, &up);
    assert_eq!(state, Gesture::Idle);
    assert_eq!(store.cell_text(0, 0).as_str(), "Ann");
    assert_eq!(store.cell_text(0, 1).as_str(), "30");
    assert_eq!(store.cell_text(1, 0).as_str(), "Bo");
    assert_eq!(store.cell_text(1, 1).as_str(), "25");
}

#[test]
fn scenario_drag_within_row_swaps() {
    // click "Ann", release over "30": same row, the cells swap
    let mut store = sample_store();
    let (canvas, _) = rendered(&store, 40, 10);
    let down = Event::MouseDown { button: Button::Left, column: 0, row: 2 };
    let (state, _) = step(&mut store, &canvas, Gesture::Idle, &down);
    let up = Event::MouseUp { button: Button::Left, column: 6, row: 2 };
    let (state, action) = step(&mut store, &canvas, state, &up);
    assert_eq!(state, Gesture::Idle);
    assert_eq!(action, Action::Redraw);
    assert_eq!(store.cell_text(0, 0).as_str(), "30");
    assert_eq!(store.cell_text(0, 1).as_str(), "Ann");
    assert_eq!(store.cell_text(1, 0).as_str(), "Bo");
    assert_eq!(store.cell_text(1, 1).as_str(), "25");
}

#[test]
fn scenario_press_on_empty_space() {
    // click empty trailing space, release over "Ann": no swap, no error
    let mut store = sample_store();
    let (canvas, _) = rendered(&store, 40, 10);
    let down = Event::MouseDown { button: Button::Left, column: 30, row: 2 };
    let (state, action) = step(&mut store, &canvas, Gesture::Idle, &down);
    assert_eq!(state, Gesture::Idle);
    assert_eq!(action, Action::Wait);
    let up = Event::MouseUp { button: Button::Left, column: 0, row: 2 };
    let (state, action) = step(&mut store, &canvas, state, &up);
    assert_eq!(state, Gesture::Idle);
    assert_eq!(action, Action::Wait);
    assert_eq!(store.cell_text(0, 0).as_str(), "Ann");
    assert_eq!(store.cell_text(0, 1).as_str(), "30");
}

#[test]
fn scenario_resize_mid_gesture_abandons_press() {
    // a resize between press and release discards the pending press,
    // and the next click starts a fresh gesture
    let mut store = sample_store();
    let (mut canvas, _) = rendered(&store, 40, 10);
    let down = Event::MouseDown { button: Button::Left, column: 0, row: 2 };
    let (state, _) = step(&mut store, &canvas, Gesture::Idle, &down);
    assert!(matches!(state, Gesture::Pressed { .. }));
    let (state, action) = step(
        &mut store,
        &canvas,
        state,
        &Event::Resize { columns: 50, rows: 12 },
    );
    assert_eq!(state, Gesture::Idle);
    assert_eq!(action, Action::Resize { columns: 50, rows: 12 });
    canvas.resize(50, 12);
    let _ = render(&store, &mut canvas);
    // the abandoned press left no marker and caused no swap
    assert_eq!(store.cell_text(0, 0).as_str(), "Ann");
    assert_eq!(store.cell_text(0, 1).as_str(), "30");
    // a fresh gesture works as usual
    let (state, _) = step(&mut store, &canvas, Gesture::Idle, &down);
    let up = Event::MouseUp { button: Button::Left, column: 6, row: 2 };
    let (state, _) = step(&mut store, &canvas, state, &up);
    assert_eq!(state, Gesture::Idle);
    assert_eq!(store.cell_text(0, 0).as_str(), "30");
    assert_eq!(store.cell_text(0, 1).as_str(), "Ann");
}

#[test]
fn release_on_same_cell_keeps_row() {
    let mut store = sample_store();
    let (canvas, _) = rendered(&store, 40, 10);
    let down = Event::MouseDown { button: Button::Left, column: 1, row: 2 };
    let (state, _) = step(&mut store, &canvas, Gesture::Idle, &down);
    let up = Event::MouseUp { button: Button::Left, column: 2, row: 2 };
    let (state, _) = step(&mut store, &canvas, state, &up);
    assert_eq!(state, Gesture::Idle);
    assert_eq!(store.cell_text(0, 0).as_str(), "Ann");
    assert_eq!(store.cell_text(0, 1).as_str(), "30");
}

#[test]
fn motion_and_unknown_events_are_ignored() {
    let mut store = sample_store();
    let (canvas, _) = rendered(&store, 40, 10);
    let (state, action) = step(&mut store, &canvas, Gesture::Idle, &Event::Other);
    assert_eq!(state, Gesture::Idle);
    assert_eq!(action, Action::Wait);
}

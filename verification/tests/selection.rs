use std::collections::HashMap;
use wezterm_gui::selection::{
    ClickPosition, ExtendStep, MousePress, PaneDimensions, PaneState, SelectStep, Selection,
    SelectionCoordinate, SelectionMode, SelectionRange, SelectionX, TermWindow, TickStep,
    AUTOSCROLL_SELECTION_INTERVAL_MS,
};

const PANE: usize = 7;

fn window() -> TermWindow {
    TermWindow {
        panes: HashMap::new(),
        current_mouse_buttons: vec![MousePress::Left],
        autoscroll_selection_mode: None,
        has_window: true,
    }
}

fn at(column: usize, row: i64, y_pixel_offset: isize) -> ClickPosition {
    ClickPosition { column, row, x_pixel_offset: 0, y_pixel_offset }
}

fn hover(w: &mut TermWindow, position: ClickPosition, y: isize) {
    let mut state = w.pane_state(PANE);
    state.mouse_terminal_coords = Some((position, y));
    w.set_pane_state(PANE, state);
}

fn range(x0: SelectionX, y0: isize, x1: SelectionX, y1: isize) -> Option<SelectionRange> {
    Some(SelectionRange {
        start: SelectionCoordinate { x: x0, y: y0 },
        end: SelectionCoordinate { x: x1, y: y1 },
    })
}

#[test]
fn columns_stop_before_the_first_cell() {
    assert_eq!(SelectionX::Cell(3).saturating_sub(1), SelectionX::Cell(2));
    assert_eq!(SelectionX::Cell(0).saturating_sub(1), SelectionX::BeforeZero);
    assert_eq!(SelectionX::Cell(2).saturating_sub(5), SelectionX::BeforeZero);
    assert_eq!(SelectionX::BeforeZero.saturating_sub(1), SelectionX::BeforeZero);
    assert!(SelectionX::BeforeZero.at_or_left_of(0));
    assert!(SelectionX::Cell(4).at_or_left_of(4));
    assert!(!SelectionX::Cell(5).at_or_left_of(4));
    assert!(SelectionX::Cell(4).is_cell(4));
    assert!(!SelectionX::BeforeZero.is_cell(0));
}

#[test]
fn an_untouched_pane_has_no_selection() {
    let w = window();
    assert_eq!(
        w.selection(PANE),
        Selection { origin: None, range: None, seqno: 0, rectangular: false }
    );
}

#[test]
fn forward_drag_includes_origin_and_excludes_cursor() {
    let mut w = window();
    hover(&mut w, at(2, 1, 0), 10);
    assert_eq!(w.select_text_at_mouse_cursor(SelectionMode::Cell, PANE, 5), SelectStep::Begun);
    assert_eq!(w.selection(PANE).range, None);
    assert_eq!(w.selection(PANE).seqno, 5);
    hover(&mut w, at(6, 1, 0), 10);
    assert_eq!(
        w.extend_selection_at_mouse_cursor(SelectionMode::Cell, PANE, 6),
        ExtendStep::Extended
    );
    let s = w.selection(PANE);
    assert_eq!(s.range, range(SelectionX::Cell(2), 10, SelectionX::Cell(5), 10));
    assert_eq!(s.origin, Some(SelectionCoordinate::x_y(2, 10)));
    assert_eq!(s.seqno, 6);
    assert!(!s.rectangular);
}

#[test]
fn backward_drag_excludes_origin_and_includes_cursor() {
    let mut w = window();
    hover(&mut w, at(6, 1, 0), 10);
    w.select_text_at_mouse_cursor(SelectionMode::Cell, PANE, 1);
    hover(&mut w, at(2, 1, 0), 10);
    w.extend_selection_at_mouse_cursor(SelectionMode::Cell, PANE, 1);
    assert_eq!(
        w.selection(PANE).range,
        range(SelectionX::Cell(5), 10, SelectionX::Cell(2), 10)
    );
}

#[test]
fn drag_from_first_column_upwards_starts_before_it() {
    let mut w = window();
    hover(&mut w, at(0, 1, 0), 10);
    w.select_text_at_mouse_cursor(SelectionMode::Cell, PANE, 1);
    hover(&mut w, at(3, 0, 0), 9);
    w.extend_selection_at_mouse_cursor(SelectionMode::Cell, PANE, 1);
    assert_eq!(
        w.selection(PANE).range,
        range(SelectionX::BeforeZero, 10, SelectionX::Cell(3), 9)
    );
}

#[test]
fn drag_down_is_forward_whatever_the_column() {
    let mut w = window();
    hover(&mut w, at(8, 1, 0), 10);
    w.select_text_at_mouse_cursor(SelectionMode::Cell, PANE, 1);
    hover(&mut w, at(0, 2, 0), 11);
    w.extend_selection_at_mouse_cursor(SelectionMode::Cell, PANE, 1);
    assert_eq!(
        w.selection(PANE).range,
        range(SelectionX::Cell(8), 10, SelectionX::BeforeZero, 11)
    );
}

#[test]
fn mouse_back_at_the_origin_selects_nothing() {
    let mut w = window();
    hover(&mut w, at(4, 1, 0), 10);
    w.select_text_at_mouse_cursor(SelectionMode::Cell, PANE, 1);
    w.extend_selection_at_mouse_cursor(SelectionMode::Cell, PANE, 1);
    assert_eq!(w.selection(PANE).range, None);
}

#[test]
fn block_without_width_selects_nothing() {
    let mut w = window();
    hover(&mut w, at(4, 1, 0), 10);
    w.select_text_at_mouse_cursor(SelectionMode::Block, PANE, 1);
    hover(&mut w, at(4, 5, 0), 14);
    w.extend_selection_at_mouse_cursor(SelectionMode::Block, PANE, 1);
    assert_eq!(w.selection(PANE).range, None);
    assert!(w.selection(PANE).rectangular);
}

#[test]
fn block_drag_up_and_right_looks_at_columns_only() {
    let mut w = window();
    hover(&mut w, at(4, 5, 0), 14);
    w.select_text_at_mouse_cursor(SelectionMode::Block, PANE, 1);
    hover(&mut w, at(9, 1, 0), 10);
    w.extend_selection_at_mouse_cursor(SelectionMode::Block, PANE, 1);
    assert_eq!(
        w.selection(PANE).range,
        range(SelectionX::Cell(4), 14, SelectionX::Cell(8), 10)
    );
}

#[test]
fn resting_mouse_keeps_the_selection() {
    let mut w = window();
    hover(&mut w, at(4, 5, 0), 14);
    w.select_text_at_mouse_cursor(SelectionMode::Cell, PANE, 1);
    hover(&mut w, at(9, 5, 0), 14);
    w.extend_selection_at_mouse_cursor(SelectionMode::Cell, PANE, 1);
    let once = w.selection(PANE);
    w.extend_selection_at_mouse_cursor(SelectionMode::Cell, PANE, 1);
    assert_eq!(w.selection(PANE), once);
}

#[test]
fn extending_without_a_mouse_only_stamps() {
    let mut w = window();
    assert_eq!(
        w.extend_selection_at_mouse_cursor(SelectionMode::Word, PANE, 42),
        ExtendStep::NoMouse
    );
    assert_eq!(w.selection(PANE).seqno, 42);
    assert_eq!(w.selection(PANE).range, None);
}

#[test]
fn word_drag_asks_for_units_and_keeps_the_other_pane() {
    let mut w = window();
    let other = PaneState {
        selection: Selection { origin: None, range: None, seqno: 3, rectangular: true },
        mouse_terminal_coords: None,
    };
    w.set_pane_state(1, other);
    hover(&mut w, at(4, 1, 0), 10);
    let step = w.select_text_at_mouse_cursor(SelectionMode::Word, PANE, 1);
    let here = SelectionCoordinate::x_y(4, 10);
    assert_eq!(step, SelectStep::LocateUnit(here));
    let word = range(SelectionX::Cell(3), 10, SelectionX::Cell(6), 10).unwrap();
    w.select_unit(SelectionMode::Word, PANE, 1, here, word);
    assert_eq!(w.selection(PANE).origin, Some(word.start));

    hover(&mut w, at(12, 1, 0), 10);
    let step = w.extend_selection_at_mouse_cursor(SelectionMode::Word, PANE, 2);
    assert_eq!(step, ExtendStep::LocateUnit(SelectionCoordinate::x_y(12, 10)));
    let end_word = range(SelectionX::Cell(11), 10, SelectionX::Cell(14), 10).unwrap();
    assert_eq!(w.unit_anchor(PANE, end_word), word.start);
    let both = SelectionRange { start: word.start, end: end_word.end };
    w.extend_to_unit(PANE, both);
    assert_eq!(w.selection(PANE).range, Some(both));
    assert_eq!(w.selection(PANE).seqno, 2);
    assert_eq!(w.pane_state(1), other);
}

#[test]
fn unit_drag_without_origin_is_anchored_at_the_unit() {
    let w = window();
    let unit = range(SelectionX::Cell(1), 2, SelectionX::Cell(3), 2).unwrap();
    assert_eq!(w.unit_anchor(PANE, unit), unit.start);
}

#[test]
fn line_selection_starts_at_the_clicked_cell() {
    let mut w = window();
    hover(&mut w, at(4, 1, 0), 10);
    let here = SelectionCoordinate::x_y(4, 10);
    let line = range(SelectionX::Cell(0), 10, SelectionX::Cell(79), 10).unwrap();
    w.select_unit(SelectionMode::Line, PANE, 9, here, line);
    assert_eq!(w.selection(PANE).origin, Some(here));
    assert_eq!(w.selection(PANE).range, Some(line));
    w.select_unit(SelectionMode::SemanticZone, PANE, 9, here, line);
    assert_eq!(w.selection(PANE).origin, Some(line.start));
}

#[test]
fn clearing_drops_range_and_origin() {
    let mut w = window();
    hover(&mut w, at(4, 1, 0), 10);
    w.select_text_at_mouse_cursor(SelectionMode::Block, PANE, 1);
    w.clear_selection(PANE, 77);
    assert_eq!(
        w.selection(PANE),
        Selection { origin: None, range: None, seqno: 77, rectangular: true }
    );
}

#[test]
fn viewport_scrolls_only_past_its_edges() {
    let mut w = window();
    let dims = PaneDimensions { viewport_rows: 24, physical_top: 100 };
    assert_eq!(w.viewport_to_scroll_to(PANE, dims, None), None);
    hover(&mut w, at(0, 0, -1), 100);
    assert_eq!(w.viewport_to_scroll_to(PANE, dims, None), Some(99));
    hover(&mut w, at(0, 0, 0), 100);
    assert_eq!(w.viewport_to_scroll_to(PANE, dims, None), None);
    hover(&mut w, at(0, 23, 0), 123);
    assert_eq!(w.viewport_to_scroll_to(PANE, dims, None), None);
    hover(&mut w, at(0, 24, 0), 124);
    assert_eq!(w.viewport_to_scroll_to(PANE, dims, None), Some(101));
    assert_eq!(w.viewport_to_scroll_to(PANE, dims, Some(50)), Some(51));
    hover(&mut w, at(0, 0, -1), isize::MIN);
    assert_eq!(w.viewport_to_scroll_to(PANE, dims, None), Some(isize::MIN));
}

#[test]
fn scrolling_resyncs_the_mouse_row_and_schedules_one_tick() {
    let mut w = window();
    let dims = PaneDimensions { viewport_rows: 24, physical_top: 100 };
    hover(&mut w, at(3, 24, 0), 124);
    assert!(w.settle_scrolled(SelectionMode::Cell, PANE, dims, Some(60)));
    assert_eq!(w.pane_state(PANE).mouse_terminal_coords, Some((at(3, 24, 0), 84)));
    assert_eq!(w.autoscroll_selection_mode, Some(SelectionMode::Cell));
    assert!(!w.settle_scrolled(SelectionMode::Block, PANE, dims, None));
    assert_eq!(w.pane_state(PANE).mouse_terminal_coords, Some((at(3, 24, 0), 124)));
    assert_eq!(w.autoscroll_selection_mode, Some(SelectionMode::Cell));
}

#[test]
fn scheduling_twice_starts_one_timer() {
    let mut w = window();
    assert!(w.maybe_schedule_selection_autoscroll(SelectionMode::Word));
    assert!(!w.maybe_schedule_selection_autoscroll(SelectionMode::Line));
    assert_eq!(w.autoscroll_selection_mode, Some(SelectionMode::Word));
    assert_eq!(AUTOSCROLL_SELECTION_INTERVAL_MS, 40);
}

#[test]
fn nothing_is_scheduled_without_a_window() {
    let mut w = window();
    w.has_window = false;
    assert!(!w.maybe_schedule_selection_autoscroll(SelectionMode::Word));
    assert_eq!(w.autoscroll_selection_mode, None);
}

#[test]
fn tick_extends_while_the_button_is_down() {
    let mut w = window();
    w.maybe_schedule_selection_autoscroll(SelectionMode::Word);
    assert_eq!(
        w.tick_selection_autoscroll(Some(PANE)),
        TickStep::Extend(SelectionMode::Word, PANE)
    );
    assert_eq!(w.autoscroll_selection_mode, None);
    assert!(w.maybe_schedule_selection_autoscroll(SelectionMode::Word));
}

#[test]
fn tick_stops_on_release_reentry_or_missing_pane() {
    let mut w = window();
    w.maybe_schedule_selection_autoscroll(SelectionMode::Word);
    w.current_mouse_buttons = vec![MousePress::Right, MousePress::Middle];
    assert_eq!(w.tick_selection_autoscroll(Some(PANE)), TickStep::Stop);
    assert_eq!(w.autoscroll_selection_mode, None);

    w.current_mouse_buttons = vec![MousePress::Right, MousePress::Left];
    w.maybe_schedule_selection_autoscroll(SelectionMode::Word);
    w.settle_inside_viewport();
    assert_eq!(w.tick_selection_autoscroll(Some(PANE)), TickStep::Stop);

    w.maybe_schedule_selection_autoscroll(SelectionMode::Word);
    assert_eq!(w.tick_selection_autoscroll(None), TickStep::Stop);
    assert_eq!(w.autoscroll_selection_mode, None);
}

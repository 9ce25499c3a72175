use std::collections::HashMap;
use wezterm_gui::selected::{
    ColumnSpan, LineCell, LogicalLine, PhysicalLine, RowSpan, SelectedSpan,
};
use wezterm_gui::selection::{
    PaneState, Selection, SelectionCoordinate, SelectionRange, TermWindow,
};

const PANE: usize = 1;
const ALL: ColumnSpan = ColumnSpan { start: 0, end: usize::MAX };

fn window(selected: bool) -> TermWindow {
    let mut w = TermWindow {
        panes: HashMap::new(),
        current_mouse_buttons: vec![],
        autoscroll_selection_mode: None,
        has_window: true,
    };
    let range = SelectionRange::start(SelectionCoordinate::x_y(0, 0));
    w.set_pane_state(
        PANE,
        PaneState {
            selection: Selection {
                origin: None,
                range: if selected { Some(range) } else { None },
                seqno: 0,
                rectangular: false,
            },
            mouse_terminal_coords: None,
        },
    );
    w
}

fn line(text: &str, wrapped: bool, selected: ColumnSpan) -> PhysicalLine {
    let count = text.chars().count();
    PhysicalLine {
        len: count,
        cells: text
            .chars()
            .enumerate()
            .map(|(index, c)| LineCell {
                index,
                text: c.to_string(),
                wrapped: wrapped && index + 1 == count,
            })
            .collect(),
        selected,
    }
}

fn logical(first_row: isize, physical_lines: Vec<PhysicalLine>) -> LogicalLine {
    LogicalLine { first_row, physical_lines }
}

fn rows(start: isize, end: isize) -> RowSpan {
    RowSpan { start, end }
}

#[test]
fn no_range_no_text() {
    let lines = vec![logical(0, vec![line("abc", false, ALL)])];
    assert_eq!(window(false).selection_text(PANE, rows(0, 1), &lines), "");
    assert_eq!(window(false).selection_lines(PANE, rows(0, 1), &lines).len(), 0);
}

#[test]
fn columns_are_cut_out() {
    let l = line("hello", false, ALL);
    assert_eq!(l.columns_as_str(ColumnSpan { start: 1, end: 3 }), "el");
    assert_eq!(l.columns_as_str(ColumnSpan { start: 3, end: 3 }), "");
    assert_eq!(l.columns_as_str(ColumnSpan { start: 4, end: 99 }), "o");
}

#[test]
fn wide_cells_count_by_the_column_they_start_in() {
    let l = PhysicalLine {
        len: 3,
        cells: vec![
            LineCell { index: 0, text: "\u{4e00}".to_string(), wrapped: false },
            LineCell { index: 2, text: "x".to_string(), wrapped: true },
        ],
        selected: ALL,
    };
    assert_eq!(l.columns_as_str(ColumnSpan { start: 1, end: 3 }), "x");
    assert_eq!(l.columns_as_str(ColumnSpan { start: 0, end: 1 }), "\u{4e00}");
    assert!(l.is_wrapped_at(2));
    assert!(!l.is_wrapped_at(1));
    assert!(!l.is_wrapped_at(0));
}

#[test]
fn lines_are_separated_and_trimmed() {
    let lines = vec![
        logical(0, vec![line("ab  ", false, ALL)]),
        logical(1, vec![line("cd \t", false, ALL)]),
    ];
    assert_eq!(window(true).selection_text(PANE, rows(0, 2), &lines), "ab\ncd");
}

#[test]
fn wrapped_physical_lines_are_joined_untrimmed() {
    let lines = vec![
        logical(0, vec![line("ab ", true, ALL), line("cd ", false, ALL)]),
        logical(2, vec![line("ef", false, ALL)]),
    ];
    assert_eq!(window(true).selection_text(PANE, rows(0, 3), &lines), "ab cd\nef");
}

#[test]
fn rows_outside_the_selection_do_not_matter() {
    let a = vec![
        logical(0, vec![line("xx", true, ALL), line("cd ", false, ALL)]),
        logical(2, vec![line("ef ", true, ALL), line("gh", false, ALL)]),
    ];
    let b = vec![
        logical(0, vec![line("something else", false, ALL), line("cd ", false, ALL)]),
        logical(2, vec![line("ef ", true, ALL), line("", true, ALL)]),
    ];
    let w = window(true);
    assert_eq!(w.selection_text(PANE, rows(1, 3), &a), "cd\nef ");
    assert_eq!(w.selection_text(PANE, rows(1, 3), &b), "cd\nef ");
}

#[test]
fn leading_empty_lines_add_no_break() {
    let lines = vec![
        logical(0, vec![line("   ", false, ALL)]),
        logical(1, vec![line("a", false, ALL)]),
        logical(2, vec![line("", false, ALL)]),
        logical(3, vec![line("b", false, ALL)]),
    ];
    assert_eq!(window(true).selection_text(PANE, rows(0, 4), &lines), "a\n\nb");
}

#[test]
fn a_selected_wrap_joins_logical_lines() {
    let lines = vec![
        logical(0, vec![line("ab", true, ALL)]),
        logical(1, vec![line("cd", false, ALL)]),
    ];
    let w = window(true);
    assert_eq!(w.selection_text(PANE, rows(0, 2), &lines), "abcd");
    let out = w.selection_lines(PANE, rows(0, 2), &lines);
    assert_eq!(out.len(), 1);
    assert_eq!(out[0].opened_by, 0);
    assert_eq!(
        out[0].spans,
        vec![
            SelectedSpan { line: 0, physical: 0, columns: ALL, prune: true },
            SelectedSpan { line: 1, physical: 0, columns: ALL, prune: true },
        ]
    );
}

#[test]
fn a_wrap_that_is_not_reached_breaks_the_line() {
    let part = ColumnSpan { start: 0, end: 1 };
    let lines = vec![
        logical(0, vec![line("ab", true, part)]),
        logical(1, vec![line("cd", false, part)]),
    ];
    let w = window(true);
    assert_eq!(w.selection_text(PANE, rows(0, 2), &lines), "a\nc");
    assert_eq!(w.selection_lines(PANE, rows(0, 2), &lines).len(), 2);
}

#[test]
fn the_text_is_the_lines_joined() {
    let lines = vec![
        logical(0, vec![line("ab ", true, ALL), line("cd ", false, ALL)]),
        logical(2, vec![line("ef", true, ALL)]),
        logical(3, vec![line("gh", false, ALL)]),
    ];
    let w = window(true);
    let span = rows(0, 4);
    let mut texts: Vec<String> = vec![];
    for l in w.selection_lines(PANE, span, &lines) {
        let mut text = String::new();
        for s in &l.spans {
            let piece = lines[s.line].physical_lines[s.physical].columns_as_str(s.columns);
            text.push_str(if s.prune { piece.trim_end() } else { &piece });
        }
        texts.push(text);
    }
    assert_eq!(texts, vec!["ab cd".to_string(), "efgh".to_string()]);
    assert_eq!(w.selection_text(PANE, span, &lines), texts.join("\n"));
}

#[test]
fn the_lines_are_the_pieces_of_the_text() {
    let lines = vec![
        logical(0, vec![line("ab ", true, ALL), line("cd ", false, ALL)]),
        logical(2, vec![line("  ", false, ALL)]),
        logical(3, vec![line("ef", true, ALL)]),
        logical(4, vec![line("gh", false, ALL)]),
    ];
    let w = window(true);
    let text = w.selection_text(PANE, rows(0, 5), &lines);
    let selected = w.selection_lines(PANE, rows(0, 5), &lines);
    assert_eq!(text.split('\n').collect::<Vec<_>>(), ["ab cd", "", "efgh"]);
    assert_eq!(selected.len(), 3);
}

#[test]
fn selected_lines_hold_every_selected_row_once() {
    let lines = vec![
        logical(5, vec![line("a", true, ALL), line("b", true, ALL), line("c", false, ALL)]),
        logical(8, vec![line("d", false, ALL)]),
    ];
    let out = window(true).selection_lines(PANE, rows(6, 9), &lines);
    let all: Vec<(usize, usize)> =
        out.iter().flat_map(|l| l.spans.iter().map(|s| (s.line, s.physical))).collect();
    assert_eq!(all, vec![(0, 1), (0, 2), (1, 0)]);
    assert!(!out[0].spans[0].prune);
    assert!(out[0].spans[1].prune);
    assert_eq!(out[1].opened_by, 1);
}

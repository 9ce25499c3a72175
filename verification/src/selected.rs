//! What a selection covers, as text and as lines.
//!
//! The terminal hands out logical lines: each is a run of physical lines that the
//! terminal wrapped. Every physical line comes with its cells and with the columns
//! that the selection takes from its row.

use crate::selection::{PaneId, StableRowIndex, TermWindow};
use crate::text::{lacks, lemma_one_piece, lemma_pieces_last, pieces, trim_end};
use vstd::prelude::*;

verus! {

/// The rows from `start` up to but not including `end`.
#[derive(Debug, Clone, Copy, PartialEq, Eq, Structural)]
pub struct RowSpan {
    pub start: StableRowIndex,
    pub end: StableRowIndex,
}

/// The columns from `start` up to but not including `end`.
#[derive(Debug, Clone, Copy, PartialEq, Eq, Structural)]
pub struct ColumnSpan {
    pub start: usize,
    pub end: usize,
}

/// A visible cell: the column it starts in, its text, and whether the line was
/// wrapped after it.
pub struct LineCell {
    pub index: usize,
    pub text: String,
    pub wrapped: bool,
}

/// A physical line of `len` columns, with its visible cells from left to right.
pub struct PhysicalLine {
    pub len: usize,
    pub cells: Vec<LineCell>,
    /// The columns that the selection takes from this row.
    pub selected: ColumnSpan,
}

/// A logical line and the row of its first physical line.
pub struct LogicalLine {
    pub first_row: StableRowIndex,
    pub physical_lines: Vec<PhysicalLine>,
}

/// A part of a physical line: which logical line and which of its physical lines, the
/// columns, and whether blanks at its end are dropped.
#[derive(Debug, Clone, Copy, PartialEq, Eq, Structural)]
pub struct SelectedSpan {
    pub line: usize,
    pub physical: usize,
    pub columns: ColumnSpan,
    pub prune: bool,
}

/// A line of the selection: the logical line that opened it and the spans that make it
/// up, in order.
pub struct SelectedLine {
    pub opened_by: usize,
    pub spans: Vec<SelectedSpan>,
}

/// A line of the selection, as a mathematical value.
pub struct SelectedLineView {
    pub opened_by: int,
    pub spans: Seq<SelectedSpan>,
}

impl View for SelectedLine {
    type V = SelectedLineView;

    open spec fn view(&self) -> SelectedLineView {
        SelectedLineView { opened_by: self.opened_by as int, spans: self.spans@ }
    }
}

/// The views of the selected lines.
pub open spec fn line_views(lines: Seq<SelectedLine>) -> Seq<SelectedLineView> {
    lines.map_values(|l: SelectedLine| l@)
}

/// The text of the cells that start in the columns `span`.
pub open spec fn cells_text(cells: Seq<LineCell>, span: ColumnSpan) -> Seq<char>
    decreases cells.len(),
{
    if cells.len() == 0 {
        Seq::empty()
    } else {
        let rest = cells_text(cells.drop_last(), span);
        if span.start <= cells.last().index < span.end {
            rest + cells.last().text@
        } else {
            rest
        }
    }
}

/// Whether the cell that starts in column `index` is there and marked as wrapped.
pub open spec fn wrapped_at(cells: Seq<LineCell>, index: usize) -> bool {
    exists|i: int|
        #![trigger cells[i]]
        0 <= i < cells.len() && cells[i].index == index && cells[i].wrapped && (forall|j: int|
            0 <= j < i ==> (#[trigger] cells[j]).index != index)
}

/// `n` less one, not below zero.
pub open spec fn pred(n: usize) -> usize {
    if n == 0 {
        0
    } else {
        (n - 1) as usize
    }
}

impl PhysicalLine {
    /// Whether the selection reaches the last column and the line is wrapped there.
    pub open spec fn selected_through_wrap(self) -> bool {
        &&& pred(self.selected.end) >= pred(self.len)
        &&& wrapped_at(self.cells@, pred(self.len))
    }

    /// The selected text; without white space at its end where `trimmed`.
    pub open spec fn selected_text(self, trimmed: bool) -> Seq<char> {
        let text = cells_text(self.cells@, self.selected);
        if trimmed {
            crate::text::trimmed_end(text)
        } else {
            text
        }
    }

    /// The text of the cells that start in the columns `span`.
    pub fn columns_as_str(&self, span: ColumnSpan) -> (r: String)
        ensures
            r@ == cells_text(self.cells@, span),
    {
        let mut out = String::new();
        let mut i: usize = 0;
        while i < self.cells.len()
            invariant
                i <= self.cells.len(),
                out@ == cells_text(self.cells@.take(i as int), span),
            decreases self.cells.len() - i,
        {
            let cell = &self.cells[i];
            assert(self.cells@.take(i + 1).drop_last() =~= self.cells@.take(i as int));
            if span.start <= cell.index && cell.index < span.end {
                out.push_str(cell.text.as_str());
            }
            i = i + 1;
        }
        assert(self.cells@.take(i as int) =~= self.cells@);
        out
    }

    /// Whether the cell in column `index` is there and marked as wrapped.
    pub fn is_wrapped_at(&self, index: usize) -> (r: bool)
        ensures
            r == wrapped_at(self.cells@, index),
    {
        let mut i: usize = 0;
        while i < self.cells.len()
            invariant
                i <= self.cells.len(),
                forall|j: int| 0 <= j < i ==> (#[trigger] self.cells@[j]).index != index,
            decreases self.cells.len() - i,
        {
            if self.cells[i].index == index {
                return self.cells[i].wrapped;
            }
            i = i + 1;
        }
        false
    }

    /// Whether the selection reaches the last column and the line is wrapped there.
    fn ends_in_selected_wrap(&self) -> (r: bool)
        ensures
            r == self.selected_through_wrap(),
    {
        let last_column: usize = self.len.saturating_sub(1);
        let mut last_selected: usize = self.selected.end.saturating_sub(1);
        if last_selected > last_column {
            last_selected = last_column;
        }
        last_selected == last_column && self.is_wrapped_at(last_selected)
    }
}

impl LogicalLine {
    /// The row of physical line `i`.
    pub open spec fn row(self, i: int) -> int {
        self.first_row + i
    }

    /// The rows of all physical lines can be counted.
    pub open spec fn rows_fit(self) -> bool {
        self.physical_lines@.len() <= isize::MAX && self.first_row + self.physical_lines@.len()
            <= isize::MAX + 1
    }

    /// Whether the selected rows `rows` hold physical line `i`.
    pub open spec fn is_selected(self, rows: RowSpan, i: int) -> bool {
        rows.start <= self.row(i) < rows.end
    }

    /// Whether physical line `i` is the last one.
    pub open spec fn is_last(self, i: int) -> bool {
        i == self.physical_lines@.len() - 1
    }
}

/// Whether the last selected physical line among the first `k` of line `n` and all the
/// lines before it was selected through its wrap.
pub open spec fn wrap_pending(
    lines: Seq<LogicalLine>,
    rows: RowSpan,
    n: int,
    k: int,
) -> bool
    decreases n, k,
{
    if n < 0 || n >= lines.len() {
        false
    } else if k <= 0 {
        n > 0 && wrap_pending(lines, rows, n - 1, lines[n - 1].physical_lines@.len() as int)
    } else if lines[n].is_selected(rows, k - 1) {
        lines[n].physical_lines@[k - 1].selected_through_wrap()
    } else {
        wrap_pending(lines, rows, n, k - 1)
    }
}

/// Whether line `n` continues the text before it rather than starting a new line.
pub open spec fn continues(lines: Seq<LogicalLine>, rows: RowSpan, n: int) -> bool {
    wrap_pending(lines, rows, n, 0)
}

/// The text selected from the first `k` physical lines of line `n`.
pub open spec fn text_of_line(line: LogicalLine, rows: RowSpan, k: int) -> Seq<char>
    decreases k,
{
    if k <= 0 {
        Seq::empty()
    } else {
        let before = text_of_line(line, rows, k - 1);
        if line.is_selected(rows, k - 1) {
            before + line.physical_lines@[k - 1].selected_text(line.is_last(k - 1))
        } else {
            before
        }
    }
}

/// `text`, with a line break after it where `ends_line` and there is text.
pub open spec fn with_break(text: Seq<char>, ends_line: bool) -> Seq<char> {
    if ends_line && text.len() > 0 {
        text.push('\n')
    } else {
        text
    }
}

/// The text selected from the first `n` lines: a line break stands before each line that
/// does not continue the text before it, once there is text.
pub open spec fn text_of_lines(lines: Seq<LogicalLine>, rows: RowSpan, n: int) -> Seq<char>
    decreases n,
{
    if n <= 0 {
        Seq::empty()
    } else {
        with_break(text_of_lines(lines, rows, n - 1), !continues(lines, rows, n - 1))
            + text_of_line(lines[n - 1], rows, lines[n - 1].physical_lines@.len() as int)
    }
}

/// The spans selected from the first `k` physical lines of line `n`.
pub open spec fn spans_of_line(
    lines: Seq<LogicalLine>,
    rows: RowSpan,
    n: int,
    k: int,
) -> Seq<SelectedSpan>
    decreases k,
{
    if k <= 0 {
        Seq::empty()
    } else {
        let before = spans_of_line(lines, rows, n, k - 1);
        if lines[n].is_selected(rows, k - 1) {
            before.push(
                SelectedSpan {
                    line: n as usize,
                    physical: (k - 1) as usize,
                    columns: lines[n].physical_lines@[k - 1].selected,
                    prune: lines[n].is_last(k - 1),
                },
            )
        } else {
            before
        }
    }
}

/// `lines` with `spans` added to the last one.
pub open spec fn extend_last(
    lines: Seq<SelectedLineView>,
    spans: Seq<SelectedSpan>,
) -> Seq<SelectedLineView> {
    lines.drop_last().push(
        SelectedLineView { spans: lines.last().spans + spans, ..lines.last() },
    )
}

/// `lines` with an empty line for logical line `n` at the end, where it needs one.
pub open spec fn opened(
    lines: Seq<SelectedLineView>,
    n: int,
    starts_line: bool,
) -> Seq<SelectedLineView> {
    if lines.len() == 0 || starts_line {
        lines.push(SelectedLineView { opened_by: n, spans: Seq::empty() })
    } else {
        lines
    }
}

/// The lines selected from the first `n` logical lines: a logical line starts a new one
/// unless it continues the one before it.
pub open spec fn lines_of_lines(
    lines: Seq<LogicalLine>,
    rows: RowSpan,
    n: int,
) -> Seq<SelectedLineView>
    decreases n,
{
    if n <= 0 {
        Seq::empty()
    } else {
        extend_last(
            opened(
                lines_of_lines(lines, rows, n - 1),
                n - 1,
                !continues(lines, rows, n - 1),
            ),
            spans_of_line(lines, rows, n - 1, lines[n - 1].physical_lines@.len() as int),
        )
    }
}

impl TermWindow {
    /// The text that is selected in a pane, from the logical lines `lines` that hold the
    /// rows `rows` of its range.
    pub fn selection_text(&self, pane_id: PaneId, rows: RowSpan, lines: &Vec<LogicalLine>) -> (r:
        String)
        requires
            forall|i: int| 0 <= i < lines.len() ==> (#[trigger] lines@[i]).rows_fit(),
        ensures
            r@ == if self.pane(pane_id).selection.range is None {
                Seq::empty()
            } else {
                text_of_lines(lines@, rows, lines@.len() as int)
            },
    {
        let mut s = String::new();
        if self.selection(pane_id).range.is_none() {
            return s;
        }
        let mut last_was_wrapped = false;
        let mut n: usize = 0;
        while n < lines.len()
            invariant
                n <= lines.len(),
                forall|i: int| 0 <= i < lines.len() ==> (#[trigger] lines@[i]).rows_fit(),
                s@ == text_of_lines(lines@, rows, n as int),
                n < lines.len() ==> last_was_wrapped == continues(lines@, rows, n as int),
            decreases lines.len() - n,
        {
            let line = &lines[n];
            let ghost before = s@;
            if !s.as_str().is_empty() && !last_was_wrapped {
                s.push('\n');
            }
            let ghost start = s@;
            assert(start == with_break(before, !continues(lines@, rows, n as int)));
            let count: usize = line.physical_lines.len();
            let mut k: usize = 0;
            while k < count
                invariant
                    n < lines.len(),
                    line == lines@[n as int],
                    line.rows_fit(),
                    count == line.physical_lines@.len(),
                    k <= count,
                    s@ == start + text_of_line(*line, rows, k as int),
                    last_was_wrapped == wrap_pending(lines@, rows, n as int, k as int),
                decreases count - k,
            {
                let physical = &line.physical_lines[k];
                let row: isize = line.first_row + k as isize;
                if row >= rows.start && row < rows.end {
                    let span = physical.columns_as_str(physical.selected);
                    if k == count - 1 {
                        let trimmed = trim_end(span.as_str());
                        s.push_str(trimmed.as_str());
                    } else {
                        s.push_str(span.as_str());
                    }
                    last_was_wrapped = physical.ends_in_selected_wrap();
                }
                k = k + 1;
                assert(s@ =~= start + text_of_line(*line, rows, k as int));
            }
            n = n + 1;
        }
        s
    }

    /// The spans that are selected in a pane, gathered into the lines that they form, from
    /// the logical lines `lines` that hold the rows `rows` of its range.
    pub fn selection_lines(&self, pane_id: PaneId, rows: RowSpan, lines: &Vec<LogicalLine>) -> (r:
        Vec<SelectedLine>)
        requires
            forall|i: int| 0 <= i < lines.len() ==> (#[trigger] lines@[i]).rows_fit(),
        ensures
            line_views(r@) == if self.pane(pane_id).selection.range is None {
                Seq::empty()
            } else {
                lines_of_lines(lines@, rows, lines@.len() as int)
            },
    {
        let mut result: Vec<SelectedLine> = Vec::new();
        if self.selection(pane_id).range.is_none() {
            return result;
        }
        let mut last_was_wrapped = false;
        let mut n: usize = 0;
        while n < lines.len()
            invariant
                n <= lines.len(),
                forall|i: int| 0 <= i < lines.len() ==> (#[trigger] lines@[i]).rows_fit(),
                line_views(result@) =~= lines_of_lines(lines@, rows, n as int),
                n < lines.len() ==> last_was_wrapped == continues(lines@, rows, n as int),
            decreases lines.len() - n,
        {
            let line = &lines[n];
            let ghost before = line_views(result@);
            let mut current = if result.len() == 0 || !last_was_wrapped {
                SelectedLine { opened_by: n, spans: Vec::new() }
            } else {
                match result.pop() {
                    Some(last) => last,
                    None => SelectedLine { opened_by: n, spans: Vec::new() },
                }
            };
            let ghost begun = opened(before, n as int, !last_was_wrapped);
            assert(line_views(result@) =~= begun.drop_last());
            let ghost start = current@;
            assert(start == begun.last());
            let count: usize = line.physical_lines.len();
            let mut k: usize = 0;
            while k < count
                invariant
                    n < lines.len(),
                    line == lines@[n as int],
                    line.rows_fit(),
                    count == line.physical_lines@.len(),
                    k <= count,
                    current@.opened_by == start.opened_by,
                    current@.spans == start.spans + spans_of_line(
                        lines@,
                        rows,
                        n as int,
                        k as int,
                    ),
                    last_was_wrapped == wrap_pending(lines@, rows, n as int, k as int),
                decreases count - k,
            {
                let physical = &line.physical_lines[k];
                let row: isize = line.first_row + k as isize;
                if row >= rows.start && row < rows.end {
                    current.spans.push(
                        SelectedSpan {
                            line: n,
                            physical: k,
                            columns: physical.selected,
                            prune: k == count - 1,
                        },
                    );
                    last_was_wrapped = physical.ends_in_selected_wrap();
                }
                k = k + 1;
                assert(current@.spans =~= start.spans + spans_of_line(
                    lines@,
                    rows,
                    n as int,
                    k as int,
                ));
            }
            result.push(current);
            n = n + 1;
        }
        result
    }
}

/// The text of a span: that of the cells in its columns, without white space at its end where
/// it is pruned.
pub open spec fn span_text(lines: Seq<LogicalLine>, span: SelectedSpan) -> Seq<char> {
    let cells = lines[span.line as int].physical_lines@[span.physical as int].cells@;
    if span.prune {
        crate::text::trimmed_end(cells_text(cells, span.columns))
    } else {
        cells_text(cells, span.columns)
    }
}

/// The text of a run of spans.
pub open spec fn spans_text(lines: Seq<LogicalLine>, spans: Seq<SelectedSpan>) -> Seq<char>
    decreases spans.len(),
{
    if spans.len() == 0 {
        Seq::empty()
    } else {
        spans_text(lines, spans.drop_last()) + span_text(lines, spans.last())
    }
}

/// The text of selected lines: a line break stands between two of them, once there is
/// text.
pub open spec fn joined_text(
    lines: Seq<LogicalLine>,
    selected: Seq<SelectedLineView>,
) -> Seq<char>
    decreases selected.len(),
{
    if selected.len() == 0 {
        Seq::empty()
    } else {
        with_break(joined_text(lines, selected.drop_last()), true) + spans_text(
            lines,
            selected.last().spans,
        )
    }
}

proof fn lemma_spans_text_concat(
    lines: Seq<LogicalLine>,
    a: Seq<SelectedSpan>,
    b: Seq<SelectedSpan>,
)
    ensures
        spans_text(lines, a + b) == spans_text(lines, a) + spans_text(lines, b),
    decreases b.len(),
{
    if b.len() == 0 {
        assert(a + b =~= a);
    } else {
        assert((a + b).drop_last() =~= a + b.drop_last());
        lemma_spans_text_concat(lines, a, b.drop_last());
        assert(spans_text(lines, a + b) =~= spans_text(lines, a) + spans_text(lines, b));
    }
}

proof fn lemma_spans_of_line_text(lines: Seq<LogicalLine>, rows: RowSpan, n: int, k: int)
    requires
        0 <= n < lines.len() <= usize::MAX,
        k <= lines[n].physical_lines@.len() <= usize::MAX,
    ensures
        spans_text(lines, spans_of_line(lines, rows, n, k)) == text_of_line(lines[n], rows, k),
    decreases k,
{
    if k > 0 {
        lemma_spans_of_line_text(lines, rows, n, k - 1);
        let spans = spans_of_line(lines, rows, n, k);
        if lines[n].is_selected(rows, k - 1) {
            assert(spans.drop_last() =~= spans_of_line(lines, rows, n, k - 1));
        }
    }
}

/// The selected text is the text of the selected lines, with a line break between two of
/// them and none before the first text.
pub proof fn law_text_is_the_lines_joined(lines: Seq<LogicalLine>, rows: RowSpan, n: int)
    requires
        n <= lines.len() <= usize::MAX,
        forall|i: int|
            0 <= i < lines.len() ==> (#[trigger] lines[i]).physical_lines@.len() <= usize::MAX,
    ensures
        text_of_lines(lines, rows, n) == joined_text(lines, lines_of_lines(lines, rows, n)),
    decreases n,
{
    if n > 0 {
        law_text_is_the_lines_joined(lines, rows, n - 1);
        let count = lines[n - 1].physical_lines@.len() as int;
        let before = lines_of_lines(lines, rows, n - 1);
        let starts = !continues(lines, rows, n - 1);
        let begun = opened(before, n - 1, starts);
        let spans = spans_of_line(lines, rows, n - 1, count);
        let after = lines_of_lines(lines, rows, n);
        lemma_spans_of_line_text(lines, rows, n - 1, count);
        lemma_spans_text_concat(lines, begun.last().spans, spans);
        assert(after.drop_last() =~= begun.drop_last());
        if before.len() == 0 || starts {
            assert(begun.drop_last() =~= before);
            assert(begun.last().spans + spans =~= spans);
        }
        assert(text_of_lines(lines, rows, n) =~= joined_text(lines, after));
    }
}

/// Whether no cell of the logical lines holds a line break.
pub open spec fn has_no_breaks(lines: Seq<LogicalLine>) -> bool {
    forall|i: int, k: int, c: int|
        #![trigger lines[i].physical_lines@[k].cells@[c]]
        0 <= i < lines.len() && 0 <= k < lines[i].physical_lines@.len() && 0 <= c
            < lines[i].physical_lines@[k].cells@.len() ==> lacks(
            lines[i].physical_lines@[k].cells@[c].text@,
            '\n',
        )
}

/// The texts of selected lines.
pub open spec fn line_texts(
    lines: Seq<LogicalLine>,
    selected: Seq<SelectedLineView>,
) -> Seq<Seq<char>> {
    selected.map_values(|l: SelectedLineView| spans_text(lines, l.spans))
}

proof fn lemma_cells_text_lacks(cells: Seq<LineCell>, span: ColumnSpan, c: char)
    requires
        forall|i: int| 0 <= i < cells.len() ==> lacks((#[trigger] cells[i]).text@, c),
    ensures
        lacks(cells_text(cells, span), c),
    decreases cells.len(),
{
    if cells.len() > 0 {
        let rest = cells.drop_last();
        assert forall|i: int| 0 <= i < rest.len() implies lacks((#[trigger] rest[i]).text@, c) by {
            assert(rest[i] == cells[i]);
        }
        lemma_cells_text_lacks(rest, span, c);
        assert(lacks(cells[cells.len() - 1].text@, c));
    }
}

proof fn lemma_trimmed_lacks(s: Seq<char>, c: char)
    requires
        lacks(s, c),
    ensures
        lacks(crate::text::trimmed_end(s), c),
    decreases s.len(),
{
    if s.len() > 0 && crate::text::is_white_space(s.last()) {
        assert forall|i: int| 0 <= i < s.drop_last().len() implies #[trigger] s.drop_last()[i]
            != c by {
            assert(s[i] != c);
        }
        lemma_trimmed_lacks(s.drop_last(), c);
    }
}

proof fn lemma_line_text_lacks(lines: Seq<LogicalLine>, rows: RowSpan, n: int, k: int)
    requires
        has_no_breaks(lines),
        0 <= n < lines.len(),
        k <= lines[n].physical_lines@.len(),
    ensures
        lacks(text_of_line(lines[n], rows, k), '\n'),
    decreases k,
{
    if k > 0 {
        lemma_line_text_lacks(lines, rows, n, k - 1);
        let physical = lines[n].physical_lines@[k - 1];
        assert forall|c: int| 0 <= c < physical.cells@.len() implies lacks(
            (#[trigger] physical.cells@[c]).text@,
            '\n',
        ) by {
            assert(lines[n].physical_lines@[k - 1].cells@[c] == physical.cells@[c]);
        }
        lemma_cells_text_lacks(physical.cells@, physical.selected, '\n');
        lemma_trimmed_lacks(cells_text(physical.cells@, physical.selected), '\n');
    }
}

proof fn lemma_selected_lines_lack_breaks(lines: Seq<LogicalLine>, rows: RowSpan, n: int)
    requires
        has_no_breaks(lines),
        n <= lines.len() <= usize::MAX,
        forall|i: int|
            0 <= i < lines.len() ==> (#[trigger] lines[i]).physical_lines@.len() <= usize::MAX,
    ensures
        forall|i: int|
            0 <= i < lines_of_lines(lines, rows, n).len() ==> lacks(
                spans_text(lines, (#[trigger] lines_of_lines(lines, rows, n)[i]).spans),
                '\n',
            ),
    decreases n,
{
    if n > 0 {
        lemma_selected_lines_lack_breaks(lines, rows, n - 1);
        let count = lines[n - 1].physical_lines@.len() as int;
        let before = lines_of_lines(lines, rows, n - 1);
        let begun = opened(before, n - 1, !continues(lines, rows, n - 1));
        let spans = spans_of_line(lines, rows, n - 1, count);
        let after = lines_of_lines(lines, rows, n);
        lemma_line_text_lacks(lines, rows, n - 1, count);
        lemma_spans_of_line_text(lines, rows, n - 1, count);
        lemma_spans_text_concat(lines, begun.last().spans, spans);
        assert forall|i: int| 0 <= i < after.len() implies lacks(
            spans_text(lines, (#[trigger] after[i]).spans),
            '\n',
        ) by {
            if i < after.len() - 1 {
                assert(after[i] == begun[i]);
                assert(begun[i] == before[i]);
            } else if begun.len() == before.len() {
                assert(begun.last() == before[i]);
            }
        }
    }
}

proof fn lemma_joined_pieces(
    lines: Seq<LogicalLine>,
    selected: Seq<SelectedLineView>,
)
    requires
        selected.len() > 0,
        spans_text(lines, selected[0].spans).len() > 0,
        forall|i: int|
            0 <= i < selected.len() ==> lacks(
                spans_text(lines, (#[trigger] selected[i]).spans),
                '\n',
            ),
    ensures
        joined_text(lines, selected).len() > 0,
        pieces(joined_text(lines, selected), '\n') == line_texts(lines, selected),
    decreases selected.len(),
{
    let rest = selected.drop_last();
    let last = spans_text(lines, selected.last().spans);
    assert(lacks(spans_text(lines, selected[selected.len() - 1].spans), '\n'));
    if rest.len() == 0 {
        assert(joined_text(lines, rest) =~= Seq::empty());
        assert(joined_text(lines, selected) =~= last);
        lemma_one_piece(last, '\n');
        assert(line_texts(lines, selected) =~= seq![last]);
    } else {
        assert forall|i: int| 0 <= i < rest.len() implies lacks(
            spans_text(lines, (#[trigger] rest[i]).spans),
            '\n',
        ) by {
            assert(rest[i] == selected[i]);
        }
        lemma_joined_pieces(lines, rest);
        lemma_pieces_last(joined_text(lines, rest), '\n', last);
        assert(line_texts(lines, selected) =~= line_texts(lines, rest).push(last));
    }
}

/// The selected lines are the pieces of the selected text between its line breaks: there are
/// as many of them, and each has the text of its piece. That is so once the first selected
/// line has any text, for no line break stands before the first text, and while no cell
/// holds a line break itself.
pub proof fn law_lines_are_the_pieces_of_the_text(lines: Seq<LogicalLine>, rows: RowSpan, n: int)
    requires
        0 < n <= lines.len() <= usize::MAX,
        forall|i: int|
            0 <= i < lines.len() ==> (#[trigger] lines[i]).physical_lines@.len() <= usize::MAX,
        has_no_breaks(lines),
        spans_text(lines, lines_of_lines(lines, rows, n)[0].spans).len() > 0,
    ensures
        pieces(text_of_lines(lines, rows, n), '\n') == line_texts(
            lines,
            lines_of_lines(lines, rows, n),
        ),
        pieces(text_of_lines(lines, rows, n), '\n').len() == lines_of_lines(lines, rows, n).len(),
{
    law_text_is_the_lines_joined(lines, rows, n);
    lemma_selected_lines_lack_breaks(lines, rows, n);
    lemma_joined_pieces(lines, lines_of_lines(lines, rows, n));
}

/// `a` and `b` lay out the same rows and agree on the selected ones.
pub open spec fn agree_on_rows(a: Seq<LogicalLine>, b: Seq<LogicalLine>, rows: RowSpan) -> bool {
    &&& a.len() == b.len()
    &&& forall|i: int|
        #![trigger a[i]]
        #![trigger b[i]]
        0 <= i < a.len() ==> {
            &&& a[i].first_row == b[i].first_row
            &&& a[i].physical_lines@.len() == b[i].physical_lines@.len()
        }
    &&& forall|i: int, k: int|
        #![trigger a[i].physical_lines@[k]]
        #![trigger b[i].physical_lines@[k]]
        0 <= i < a.len() && 0 <= k < a[i].physical_lines@.len() && a[i].is_selected(rows, k)
            ==> a[i].physical_lines@[k] == b[i].physical_lines@[k]
}

proof fn lemma_wrap_pending_local(
    a: Seq<LogicalLine>,
    b: Seq<LogicalLine>,
    rows: RowSpan,
    n: int,
    k: int,
)
    requires
        agree_on_rows(a, b, rows),
        0 <= n < a.len(),
        k <= a[n].physical_lines@.len(),
    ensures
        wrap_pending(a, rows, n, k) == wrap_pending(b, rows, n, k),
    decreases n, k,
{
    let _ = b[n];
    if k <= 0 {
        if n > 0 {
            let _ = a[n - 1];
            lemma_wrap_pending_local(a, b, rows, n - 1, a[n - 1].physical_lines@.len() as int);
        }
    } else if a[n].is_selected(rows, k - 1) {
        assert(a[n].physical_lines@[k - 1] == b[n].physical_lines@[k - 1]);
    } else {
        lemma_wrap_pending_local(a, b, rows, n, k - 1);
    }
}

proof fn lemma_text_of_line_local(
    a: Seq<LogicalLine>,
    b: Seq<LogicalLine>,
    rows: RowSpan,
    n: int,
    k: int,
)
    requires
        agree_on_rows(a, b, rows),
        0 <= n < a.len(),
        k <= a[n].physical_lines@.len(),
    ensures
        text_of_line(a[n], rows, k) == text_of_line(b[n], rows, k),
    decreases k,
{
    if k > 0 {
        let _ = b[n];
        lemma_text_of_line_local(a, b, rows, n, k - 1);
        if a[n].is_selected(rows, k - 1) {
            assert(a[n].physical_lines@[k - 1] == b[n].physical_lines@[k - 1]);
        }
    }
}

/// Rows outside the selection have no part in the selected text: two screens that agree on
/// the selected rows give the same text.
pub proof fn law_text_depends_on_selected_rows_only(
    a: Seq<LogicalLine>,
    b: Seq<LogicalLine>,
    rows: RowSpan,
    n: int,
)
    requires
        agree_on_rows(a, b, rows),
        n <= a.len(),
    ensures
        text_of_lines(a, rows, n) == text_of_lines(b, rows, n),
    decreases n,
{
    if n > 0 {
        let _ = a[n - 1];
        law_text_depends_on_selected_rows_only(a, b, rows, n - 1);
        lemma_wrap_pending_local(a, b, rows, n - 1, 0);
        lemma_text_of_line_local(a, b, rows, n - 1, a[n - 1].physical_lines@.len() as int);
    }
}

/// All spans of selected lines, line by line.
pub open spec fn all_spans(selected: Seq<SelectedLineView>) -> Seq<SelectedSpan>
    decreases selected.len(),
{
    if selected.len() == 0 {
        Seq::empty()
    } else {
        all_spans(selected.drop_last()) + selected.last().spans
    }
}

/// The selected rows of the first `n` logical lines, from top to bottom.
pub open spec fn selected_rows(
    lines: Seq<LogicalLine>,
    rows: RowSpan,
    n: int,
) -> Seq<SelectedSpan>
    decreases n,
{
    if n <= 0 {
        Seq::empty()
    } else {
        selected_rows(lines, rows, n - 1) + spans_of_line(
            lines,
            rows,
            n - 1,
            lines[n - 1].physical_lines@.len() as int,
        )
    }
}

/// The selected lines hold every selected row once and in order, and nothing else.
pub proof fn law_lines_hold_every_selected_row(
    lines: Seq<LogicalLine>,
    rows: RowSpan,
    n: int,
)
    ensures
        all_spans(lines_of_lines(lines, rows, n)) == selected_rows(lines, rows, n),
    decreases n,
{
    if n > 0 {
        law_lines_hold_every_selected_row(lines, rows, n - 1);
        let before = lines_of_lines(lines, rows, n - 1);
        let starts = !continues(lines, rows, n - 1);
        let begun = opened(before, n - 1, starts);
        let after = lines_of_lines(lines, rows, n);
        assert(after.drop_last() =~= begun.drop_last());
        if before.len() == 0 || starts {
            assert(begun.drop_last() =~= before);
        }
        assert(all_spans(after) =~= selected_rows(lines, rows, n));
    }
}

/// The text of a row is that of its cells, one after the other: a row that is cut in two gives
/// the texts of both parts, and a single cell gives its whole text where it starts inside the
/// columns, blank or not, and nothing where it does not.
pub proof fn law_row_text_is_its_cells_in_order(
    a: Seq<LineCell>,
    b: Seq<LineCell>,
    cell: LineCell,
    span: ColumnSpan,
)
    ensures
        cells_text(a + b, span) == cells_text(a, span) + cells_text(b, span),
        span.start <= cell.index < span.end ==> cells_text(seq![cell], span) == cell.text@,
        !(span.start <= cell.index < span.end) ==> cells_text(seq![cell], span).len() == 0,
    decreases b.len(),
{
    assert(seq![cell].drop_last() =~= Seq::empty());
    assert(cells_text(Seq::<LineCell>::empty(), span).len() == 0);
    if span.start <= cell.index < span.end {
        assert(cells_text(seq![cell], span) =~= cell.text@);
    }
    if b.len() == 0 {
        assert(a + b =~= a);
        assert(cells_text(a + b, span) =~= cells_text(a, span) + cells_text(b, span));
    } else {
        law_row_text_is_its_cells_in_order(a, b.drop_last(), cell, span);
        assert((a + b).drop_last() =~= a + b.drop_last());
        assert(cells_text(a + b, span) =~= cells_text(a, span) + cells_text(b, span));
    }
}

/// Of a row whose cells hold one character each, the text has one character for every cell
/// that starts inside the columns, in order, and none for the others.
pub proof fn law_row_text_of_single_characters(cells: Seq<LineCell>, span: ColumnSpan)
    requires
        forall|i: int| 0 <= i < cells.len() ==> (#[trigger] cells[i]).text@.len() == 1,
    ensures
        cells_text(cells, span) == cells.filter(
            |cell: LineCell| span.start <= cell.index < span.end,
        ).map_values(|cell: LineCell| cell.text@[0]),
    decreases cells.len(),
{
    let inside = |cell: LineCell| span.start <= cell.index < span.end;
    let character = |cell: LineCell| cell.text@[0];
    reveal(Seq::filter);
    if cells.len() > 0 {
        let rest = cells.drop_last();
        assert forall|i: int| 0 <= i < rest.len() implies (#[trigger] rest[i]).text@.len() == 1 by {
            assert(rest[i] == cells[i]);
        }
        law_row_text_of_single_characters(rest, span);
        assert(cells[cells.len() - 1].text@.len() == 1);
        if inside(cells.last()) {
            assert(cells.filter(inside) =~= rest.filter(inside).push(cells.last()));
            assert(cells.last().text@ =~= seq![cells.last().text@[0]]);
        } else {
            assert(cells.filter(inside) =~= rest.filter(inside));
        }
    }
    assert(cells_text(cells, span) =~= cells.filter(inside).map_values(character));
}

proof fn lemma_no_text_right_of_all_cells(cells: Seq<LineCell>, start: usize, end: usize)
    requires
        forall|i: int| 0 <= i < cells.len() ==> (#[trigger] cells[i]).index < start,
    ensures
        cells_text(cells, ColumnSpan { start, end }).len() == 0,
    decreases cells.len(),
{
    if cells.len() > 0 {
        let rest = cells.drop_last();
        assert forall|i: int| 0 <= i < rest.len() implies (#[trigger] rest[i]).index < start by {
            assert(rest[i] == cells[i]);
        }
        lemma_no_text_right_of_all_cells(rest, start, end);
        assert(cells[cells.len() - 1].index < start);
    }
}

/// Taking two neighbouring runs of columns, one after the other, gives the text of both
/// together; and all columns give the whole row.
pub proof fn law_neighbouring_columns_add_up(
    cells: Seq<LineCell>,
    start: usize,
    middle: usize,
    end: usize,
)
    requires
        start <= middle <= end,
        forall|i: int, j: int|
            0 <= i <= j < cells.len() ==> (#[trigger] cells[i]).index <= (
            #[trigger] cells[j]).index,
    ensures
        cells_text(cells, ColumnSpan { start, end: middle }) + cells_text(
            cells,
            ColumnSpan { start: middle, end },
        ) == cells_text(cells, ColumnSpan { start, end }),
    decreases cells.len(),
{
    if cells.len() > 0 {
        let rest = cells.drop_last();
        let last = cells.len() - 1;
        assert forall|i: int, j: int| 0 <= i <= j < rest.len() implies (
        #[trigger] rest[i]).index <= (#[trigger] rest[j]).index by {
            assert(rest[i] == cells[i] && rest[j] == cells[j]);
        }
        law_neighbouring_columns_add_up(rest, start, middle, end);
        if cells[last].index < middle {
            assert forall|i: int| 0 <= i < rest.len() implies (#[trigger] rest[i]).index
                < middle by {
                assert(rest[i] == cells[i]);
                assert(cells[i].index <= cells[last].index);
            }
            lemma_no_text_right_of_all_cells(rest, middle, end);
        }
    }
    assert(cells_text(cells, ColumnSpan { start, end: middle }) + cells_text(
        cells,
        ColumnSpan { start: middle, end },
    ) =~= cells_text(cells, ColumnSpan { start, end }));
}

/// What is selected of a row is the text of its selected cells from the first one on. Only
/// white space at the end is ever dropped, and only from the last row of a logical line;
/// there all of it is.
pub proof fn law_row_loses_white_space_at_its_end_only(line: PhysicalLine, trimmed: bool)
    ensures
        ({
            let whole = cells_text(line.cells@, line.selected);
            let text = line.selected_text(trimmed);
            &&& text.len() <= whole.len()
            &&& text == whole.take(text.len() as int)
            &&& forall|i: int|
                text.len() <= i < whole.len() ==> crate::text::is_white_space(#[trigger] whole[i])
            &&& trimmed && text.len() > 0 ==> !crate::text::is_white_space(text.last())
            &&& !trimmed ==> text == whole
        }),
{
    let whole = cells_text(line.cells@, line.selected);
    crate::text::law_trimming_drops_white_space_at_the_end(whole);
    assert(whole.take(whole.len() as int) =~= whole);
}

/// Whether the selected rows hold row `row` of line `line`.
pub open spec fn holds_row(lines: Seq<LogicalLine>, rows: RowSpan, line: int, row: int) -> bool {
    &&& 0 <= line < lines.len()
    &&& 0 <= row < lines[line].physical_lines@.len()
    &&& rows.start <= lines[line].first_row + row < rows.end
}

/// Whether a span stands for the row that it names: the row is selected, the span has exactly
/// the columns that the selection takes from it, and it is pruned just where the row is the
/// last one of its logical line.
pub open spec fn stands_for_its_row(
    lines: Seq<LogicalLine>,
    rows: RowSpan,
    span: SelectedSpan,
) -> bool {
    &&& holds_row(lines, rows, span.line as int, span.physical as int)
    &&& span.columns
        == lines[span.line as int].physical_lines@[span.physical as int].selected
    &&& span.prune <==> span.physical + 1 == lines[span.line as int].physical_lines@.len()
}

/// Whether one span comes before another from top to bottom.
pub open spec fn is_above(a: SelectedSpan, b: SelectedSpan) -> bool {
    a.line < b.line || (a.line == b.line && a.physical < b.physical)
}

proof fn lemma_spans_of_line(lines: Seq<LogicalLine>, rows: RowSpan, n: int, k: int)
    requires
        0 <= n < lines.len() <= usize::MAX,
        k <= lines[n].physical_lines@.len() <= usize::MAX,
    ensures
        forall|i: int|
            0 <= i < spans_of_line(lines, rows, n, k).len() ==> {
                let span = #[trigger] spans_of_line(lines, rows, n, k)[i];
                stands_for_its_row(lines, rows, span) && span.line == n && span.physical < k
            },
        forall|i: int, j: int|
            0 <= i < j < spans_of_line(lines, rows, n, k).len() ==> is_above(
                #[trigger] spans_of_line(lines, rows, n, k)[i],
                #[trigger] spans_of_line(lines, rows, n, k)[j],
            ),
        forall|row: int|
            row < k && #[trigger] holds_row(lines, rows, n, row) ==> exists|i: int|
                0 <= i < spans_of_line(lines, rows, n, k).len() && (
                #[trigger] spans_of_line(lines, rows, n, k)[i]).physical == row,
    decreases k,
{
    if k > 0 {
        lemma_spans_of_line(lines, rows, n, k - 1);
        let before = spans_of_line(lines, rows, n, k - 1);
        let after = spans_of_line(lines, rows, n, k);
        assert forall|row: int|
            row < k && #[trigger] holds_row(lines, rows, n, row) implies exists|i: int|
            0 <= i < after.len() && (#[trigger] after[i]).physical == row by {
            if row < k - 1 {
                let i = choose|i: int|
                    0 <= i < before.len() && (#[trigger] before[i]).physical == row;
                assert(after[i] == before[i]);
            } else {
                assert(after[after.len() - 1].physical == row);
            }
        }
        assert forall|i: int, j: int| 0 <= i < j < after.len() implies is_above(
            #[trigger] after[i],
            #[trigger] after[j],
        ) by {
            assert(after[i] == before[i]);
            if j < before.len() {
                assert(after[j] == before[j]);
            }
        }
    }
}

/// The spans of the selected lines, read line by line, stand for exactly the selected rows:
/// each stands for its row, with just the columns that are selected there; they come from top
/// to bottom; and no selected row is left out.
pub proof fn law_spans_stand_for_the_selected_rows(
    lines: Seq<LogicalLine>,
    rows: RowSpan,
    n: int,
)
    requires
        0 <= n <= lines.len() <= usize::MAX,
        forall|i: int|
            0 <= i < lines.len() ==> (#[trigger] lines[i]).physical_lines@.len() <= usize::MAX,
    ensures
        ({
            let spans = all_spans(lines_of_lines(lines, rows, n));
            &&& forall|i: int|
                0 <= i < spans.len() ==> stands_for_its_row(lines, rows, #[trigger] spans[i])
                    && spans[i].line < n
            &&& forall|i: int, j: int|
                0 <= i < j < spans.len() ==> is_above(#[trigger] spans[i], #[trigger] spans[j])
            &&& forall|line: int, row: int|
                line < n && #[trigger] holds_row(lines, rows, line, row) ==> exists|i: int|
                    0 <= i < spans.len() && (#[trigger] spans[i]).line == line && spans[i].physical
                        == row
        }),
    decreases n,
{
    law_lines_hold_every_selected_row(lines, rows, n);
    if n > 0 {
        law_spans_stand_for_the_selected_rows(lines, rows, n - 1);
        law_lines_hold_every_selected_row(lines, rows, n - 1);
        let count = lines[n - 1].physical_lines@.len() as int;
        lemma_spans_of_line(lines, rows, n - 1, count);
        let before = selected_rows(lines, rows, n - 1);
        let own = spans_of_line(lines, rows, n - 1, count);
        let spans = selected_rows(lines, rows, n);
        assert(spans == before + own);
        assert forall|i: int| 0 <= i < spans.len() implies stands_for_its_row(
            lines,
            rows,
            #[trigger] spans[i],
        ) && spans[i].line < n by {
            if i < before.len() {
                assert(spans[i] == before[i]);
            } else {
                assert(spans[i] == own[i - before.len()]);
            }
        }
        assert forall|i: int, j: int| 0 <= i < j < spans.len() implies is_above(
            #[trigger] spans[i],
            #[trigger] spans[j],
        ) by {
            if j < before.len() {
                assert(spans[i] == before[i] && spans[j] == before[j]);
            } else if i < before.len() {
                assert(spans[i] == before[i] && spans[j] == own[j - before.len()]);
            } else {
                assert(spans[i] == own[i - before.len()] && spans[j] == own[j - before.len()]);
            }
        }
        assert forall|line: int, row: int|
            line < n && #[trigger] holds_row(lines, rows, line, row) implies exists|i: int|
            0 <= i < spans.len() && (#[trigger] spans[i]).line == line && spans[i].physical
                == row by {
            if line < n - 1 {
                let i = choose|i: int|
                    0 <= i < before.len() && (#[trigger] before[i]).line == line
                        && before[i].physical == row;
                assert(spans[i] == before[i]);
            } else {
                let i = choose|i: int| 0 <= i < own.len() && (#[trigger] own[i]).physical == row;
                assert(spans[before.len() + i] == own[i]);
            }
        }
    }
}

/// A logical line goes on in the selected line before it, or else opens one of its own;
/// either way the lines before that stay as they are, and what was there stays in front.
pub proof fn law_line_is_continued_or_opened(lines: Seq<LogicalLine>, rows: RowSpan, n: int)
    requires
        0 <= n < lines.len() <= usize::MAX,
    ensures
        ({
            let before = lines_of_lines(lines, rows, n);
            let after = lines_of_lines(lines, rows, n + 1);
            if n > 0 && continues(lines, rows, n) {
                &&& after.len() == before.len()
                &&& after.drop_last() == before.drop_last()
                &&& after.last().opened_by == before.last().opened_by
                &&& before.last().spans.len() <= after.last().spans.len()
                &&& before.last().spans == after.last().spans.take(
                    before.last().spans.len() as int,
                )
            } else {
                &&& after.len() == before.len() + 1
                &&& after.drop_last() == before
                &&& after.last().opened_by == n
            }
        }),
    decreases n,
{
    if n > 0 {
        law_line_is_continued_or_opened(lines, rows, n - 1);
    }
    let before = lines_of_lines(lines, rows, n);
    let after = lines_of_lines(lines, rows, n + 1);
    let begun = opened(before, n, !continues(lines, rows, n));
    assert(after.drop_last() =~= begun.drop_last());
    if n > 0 && continues(lines, rows, n) {
        assert(before.last().spans =~= after.last().spans.take(
            before.last().spans.len() as int,
        ));
    } else {
        assert(begun.drop_last() =~= before);
    }
}

/// Whether the row in line `m`, at `k`, is the last selected one before line `n`.
pub open spec fn is_last_selected_before(
    lines: Seq<LogicalLine>,
    rows: RowSpan,
    m: int,
    k: int,
    n: int,
) -> bool {
    &&& m < n
    &&& holds_row(lines, rows, m, k)
    &&& forall|line: int, row: int|
        m <= line < n && (line > m || row > k) ==> !#[trigger] holds_row(lines, rows, line, row)
}

proof fn lemma_wrap_of_last_selected(
    lines: Seq<LogicalLine>,
    rows: RowSpan,
    m: int,
    k: int,
    n: int,
    line: int,
    row: int,
)
    requires
        0 <= n < lines.len(),
        is_last_selected_before(lines, rows, m, k, n),
        m <= line <= n,
        line == n ==> row <= 0,
        line == m ==> row > k,
        row <= lines[line].physical_lines@.len(),
    ensures
        wrap_pending(lines, rows, line, row)
            == lines[m].physical_lines@[k].selected_through_wrap(),
    decreases line, row,
{
    if row <= 0 {
        lemma_wrap_of_last_selected(
            lines,
            rows,
            m,
            k,
            n,
            line - 1,
            lines[line - 1].physical_lines@.len() as int,
        );
    } else if line == m && row == k + 1 {
        assert(lines[line].is_selected(rows, row - 1));
    } else {
        assert(!holds_row(lines, rows, line, row - 1));
        assert(!lines[line].is_selected(rows, row - 1));
        lemma_wrap_of_last_selected(lines, rows, m, k, n, line, row - 1);
    }
}

proof fn lemma_no_wrap_without_selection(
    lines: Seq<LogicalLine>,
    rows: RowSpan,
    n: int,
    k: int,
)
    requires
        0 <= n < lines.len(),
        k <= lines[n].physical_lines@.len(),
        forall|line: int, row: int|
            line < n || (line == n && row < k) ==> !#[trigger] holds_row(lines, rows, line, row),
    ensures
        !wrap_pending(lines, rows, n, k),
    decreases n, k,
{
    if k <= 0 {
        if n > 0 {
            lemma_no_wrap_without_selection(
                lines,
                rows,
                n - 1,
                lines[n - 1].physical_lines@.len() as int,
            );
        }
    } else {
        assert(!holds_row(lines, rows, n, k - 1));
        assert(!lines[n].is_selected(rows, k - 1));
        lemma_no_wrap_without_selection(lines, rows, n, k - 1);
    }
}

/// A row is selected through its wrap exactly where the selection reaches its last column and
/// the cell that starts there is marked as wrapped. The only column of a row counts as reached
/// in any case.
pub proof fn law_wrap_is_selected_with_the_last_column(line: PhysicalLine)
    requires
        line.len > 0,
        forall|i: int, j: int|
            0 <= i < j < line.cells@.len() ==> (#[trigger] line.cells@[i]).index != (
            #[trigger] line.cells@[j]).index,
    ensures
        line.selected_through_wrap() <==> (line.selected.end >= line.len || line.len == 1)
            && exists|i: int|
            0 <= i < line.cells@.len() && (#[trigger] line.cells@[i]).index + 1 == line.len
                && line.cells@[i].wrapped,
{
    let cells = line.cells@;
    if exists|i: int|
        0 <= i < cells.len() && (#[trigger] cells[i]).index + 1 == line.len && cells[i].wrapped {
        let i = choose|i: int|
            0 <= i < cells.len() && (#[trigger] cells[i]).index + 1 == line.len
                && cells[i].wrapped;
        assert forall|j: int| 0 <= j < i implies (#[trigger] cells[j]).index != pred(line.len) by {
            assert(cells[i].index != cells[j].index);
        }
        assert(wrapped_at(cells, pred(line.len)));
    }
    if wrapped_at(cells, pred(line.len)) {
        let i = choose|i: int|
            #![trigger cells[i]]
            0 <= i < cells.len() && cells[i].index == pred(line.len) && cells[i].wrapped && (
            forall|j: int| 0 <= j < i ==> (#[trigger] cells[j]).index != pred(line.len));
        assert(cells[i].index + 1 == line.len);
    }
}

/// A logical line goes on in the line before it exactly where the last selected row before it
/// is selected through its wrap; where no row before it is selected, it does not.
pub proof fn law_line_goes_on_after_a_selected_wrap(
    lines: Seq<LogicalLine>,
    rows: RowSpan,
    m: int,
    k: int,
    n: int,
)
    requires
        0 <= n < lines.len(),
    ensures
        is_last_selected_before(lines, rows, m, k, n) ==> (continues(lines, rows, n)
            <==> lines[m].physical_lines@[k].selected_through_wrap()),
        (forall|line: int, row: int| line < n ==> !#[trigger] holds_row(lines, rows, line, row))
            ==> !continues(lines, rows, n),
{
    if is_last_selected_before(lines, rows, m, k, n) {
        lemma_wrap_of_last_selected(lines, rows, m, k, n, n, 0);
    }
    if forall|line: int, row: int| line < n ==> !#[trigger] holds_row(lines, rows, line, row) {
        lemma_no_wrap_without_selection(lines, rows, n, 0);
    }
}

proof fn lemma_joined_blank(lines: Seq<LogicalLine>, selected: Seq<SelectedLineView>)
    requires
        forall|i: int|
            0 <= i < selected.len() ==> spans_text(lines, (#[trigger] selected[i]).spans).len()
                == 0,
    ensures
        joined_text(lines, selected).len() == 0,
    decreases selected.len(),
{
    if selected.len() > 0 {
        let rest = selected.drop_last();
        assert forall|i: int| 0 <= i < rest.len() implies spans_text(
            lines,
            (#[trigger] rest[i]).spans,
        ).len() == 0 by {
            assert(rest[i] == selected[i]);
        }
        lemma_joined_blank(lines, rest);
        assert(spans_text(lines, selected[selected.len() - 1].spans).len() == 0);
    }
}

proof fn lemma_joined_from(
    lines: Seq<LogicalLine>,
    selected: Seq<SelectedLineView>,
    first: int,
)
    requires
        0 <= first < selected.len(),
        forall|i: int|
            0 <= i < first ==> spans_text(lines, (#[trigger] selected[i]).spans).len() == 0,
        spans_text(lines, selected[first].spans).len() > 0,
        forall|i: int|
            0 <= i < selected.len() ==> lacks(
                spans_text(lines, (#[trigger] selected[i]).spans),
                '\n',
            ),
    ensures
        joined_text(lines, selected).len() > 0,
        pieces(joined_text(lines, selected), '\n') == line_texts(lines, selected).skip(first),
    decreases selected.len(),
{
    let rest = selected.drop_last();
    let last = spans_text(lines, selected.last().spans);
    assert(lacks(spans_text(lines, selected[selected.len() - 1].spans), '\n'));
    assert forall|i: int| 0 <= i < rest.len() implies lacks(
        spans_text(lines, (#[trigger] rest[i]).spans),
        '\n',
    ) by {
        assert(rest[i] == selected[i]);
    }
    if first == selected.len() - 1 {
        assert forall|i: int| 0 <= i < rest.len() implies spans_text(
            lines,
            (#[trigger] rest[i]).spans,
        ).len() == 0 by {
            assert(rest[i] == selected[i]);
        }
        lemma_joined_blank(lines, rest);
        assert(joined_text(lines, selected) =~= last);
        lemma_one_piece(last, '\n');
        assert(line_texts(lines, selected).skip(first) =~= seq![last]);
    } else {
        assert forall|i: int| 0 <= i < first implies spans_text(
            lines,
            (#[trigger] rest[i]).spans,
        ).len() == 0 by {
            assert(rest[i] == selected[i]);
        }
        assert(rest[first] == selected[first]);
        lemma_joined_from(lines, rest, first);
        lemma_pieces_last(joined_text(lines, rest), '\n', last);
        assert(line_texts(lines, selected).skip(first) =~= line_texts(lines, rest).skip(
            first,
        ).push(last));
    }
}

/// Lines without text before the first text leave no line breaks: the pieces of the selected
/// text are the lines from the first one on that has text, blank ones behind it included;
/// and where no line has text there is none.
pub proof fn law_text_starts_with_the_first_line_that_has_any(
    lines: Seq<LogicalLine>,
    rows: RowSpan,
    n: int,
    first: int,
)
    requires
        0 <= n <= lines.len() <= usize::MAX,
        forall|i: int|
            0 <= i < lines.len() ==> (#[trigger] lines[i]).physical_lines@.len() <= usize::MAX,
        has_no_breaks(lines),
        0 <= first <= lines_of_lines(lines, rows, n).len(),
        forall|i: int|
            0 <= i < first ==> spans_text(
                lines,
                (#[trigger] lines_of_lines(lines, rows, n)[i]).spans,
            ).len() == 0,
        first < lines_of_lines(lines, rows, n).len() ==> spans_text(
            lines,
            lines_of_lines(lines, rows, n)[first].spans,
        ).len() > 0,
    ensures
        if first < lines_of_lines(lines, rows, n).len() {
            pieces(text_of_lines(lines, rows, n), '\n') == line_texts(
                lines,
                lines_of_lines(lines, rows, n),
            ).skip(first)
        } else {
            text_of_lines(lines, rows, n).len() == 0
        },
{
    law_text_is_the_lines_joined(lines, rows, n);
    lemma_selected_lines_lack_breaks(lines, rows, n);
    if first < lines_of_lines(lines, rows, n).len() {
        lemma_joined_from(lines, lines_of_lines(lines, rows, n), first);
    } else {
        lemma_joined_blank(lines, lines_of_lines(lines, rows, n));
    }
}

/// A selected line is told in full: by the logical line that opened it and all its spans; and
/// so are several, one by one.
pub proof fn law_selected_lines_are_told_in_full(lines: Seq<SelectedLine>, i: int)
    ensures
        line_views(lines).len() == lines.len(),
        0 <= i < lines.len() ==> line_views(lines)[i].opened_by == lines[i].opened_by
            && line_views(lines)[i].spans == lines[i].spans@,
{
}

} // verus!

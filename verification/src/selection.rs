//! The selection of each pane and how the mouse drives it.
//!
//! A [`TermWindow`] keeps, for every pane, the selection and the last mouse
//! position over it. The functions here decide what a mouse event does to that
//! state; what the terminal model alone knows (the word, line or zone around a
//! cell, the viewport after a scroll) comes in as an argument.

use std::collections::HashMap;
use vstd::prelude::*;

verus! {

broadcast use vstd::std_specs::hash::group_hash_axioms;

pub type PaneId = usize;

/// A row counted from the start of the scrollback, stable while output scrolls.
pub type StableRowIndex = isize;

/// The terminal's change counter.
pub type SequenceNo = usize;

/// Delay, in milliseconds, between two autoscroll ticks while a drag is parked
/// past the top or bottom edge of the viewport.
pub const AUTOSCROLL_SELECTION_INTERVAL_MS: u64 = 40;

/// What a drag selects.
#[derive(Debug, Clone, Copy, PartialEq, Eq, Structural)]
pub enum SelectionMode {
    Cell,
    Word,
    Line,
    SemanticZone,
    Block,
}

/// A mouse button.
#[derive(Debug, Clone, Copy, PartialEq, Eq, Structural)]
pub enum MousePress {
    Left,
    Right,
    Middle,
}

/// A horizontal selection position: a cell, or the edge left of the first cell.
#[derive(Debug, Clone, Copy, PartialEq, Eq, Structural)]
pub enum SelectionX {
    BeforeZero,
    Cell(usize),
}

impl SelectionX {
    /// The column number; the edge before the first cell counts as column -1.
    pub open spec fn column(self) -> int {
        match self {
            SelectionX::BeforeZero => -1,
            SelectionX::Cell(c) => c as int,
        }
    }

    /// Moves `n` columns to the left, stopping before the first cell.
    pub fn saturating_sub(&self, n: usize) -> (r: SelectionX)
        ensures
            r.column() == if self.column() - n < -1 {
                -1
            } else {
                self.column() - n
            },
    {
        match *self {
            SelectionX::BeforeZero => SelectionX::BeforeZero,
            SelectionX::Cell(c) => if c >= n {
                SelectionX::Cell(c - n)
            } else {
                SelectionX::BeforeZero
            },
        }
    }

    /// Whether column `x` is at or right of this position.
    pub fn at_or_left_of(&self, x: usize) -> (r: bool)
        ensures
            r == (x >= self.column()),
    {
        match *self {
            SelectionX::BeforeZero => true,
            SelectionX::Cell(c) => x >= c,
        }
    }

    /// Whether this position is the cell in column `x`.
    pub fn is_cell(&self, x: usize) -> (r: bool)
        ensures
            r == (self.column() == x),
    {
        match *self {
            SelectionX::BeforeZero => false,
            SelectionX::Cell(c) => x == c,
        }
    }
}

/// A cell position in a pane.
#[derive(Debug, Clone, Copy, PartialEq, Eq, Structural)]
pub struct SelectionCoordinate {
    pub x: SelectionX,
    pub y: StableRowIndex,
}

impl SelectionCoordinate {
    pub fn x_y(x: usize, y: StableRowIndex) -> (r: SelectionCoordinate)
        ensures
            r == (SelectionCoordinate { x: SelectionX::Cell(x), y }),
    {
        SelectionCoordinate { x: SelectionX::Cell(x), y }
    }
}

/// Two ends of a selection, both included, in the order in which they were set.
#[derive(Debug, Clone, Copy, PartialEq, Eq, Structural)]
pub struct SelectionRange {
    pub start: SelectionCoordinate,
    pub end: SelectionCoordinate,
}

impl SelectionRange {
    /// A range with both ends at `start`.
    pub fn start(start: SelectionCoordinate) -> (r: SelectionRange)
        ensures
            r == (SelectionRange { start, end: start }),
    {
        SelectionRange { start, end: start }
    }

    /// The same start with another end.
    pub fn extend(&self, end: SelectionCoordinate) -> (r: SelectionRange)
        ensures
            r == (SelectionRange { start: self.start, end }),
    {
        SelectionRange { start: self.start, end }
    }
}

/// The selection of one pane.
#[derive(Debug, Clone, Copy, PartialEq, Eq, Structural)]
pub struct Selection {
    /// Where the drag started.
    pub origin: Option<SelectionCoordinate>,
    /// What is selected.
    pub range: Option<SelectionRange>,
    /// The terminal's change counter when the selection was last touched.
    pub seqno: SequenceNo,
    /// Whether the range is a rectangle.
    pub rectangular: bool,
}

impl Selection {
    pub open spec fn cleared(self) -> Selection {
        Selection { origin: None, range: None, ..self }
    }

    pub open spec fn begun(self, origin: SelectionCoordinate) -> Selection {
        Selection { origin: Some(origin), range: None, ..self }
    }

    /// The selection with the range of whole units set.
    pub open spec fn extended_to(self, range: SelectionRange) -> Selection {
        Selection { range: Some(range), rectangular: false, ..self }
    }

    /// Forgets the range and the origin.
    pub fn clear(&mut self)
        ensures
            *final(self) == old(self).cleared(),
    {
        self.range = None;
        self.origin = None;
    }

    /// Starts a new selection at `origin`, with nothing selected yet.
    pub fn begin(&mut self, origin: SelectionCoordinate)
        ensures
            *final(self) == old(self).begun(origin),
    {
        self.range = None;
        self.origin = Some(origin);
    }
}

/// A mouse position over a pane, in cells of its viewport.
#[derive(Debug, Clone, Copy, PartialEq, Eq, Structural)]
pub struct ClickPosition {
    pub column: usize,
    pub row: i64,
    pub x_pixel_offset: isize,
    pub y_pixel_offset: isize,
}

/// The part of a pane's dimensions that scrolling looks at.
#[derive(Debug, Clone, Copy, PartialEq, Eq, Structural)]
pub struct PaneDimensions {
    pub viewport_rows: usize,
    pub physical_top: StableRowIndex,
}

/// What the window remembers about one pane.
#[derive(Debug, Clone, Copy, PartialEq, Eq)]
pub struct PaneState {
    pub selection: Selection,
    /// The last mouse position and the stable row under it.
    pub mouse_terminal_coords: Option<(ClickPosition, StableRowIndex)>,
}

/// The state of a pane that nothing has touched yet.
pub open spec fn untouched() -> PaneState {
    PaneState {
        selection: Selection { origin: None, range: None, seqno: 0, rectangular: false },
        mouse_terminal_coords: None,
    }
}

/// What is left to do after the mouse extended a selection.
#[derive(Debug, Clone, Copy, PartialEq, Eq, Structural)]
pub enum ExtendStep {
    /// The mouse is not over the pane: nothing more to do.
    NoMouse,
    /// The range is set; the viewport comes next.
    Extended,
    /// The unit around this cell has to be found to set the range.
    LocateUnit(SelectionCoordinate),
}

/// What a selection starts with when a button is pressed.
#[derive(Debug, Clone, Copy, PartialEq, Eq, Structural)]
pub enum SelectStep {
    /// The mouse is not over the pane: nothing more to do.
    NoMouse,
    /// The selection has begun; the window is to be redrawn.
    Begun,
    /// The unit around this cell has to be found to begin the selection.
    LocateUnit(SelectionCoordinate),
}

/// What follows an autoscroll tick.
#[derive(Debug, Clone, Copy, PartialEq, Eq, Structural)]
pub enum TickStep {
    /// The drag is over: no further tick.
    Stop,
    /// Extend the selection of this pane in this mode once more.
    Extend(SelectionMode, PaneId),
}

/// The selection state of one window.
pub struct TermWindow {
    pub panes: HashMap<usize, PaneState>,
    pub current_mouse_buttons: Vec<MousePress>,
    /// The mode in which the next autoscroll tick extends the selection, if a
    /// tick is scheduled.
    pub autoscroll_selection_mode: Option<SelectionMode>,
    /// Whether the window is on screen.
    pub has_window: bool,
}

/// Whether the selection runs forward from `origin` to column `x` of row `y`.
/// A block looks at columns alone.
pub open spec fn runs_forward(
    mode: SelectionMode,
    origin: SelectionCoordinate,
    x: usize,
    y: StableRowIndex,
) -> bool {
    if mode == SelectionMode::Block {
        x >= origin.x.column()
    } else {
        (x >= origin.x.column() && y == origin.y) || y > origin.y
    }
}

/// One column to the left.
pub open spec fn left_of(x: SelectionX) -> SelectionX {
    match x {
        SelectionX::Cell(c) if c >= 1 => SelectionX::Cell((c - 1) as usize),
        _ => SelectionX::BeforeZero,
    }
}

/// The range that dragging from `origin` to column `x` of row `y` selects.
///
/// A forward drag includes the origin and leaves out the cell under the mouse; a
/// backward drag leaves out the origin and includes the cell under the mouse.
/// Nothing is selected while the mouse is at the origin, nor by a block without
/// width.
pub open spec fn dragged_range(
    mode: SelectionMode,
    origin: SelectionCoordinate,
    x: usize,
    y: StableRowIndex,
) -> Option<SelectionRange> {
    if mode == SelectionMode::Block && origin.x.column() == x {
        None
    } else if origin.x.column() == x && origin.y == y {
        None
    } else if runs_forward(mode, origin, x, y) {
        Some(
            SelectionRange {
                start: origin,
                end: SelectionCoordinate { x: left_of(SelectionX::Cell(x)), y },
            },
        )
    } else {
        Some(
            SelectionRange {
                start: SelectionCoordinate { x: left_of(origin.x), y: origin.y },
                end: SelectionCoordinate { x: SelectionX::Cell(x), y },
            },
        )
    }
}

/// The origin of a selection, or `fallback` where it has none.
pub open spec fn origin_or(
    selection: Selection,
    fallback: SelectionCoordinate,
) -> SelectionCoordinate {
    match selection.origin {
        Some(origin) => origin,
        None => fallback,
    }
}

/// The selection after a drag by cells reached column `x` of row `y`.
pub open spec fn dragged(
    selection: Selection,
    mode: SelectionMode,
    x: usize,
    y: StableRowIndex,
) -> Selection {
    let origin = origin_or(selection, SelectionCoordinate { x: SelectionX::Cell(x), y });
    Selection {
        origin: Some(origin),
        range: dragged_range(mode, origin, x, y),
        rectangular: mode == SelectionMode::Block,
        seqno: selection.seqno,
    }
}

/// The selection once the unit `range` was selected that was found around the cell `at`.
pub open spec fn unit_selected(
    mode: SelectionMode,
    seqno: SequenceNo,
    at: SelectionCoordinate,
    range: SelectionRange,
) -> Selection {
    Selection {
        origin: Some(if mode == SelectionMode::Line { at } else { range.start }),
        range: Some(range),
        rectangular: false,
        seqno,
    }
}

/// The selection once one by cells was begun at the cell `at`.
pub open spec fn begun_in_mode(
    selection: Selection,
    mode: SelectionMode,
    seqno: SequenceNo,
    at: SelectionCoordinate,
) -> Selection {
    Selection { rectangular: mode == SelectionMode::Block, seqno, ..selection.begun(at) }
}

/// Whether `mode` selects by cells rather than by whole units.
pub open spec fn by_cell(mode: SelectionMode) -> bool {
    mode == SelectionMode::Cell || mode == SelectionMode::Block
}

/// The row that the viewport is asked to start at when the mouse is past the
/// viewport's upper or lower edge; `None` when it is inside.
pub open spec fn scroll_target(
    position: ClickPosition,
    y: StableRowIndex,
    dims: PaneDimensions,
    viewport: Option<StableRowIndex>,
) -> Option<int> {
    if position.row == 0 && position.y_pixel_offset < 0 {
        Some(if y == isize::MIN { y as int } else { y - 1 })
    } else if position.row >= dims.viewport_rows as i64 {
        Some(top_row(dims, viewport) + 1)
    } else {
        None
    }
}

/// The first row that the viewport shows.
pub open spec fn top_row(dims: PaneDimensions, viewport: Option<StableRowIndex>) -> int {
    match viewport {
        Some(top) => top as int,
        None => dims.physical_top as int,
    }
}

/// The last mouse position over a pane.
pub open spec fn mouse_position(state: PaneState) -> ClickPosition
    recommends
        state.mouse_terminal_coords is Some,
{
    let (position, _) = state.mouse_terminal_coords->0;
    position
}

/// The stable row that a resting pointer is over in a viewport that starts at `viewport`.
pub open spec fn row_under_pointer(
    state: PaneState,
    dims: PaneDimensions,
    viewport: Option<StableRowIndex>,
) -> int {
    top_row(dims, viewport) + (mouse_position(state).row as isize)
}

impl TermWindow {
    /// The state of a pane.
    pub open spec fn pane(self, pane_id: PaneId) -> PaneState {
        if self.panes@.dom().contains(pane_id) {
            self.panes@[pane_id]
        } else {
            untouched()
        }
    }

    /// Everything but the state of `pane_id` is as in `before`.
    pub open spec fn differs_only_in(self, before: TermWindow, pane_id: PaneId) -> bool {
        &&& forall|other: PaneId|
            other != pane_id ==> #[trigger] self.pane(other) == before.pane(other)
        &&& self.current_mouse_buttons == before.current_mouse_buttons
        &&& self.has_window == before.has_window
    }

    /// Only the selection of `pane_id` differs from `before`.
    pub open spec fn reselected(self, before: TermWindow, pane_id: PaneId, to: Selection) -> bool {
        &&& self.differs_only_in(before, pane_id)
        &&& self.pane(pane_id) == (PaneState { selection: to, ..before.pane(pane_id) })
        &&& self.autoscroll_selection_mode == before.autoscroll_selection_mode
    }

    /// The window with no tick scheduled.
    pub open spec fn unscheduled(self) -> TermWindow {
        TermWindow { autoscroll_selection_mode: None, ..self }
    }

    /// The window after a tick was asked for in `mode`, and whether a timer starts.
    pub open spec fn scheduled(self, mode: SelectionMode) -> (TermWindow, bool) {
        if self.autoscroll_selection_mode is None && self.has_window {
            (TermWindow { autoscroll_selection_mode: Some(mode), ..self }, true)
        } else {
            (self, false)
        }
    }

    /// The window after the timer fired, and what follows.
    pub open spec fn ticked(self, active_pane: Option<PaneId>) -> (TermWindow, TickStep) {
        let step = match (self.autoscroll_selection_mode, active_pane) {
            (Some(mode), Some(pane_id)) if self.current_mouse_buttons@.contains(
                MousePress::Left,
            ) => TickStep::Extend(mode, pane_id),
            _ => TickStep::Stop,
        };
        (self.unscheduled(), step)
    }

    /// The state of a pane; an untouched one where nothing was recorded.
    pub fn pane_state(&self, pane_id: PaneId) -> (r: PaneState)
        ensures
            r == self.pane(pane_id),
    {
        match self.panes.get(&pane_id) {
            Some(state) => *state,
            None => PaneState {
                selection: Selection { origin: None, range: None, seqno: 0, rectangular: false },
                mouse_terminal_coords: None,
            },
        }
    }

    /// Replaces the state of a pane.
    pub fn set_pane_state(&mut self, pane_id: PaneId, state: PaneState)
        ensures
            final(self).differs_only_in(*old(self), pane_id),
            final(self).pane(pane_id) == state,
            final(self).autoscroll_selection_mode == old(self).autoscroll_selection_mode,
    {
        self.panes.insert(pane_id, state);
    }

    /// The selection of a pane.
    pub fn selection(&self, pane_id: PaneId) -> (r: Selection)
        ensures
            r == self.pane(pane_id).selection,
    {
        self.pane_state(pane_id).selection
    }

    /// Replaces the selection of a pane.
    pub fn set_selection(&mut self, pane_id: PaneId, selection: Selection)
        ensures
            final(self).reselected(*old(self), pane_id, selection),
    {
        let mut state = self.pane_state(pane_id);
        state.selection = selection;
        self.set_pane_state(pane_id, state);
    }

    /// Drops the selection of a pane and stamps it with the pane's change counter.
    /// The window is to be redrawn afterwards.
    pub fn clear_selection(&mut self, pane_id: PaneId, current_seqno: SequenceNo)
        requires
            old(self).has_window,
        ensures
            final(self).reselected(
                *old(self),
                pane_id,
                Selection { seqno: current_seqno, ..old(self).pane(pane_id).selection.cleared() },
            ),
    {
        let mut selection = self.selection(pane_id);
        selection.clear();
        selection.seqno = current_seqno;
        self.set_selection(pane_id, selection);
    }

    /// Stamps the selection and drags it to the mouse.
    ///
    /// In the modes that select by cells the range is set at once. In the others
    /// the caller finds the unit around the given cell and goes on with
    /// [`TermWindow::unit_anchor`] and [`TermWindow::extend_to_unit`].
    pub fn extend_selection_at_mouse_cursor(
        &mut self,
        mode: SelectionMode,
        pane_id: PaneId,
        current_seqno: SequenceNo,
    ) -> (step: ExtendStep)
        ensures
            match old(self).pane(pane_id).mouse_terminal_coords {
                None => {
                    &&& step == ExtendStep::NoMouse
                    &&& final(self).reselected(
                        *old(self),
                        pane_id,
                        Selection { seqno: current_seqno, ..old(self).pane(pane_id).selection },
                    )
                },
                Some((position, y)) => if by_cell(mode) {
                    &&& step == ExtendStep::Extended
                    &&& final(self).reselected(
                        *old(self),
                        pane_id,
                        dragged(
                            Selection { seqno: current_seqno, ..old(self).pane(pane_id).selection },
                            mode,
                            position.column,
                            y,
                        ),
                    )
                } else {
                    &&& step == ExtendStep::LocateUnit(
                        SelectionCoordinate { x: SelectionX::Cell(position.column), y },
                    )
                    &&& final(self).reselected(
                        *old(self),
                        pane_id,
                        Selection { seqno: current_seqno, ..old(self).pane(pane_id).selection },
                    )
                },
            },
    {
        let mut selection = self.selection(pane_id);
        selection.seqno = current_seqno;
        self.set_selection(pane_id, selection);
        match self.pane_state(pane_id).mouse_terminal_coords {
            None => ExtendStep::NoMouse,
            Some((position, y)) => {
                let x: usize = position.column;
                match mode {
                    SelectionMode::Cell | SelectionMode::Block => {
                        let selection = drag(selection, mode, x, y);
                        self.set_selection(pane_id, selection);
                        ExtendStep::Extended
                    },
                    _ => ExtendStep::LocateUnit(SelectionCoordinate::x_y(x, y)),
                }
            },
        }
    }

    /// Where the unit at the start of the drag is to be looked for: the origin, or
    /// the start of the unit under the mouse where the drag has no origin.
    pub fn unit_anchor(&self, pane_id: PaneId, under_mouse: SelectionRange) -> (r:
        SelectionCoordinate)
        ensures
            r == origin_or(self.pane(pane_id).selection, under_mouse.start),
    {
        match self.selection(pane_id).origin {
            Some(origin) => origin,
            None => under_mouse.start,
        }
    }

    /// Sets the range to `range`, which covers the units at both ends of the drag.
    pub fn extend_to_unit(&mut self, pane_id: PaneId, range: SelectionRange)
        ensures
            final(self).reselected(
                *old(self),
                pane_id,
                old(self).pane(pane_id).selection.extended_to(range),
            ),
    {
        let mut selection = self.selection(pane_id);
        selection.range = Some(range);
        selection.rectangular = false;
        self.set_selection(pane_id, selection);
    }

    /// The row that the viewport of `pane_id` is to be moved to before the drag goes
    /// on, if the mouse is past the viewport's upper or lower edge.
    pub fn viewport_to_scroll_to(
        &self,
        pane_id: PaneId,
        dims: PaneDimensions,
        viewport: Option<StableRowIndex>,
    ) -> (r: Option<StableRowIndex>)
        requires
            self.pane(pane_id).mouse_terminal_coords matches Some((position, y)) ==> (scroll_target(
                position,
                y,
                dims,
                viewport,
            ) matches Some(row) ==> row <= isize::MAX),
        ensures
            match self.pane(pane_id).mouse_terminal_coords {
                None => r is None,
                Some((position, y)) => match scroll_target(position, y, dims, viewport) {
                    None => r is None,
                    Some(row) => r is Some && r->0 == row,
                },
            },
    {
        let (position, y) = match self.pane_state(pane_id).mouse_terminal_coords {
            Some(coords) => coords,
            None => return None,
        };
        if position.row == 0 && position.y_pixel_offset < 0 {
            if y == isize::MIN {
                Some(y)
            } else {
                Some(y - 1)
            }
        } else if position.row >= dims.viewport_rows as i64 {
            let top: isize = match viewport {
                Some(top) => top,
                None => dims.physical_top,
            };
            Some(top + 1)
        } else {
            None
        }
    }

    /// Ends an extension that left the viewport where it was: the mouse is inside, so
    /// a tick that is still on its way finds nothing to do.
    pub fn settle_inside_viewport(&mut self)
        requires
            old(self).has_window,
        ensures
            *final(self) == old(self).unscheduled(),
    {
        self.autoscroll_selection_mode = None;
    }

    /// Ends an extension that moved the viewport, which now is at `viewport`: the
    /// remembered mouse row becomes the one that the resting pointer is over now, and
    /// a tick is scheduled unless one already is. Returns whether the caller has to
    /// start the timer.
    pub fn settle_scrolled(
        &mut self,
        mode: SelectionMode,
        pane_id: PaneId,
        dims: PaneDimensions,
        viewport: Option<StableRowIndex>,
    ) -> (start_timer: bool)
        requires
            old(self).has_window,
            old(self).pane(pane_id).mouse_terminal_coords is Some,
            isize::MIN <= row_under_pointer(old(self).pane(pane_id), dims, viewport) <= isize::MAX,
        ensures
            final(self).differs_only_in(*old(self), pane_id),
            final(self).pane(pane_id).selection == old(self).pane(pane_id).selection,
            final(self).pane(pane_id).mouse_terminal_coords == Some(
                (
                    mouse_position(old(self).pane(pane_id)),
                    row_under_pointer(old(self).pane(pane_id), dims, viewport) as isize,
                ),
            ),
            start_timer == (old(self).autoscroll_selection_mode is None),
            final(self).autoscroll_selection_mode == (if start_timer {
                Some(mode)
            } else {
                old(self).autoscroll_selection_mode
            }),
    {
        let mut state = self.pane_state(pane_id);
        match state.mouse_terminal_coords {
            Some((position, _)) => {
                let top: isize = match viewport {
                    Some(top) => top,
                    None => dims.physical_top,
                };
                let row: isize = position.row as isize;
                state.mouse_terminal_coords = Some((position, top + row));
                self.set_pane_state(pane_id, state);
            },
            None => {},
        }
        let ghost resynced = *self;
        let start_timer = self.maybe_schedule_selection_autoscroll(mode);
        assert(forall|other: PaneId| #[trigger] self.pane(other) == resynced.pane(other));
        start_timer
    }

    /// Marks a tick as scheduled, unless one already is or the window is gone.
    /// Returns whether the caller has to start the timer.
    pub fn maybe_schedule_selection_autoscroll(&mut self, mode: SelectionMode) -> (start_timer:
        bool)
        ensures
            (*final(self), start_timer) == old(self).scheduled(mode),
    {
        if self.autoscroll_selection_mode.is_some() {
            return false;
        }
        if !self.has_window {
            return false;
        }
        self.autoscroll_selection_mode = Some(mode);
        true
    }

    /// Handles the timer: takes the scheduled mode and, while the left button is down
    /// and a pane is active, asks for one more extension.
    pub fn tick_selection_autoscroll(&mut self, active_pane: Option<PaneId>) -> (step: TickStep)
        ensures
            (*final(self), step) == old(self).ticked(active_pane),
    {
        let mode = match self.autoscroll_selection_mode.take() {
            Some(mode) => mode,
            None => return TickStep::Stop,
        };
        if !is_pressed(&self.current_mouse_buttons, MousePress::Left) {
            return TickStep::Stop;
        }
        match active_pane {
            Some(pane_id) => TickStep::Extend(mode, pane_id),
            None => TickStep::Stop,
        }
    }

    /// Begins a selection at the mouse.
    ///
    /// In the modes that select by cells nothing is selected yet. In the others the
    /// caller finds the unit around the given cell and goes on with
    /// [`TermWindow::select_unit`].
    pub fn select_text_at_mouse_cursor(
        &mut self,
        mode: SelectionMode,
        pane_id: PaneId,
        current_seqno: SequenceNo,
    ) -> (step: SelectStep)
        requires
            old(self).pane(pane_id).mouse_terminal_coords is Some ==> old(self).has_window,
        ensures
            match old(self).pane(pane_id).mouse_terminal_coords {
                None => {
                    &&& step == SelectStep::NoMouse
                    &&& *final(self) == *old(self)
                },
                Some((position, y)) => {
                    let at = SelectionCoordinate { x: SelectionX::Cell(position.column), y };
                    if by_cell(mode) {
                        &&& step == SelectStep::Begun
                        &&& final(self).reselected(
                            *old(self),
                            pane_id,
                            begun_in_mode(
                                old(self).pane(pane_id).selection,
                                mode,
                                current_seqno,
                                at,
                            ),
                        )
                    } else {
                        &&& step == SelectStep::LocateUnit(at)
                        &&& *final(self) == *old(self)
                    }
                },
            },
    {
        match self.pane_state(pane_id).mouse_terminal_coords {
            None => SelectStep::NoMouse,
            Some((position, y)) => {
                let at = SelectionCoordinate::x_y(position.column, y);
                match mode {
                    SelectionMode::Cell | SelectionMode::Block => {
                        let mut selection = self.selection(pane_id);
                        selection.begin(at);
                        selection.rectangular = mode == SelectionMode::Block;
                        selection.seqno = current_seqno;
                        self.set_selection(pane_id, selection);
                        SelectStep::Begun
                    },
                    _ => SelectStep::LocateUnit(at),
                }
            },
        }
    }

    /// Selects the unit `range` that was found around the cell `at`. A drag that follows
    /// starts at the clicked cell in line mode, else at the start of the unit.
    pub fn select_unit(
        &mut self,
        mode: SelectionMode,
        pane_id: PaneId,
        current_seqno: SequenceNo,
        at: SelectionCoordinate,
        range: SelectionRange,
    )
        requires
            old(self).has_window,
            !by_cell(mode),
        ensures
            final(self).reselected(
                *old(self),
                pane_id,
                unit_selected(mode, current_seqno, at, range),
            ),
    {
        let origin = match mode {
            SelectionMode::Line => at,
            _ => range.start,
        };
        self.set_selection(
            pane_id,
            Selection {
                origin: Some(origin),
                range: Some(range),
                rectangular: false,
                seqno: current_seqno,
            },
        );
    }
}

/// Whether `button` is among the pressed buttons.
fn is_pressed(buttons: &Vec<MousePress>, button: MousePress) -> (r: bool)
    ensures
        r == buttons@.contains(button),
{
    let mut i: usize = 0;
    while i < buttons.len()
        invariant
            i <= buttons.len(),
            forall|j: int| 0 <= j < i ==> buttons@[j] != button,
        decreases buttons.len() - i,
    {
        if buttons[i] == button {
            return true;
        }
        i = i + 1;
    }
    false
}

/// The selection after a drag by cells reached column `x` of row `y`.
fn drag(selection: Selection, mode: SelectionMode, x: usize, y: StableRowIndex) -> (r: Selection)
    requires
        by_cell(mode),
    ensures
        r == dragged(selection, mode, x, y),
{
    let origin = match selection.origin {
        Some(origin) => origin,
        None => SelectionCoordinate::x_y(x, y),
    };
    let forward = if mode == SelectionMode::Block {
        origin.x.at_or_left_of(x)
    } else {
        (origin.x.at_or_left_of(x) && y == origin.y) || y > origin.y
    };
    let (start_x, end_x) = if forward {
        (origin.x, SelectionX::Cell(x).saturating_sub(1))
    } else {
        (origin.x.saturating_sub(1), SelectionX::Cell(x))
    };
    let range = if mode == SelectionMode::Block && origin.x.is_cell(x) {
        None
    } else if !origin.x.is_cell(x) || origin.y != y {
        Some(
            SelectionRange::start(SelectionCoordinate { x: start_x, y: origin.y }).extend(
                SelectionCoordinate { x: end_x, y },
            ),
        )
    } else {
        None
    };
    Selection {
        origin: Some(origin),
        range,
        rectangular: mode == SelectionMode::Block,
        seqno: selection.seqno,
    }
}

/// Whether `range` covers column `c`, on a row on which both its ends count.
pub open spec fn covers_column(range: SelectionRange, c: int) -> bool {
    ||| range.start.x.column() <= c <= range.end.x.column()
    ||| range.end.x.column() <= c <= range.start.x.column()
}

/// A drag along one row, and a block drag over any rows, selects exactly the cells
/// between the origin and the mouse: the left one of the two is included and the right
/// one is not, whichever way the drag runs.
pub proof fn law_drag_covers_the_cells_between(
    mode: SelectionMode,
    o: usize,
    origin_row: StableRowIndex,
    x: usize,
    y: StableRowIndex,
    c: int,
)
    requires
        by_cell(mode),
        mode == SelectionMode::Block || y == origin_row,
        x != o,
    ensures
        ({
            let origin = SelectionCoordinate { x: SelectionX::Cell(o), y: origin_row };
            let range = dragged_range(mode, origin, x, y);
            &&& range is Some
            &&& covers_column(range->0, c) <==> (o <= c < x || x <= c < o)
        }),
{
}

/// Whether the cell in column `c` of row `r` comes before column `col` of row `row` in the
/// order in which text is read.
pub open spec fn reads_before(c: int, r: int, col: int, row: int) -> bool {
    r < row || (r == row && c < col)
}

/// Whether the text from one end of `range` to the other, both ends counted, holds the cell
/// in column `c` of row `r`.
pub open spec fn covers_cell(range: SelectionRange, c: int, r: int) -> bool {
    let past_start = !reads_before(c, r, range.start.x.column(), range.start.y as int);
    let past_end = !reads_before(c, r, range.end.x.column(), range.end.y as int);
    let before_start = reads_before(c, r, range.start.x.column() + 1, range.start.y as int);
    let before_end = reads_before(c, r, range.end.x.column() + 1, range.end.y as int);
    (past_start && before_end) || (past_end && before_start)
}

/// A drag by cells selects exactly the text between the origin and the mouse, over any
/// number of rows: of the two, the one that is read first is included and the other is not,
/// whichever way the drag runs.
pub proof fn law_drag_covers_the_text_between(
    o: usize,
    origin_row: StableRowIndex,
    x: usize,
    y: StableRowIndex,
    c: int,
    r: int,
)
    requires
        x != o || y != origin_row,
    ensures
        ({
            let origin = SelectionCoordinate { x: SelectionX::Cell(o), y: origin_row };
            let range = dragged_range(SelectionMode::Cell, origin, x, y);
            let from_origin = !reads_before(c, r, o as int, origin_row as int);
            let from_mouse = !reads_before(c, r, x as int, y as int);
            &&& range is Some
            &&& covers_cell(range->0, c, r) <==> from_origin != from_mouse
        }),
{
}

/// A drag selects nothing exactly when the mouse is back at the origin, or, for a block,
/// in the origin's column.
pub proof fn law_drag_selects_nothing_without_width(
    mode: SelectionMode,
    origin: SelectionCoordinate,
    x: usize,
    y: StableRowIndex,
)
    ensures
        dragged_range(mode, origin, x, y) is None <==> origin.x == SelectionX::Cell(x) && (mode
            == SelectionMode::Block || origin.y == y),
{
}

/// Extending a selection again while the mouse rests changes nothing.
pub proof fn law_resting_mouse_keeps_the_selection(
    selection: Selection,
    mode: SelectionMode,
    x: usize,
    y: StableRowIndex,
)
    ensures
        dragged(dragged(selection, mode, x, y), mode, x, y) == dragged(selection, mode, x, y),
{
}

/// However a drag moves on, its origin stays where the drag started.
pub proof fn law_drag_keeps_its_origin(
    selection: Selection,
    mode: SelectionMode,
    x1: usize,
    y1: StableRowIndex,
    x2: usize,
    y2: StableRowIndex,
)
    ensures
        dragged(dragged(selection, mode, x1, y1), mode, x2, y2).origin == dragged(
            selection,
            mode,
            x1,
            y1,
        ).origin,
        dragged(dragged(selection, mode, x1, y1), mode, x2, y2) == dragged(
            Selection { origin: dragged(selection, mode, x1, y1).origin, ..selection },
            mode,
            x2,
            y2,
        ),
{
}

/// Scheduling is idempotent: while a tick is scheduled, asking for another, in whatever
/// mode, starts no timer and changes nothing.
pub proof fn law_scheduling_is_idempotent(
    window: TermWindow,
    mode: SelectionMode,
    again: SelectionMode,
)
    ensures
        ({
            let (after, _) = window.scheduled(mode);
            after.scheduled(again) == (after, false)
        }),
{
}

/// The tick loop cancels itself: a tick that fires after the left button was released, or
/// after the pointer came back inside the viewport, asks for nothing and leaves no tick
/// scheduled; and every tick after it does the same.
pub proof fn law_tick_cancels_itself(
    window: TermWindow,
    active_pane: Option<PaneId>,
    later: Option<PaneId>,
)
    requires
        !window.current_mouse_buttons@.contains(MousePress::Left)
            || window.autoscroll_selection_mode is None,
    ensures
        window.ticked(active_pane) == (window.unscheduled(), TickStep::Stop),
        window.unscheduled().ticked(later) == (window.unscheduled(), TickStep::Stop),
{
}

/// While the pointer stays past the edge with the left button down, the loop goes on: the
/// tick asks for an extension in the mode that was scheduled, and the extension can
/// schedule the next tick.
pub proof fn law_tick_loop_goes_on(window: TermWindow, mode: SelectionMode, pane_id: PaneId)
    requires
        window.has_window,
        window.autoscroll_selection_mode is None,
        window.current_mouse_buttons@.contains(MousePress::Left),
    ensures
        ({
            let (waiting, started) = window.scheduled(mode);
            let (fired, step) = waiting.ticked(Some(pane_id));
            &&& started
            &&& step == TickStep::Extend(mode, pane_id)
            &&& fired.scheduled(mode) == (waiting, true)
        }),
{
}

/// After a drag the selection is a rectangle exactly in block mode, whatever is selected. Its
/// origin is the one it had, or else the cell under the mouse; its change counter stays.
pub proof fn law_drag_is_rectangular_in_block_mode(
    selection: Selection,
    mode: SelectionMode,
    x: usize,
    y: StableRowIndex,
)
    ensures
        dragged(selection, mode, x, y).rectangular <==> mode is Block,
        dragged(selection, mode, x, y).seqno == selection.seqno,
        dragged(selection, mode, x, y).origin is Some,
        selection.origin is Some ==> dragged(selection, mode, x, y).origin == selection.origin,
        selection.origin is None ==> dragged(selection, mode, x, y).origin == Some(
            SelectionCoordinate { x: SelectionX::Cell(x), y },
        ),
{
}

/// A drag runs from the row of its origin to the row under the mouse, and its range depends on
/// nothing but the mode and these two places.
pub proof fn law_drag_runs_from_its_origin_to_the_mouse(
    selection: Selection,
    mode: SelectionMode,
    origin: SelectionCoordinate,
    x: usize,
    y: StableRowIndex,
)
    requires
        selection.origin == Some(origin),
    ensures
        dragged(selection, mode, x, y).range == dragged_range(mode, origin, x, y),
        dragged_range(mode, origin, x, y) matches Some(range) ==> range.start.y == origin.y
            && range.end.y == y,
{
}

/// Whatever its origin is, the edge before the first cell included, a drag by cells selects
/// exactly the cells from the one of origin and mouse that is read first up to the other, and
/// a block the columns between the two. It selects nothing only where the two are the same,
/// or, for a block, in one column.
pub proof fn law_drag_covers_what_lies_between(
    origin: SelectionCoordinate,
    x: usize,
    y: StableRowIndex,
    c: nat,
    r: int,
)
    ensures
        ({
            let range = dragged_range(SelectionMode::Cell, origin, x, y);
            let from_origin = !reads_before(c as int, r, origin.x.column(), origin.y as int);
            let from_mouse = !reads_before(c as int, r, x as int, y as int);
            &&& range is None <==> origin.x.column() == x && origin.y == y
            &&& range matches Some(range) ==> (covers_cell(range, c as int, r) <==> from_origin
                != from_mouse)
        }),
        ({
            let range = dragged_range(SelectionMode::Block, origin, x, y);
            &&& range is None <==> origin.x.column() == x
            &&& range matches Some(range) ==> (covers_column(range, c as int) <==> (
            origin.x.column() <= c) != (x <= c))
        }),
{
}

/// Selecting by cells is what the cell and block modes do, and no other.
pub proof fn law_three_modes_select_units(mode: SelectionMode)
    ensures
        by_cell(mode) <==> !(mode is Word) && !(mode is Line) && !(mode is SemanticZone),
{
}

/// The viewport moves by one row at a time, and only while the pointer is past one of its
/// edges: up from the row that the pointer was last over, or down from the row that is shown
/// first. A pointer inside it moves nothing.
pub proof fn law_viewport_follows_a_pointer_past_its_edge(
    position: ClickPosition,
    y: StableRowIndex,
    dims: PaneDimensions,
    viewport: Option<StableRowIndex>,
)
    requires
        dims.viewport_rows <= i64::MAX,
    ensures
        ({
            let above = position.row == 0 && position.y_pixel_offset < 0;
            let below = position.row >= dims.viewport_rows;
            let target = scroll_target(position, y, dims, viewport);
            &&& target is Some <==> above || below
            &&& above && y > isize::MIN ==> target == Some(y - 1)
            &&& above && y == isize::MIN ==> target == Some(y as int)
            &&& below && !above && viewport is Some ==> target == Some(viewport->0 + 1)
            &&& below && !above && viewport is None ==> target == Some(dims.physical_top + 1)
        }),
{
}

/// A resting pointer stays over the same row of the viewport: its stable row is that of the
/// first row shown plus its own, so it moves along with the viewport.
pub proof fn law_resting_pointer_moves_with_the_viewport(
    state: PaneState,
    dims: PaneDimensions,
    position: ClickPosition,
    y: StableRowIndex,
    top: StableRowIndex,
)
    requires
        state.mouse_terminal_coords == Some((position, y)),
        isize::MIN <= position.row <= isize::MAX,
    ensures
        mouse_position(state) == position,
        row_under_pointer(state, dims, Some(top)) == top + position.row,
        row_under_pointer(state, dims, None) == dims.physical_top + position.row,
{
}

/// A tick is scheduled exactly where none is and there is a window. Then its mode is kept and a
/// timer is started; nothing else of the window changes.
pub proof fn law_tick_is_scheduled_where_none_is(window: TermWindow, mode: SelectionMode)
    ensures
        ({
            let (after, started) = window.scheduled(mode);
            &&& started <==> window.autoscroll_selection_mode is None && window.has_window
            &&& started ==> after.autoscroll_selection_mode == Some(mode)
            &&& !started ==> after.autoscroll_selection_mode == window.autoscroll_selection_mode
            &&& after.panes == window.panes
            &&& after.current_mouse_buttons == window.current_mouse_buttons
            &&& after.has_window == window.has_window
        }),
{
}

/// A tick extends exactly where one was scheduled, the left button is still down and a pane is
/// active: in the mode that was scheduled, and that pane. Afterwards no tick is scheduled, and
/// nothing else of the window has changed.
pub proof fn law_tick_extends_a_drag_that_goes_on(
    window: TermWindow,
    active_pane: Option<PaneId>,
    mode: SelectionMode,
    pane_id: PaneId,
)
    ensures
        ({
            let (after, step) = window.ticked(active_pane);
            &&& step == TickStep::Extend(mode, pane_id) <==> window.autoscroll_selection_mode
                == Some(mode) && active_pane == Some(pane_id) && exists|i: int|
                0 <= i < window.current_mouse_buttons@.len()
                    && #[trigger] window.current_mouse_buttons@[i] is Left
            &&& step is Extend || step is Stop
            &&& after.autoscroll_selection_mode is None
            &&& after.panes == window.panes
            &&& after.current_mouse_buttons == window.current_mouse_buttons
            &&& after.has_window == window.has_window
        }),
{
}

/// What a pane has not recorded is untouched; setting the selection of one pane leaves its
/// mouse position, every other pane, the buttons, the window and a scheduled tick alone.
pub proof fn law_panes_are_independent(
    window: TermWindow,
    before: TermWindow,
    pane_id: PaneId,
    other: PaneId,
    to: Selection,
)
    ensures
        window.panes@.dom().contains(pane_id) ==> window.pane(pane_id) == window.panes@[pane_id],
        !window.panes@.dom().contains(pane_id) ==> {
            let state = window.pane(pane_id);
            &&& state.selection.origin is None
            &&& state.selection.range is None
            &&& state.selection.seqno == 0
            &&& !state.selection.rectangular
            &&& state.mouse_terminal_coords is None
        },
        window.differs_only_in(before, pane_id) ==> {
            &&& other != pane_id ==> window.pane(other) == before.pane(other)
            &&& window.current_mouse_buttons == before.current_mouse_buttons
            &&& window.has_window == before.has_window
        },
        window.reselected(before, pane_id, to) ==> {
            &&& window.differs_only_in(before, pane_id)
            &&& window.pane(pane_id).selection == to
            &&& window.pane(pane_id).mouse_terminal_coords == before.pane(
                pane_id,
            ).mouse_terminal_coords
            &&& window.autoscroll_selection_mode == before.autoscroll_selection_mode
        },
{
}

/// Clearing forgets origin and range, beginning sets the origin and forgets the range, and
/// neither touches anything else; a drag without an origin is anchored at the fallback.
pub proof fn law_clearing_and_beginning_forget_the_range(
    selection: Selection,
    at: SelectionCoordinate,
)
    ensures
        selection.cleared().origin is None,
        selection.cleared().range is None,
        selection.cleared().seqno == selection.seqno,
        selection.cleared().rectangular == selection.rectangular,
        selection.begun(at).origin == Some(at),
        selection.begun(at).range is None,
        selection.begun(at).seqno == selection.seqno,
        selection.begun(at).rectangular == selection.rectangular,
        origin_or(selection.begun(at), selection.begun(at).origin->0) == at,
        origin_or(selection.cleared(), at) == at,
        selection.origin matches Some(origin) ==> origin_or(selection, at) == origin,
{
}

/// A click selects what its mode says: a unit as a whole, with a drag that follows starting at
/// the clicked cell in line mode and at the start of the unit in the others; or, by cells,
/// nothing yet, with a drag starting at the cell, as a rectangle just in block mode. Extending
/// by units sets their range, never as a rectangle, and keeps where the drag started.
pub proof fn law_click_selects_by_its_mode(
    selection: Selection,
    mode: SelectionMode,
    seqno: SequenceNo,
    at: SelectionCoordinate,
    range: SelectionRange,
)
    ensures
        ({
            let clicked = unit_selected(mode, seqno, at, range);
            &&& clicked.range == Some(range)
            &&& !clicked.rectangular
            &&& clicked.seqno == seqno
            &&& mode is Line ==> clicked.origin == Some(at)
            &&& !(mode is Line) ==> clicked.origin == Some(range.start)
        }),
        ({
            let begun = begun_in_mode(selection, mode, seqno, at);
            &&& begun.range is None
            &&& begun.origin == Some(at)
            &&& begun.seqno == seqno
            &&& begun.rectangular <==> mode is Block
        }),
        ({
            let extended = selection.extended_to(range);
            &&& extended.range == Some(range)
            &&& !extended.rectangular
            &&& extended.origin == selection.origin
            &&& extended.seqno == selection.seqno
        }),
{
}

/// Without a mouse over the pane nothing is scrolled; with one, what is scrolled to and where a
/// drag by units is anchored follow from its place and the origin alone.
pub proof fn law_scrolling_needs_a_mouse(
    window: TermWindow,
    pane_id: PaneId,
    dims: PaneDimensions,
    viewport: Option<StableRowIndex>,
    row: Option<StableRowIndex>,
    unit: SelectionRange,
    anchor: SelectionCoordinate,
)
    requires
        call_ensures(
            TermWindow::viewport_to_scroll_to,
            (&window, pane_id, dims, viewport),
            row,
        ),
        call_ensures(TermWindow::unit_anchor, (&window, pane_id, unit), anchor),
    ensures
        window.pane(pane_id).mouse_terminal_coords is None ==> row is None,
        window.pane(pane_id).mouse_terminal_coords matches Some((position, y)) ==> {
            let target = scroll_target(position, y, dims, viewport);
            &&& row is Some <==> target is Some
            &&& row is Some ==> row->0 == target->0
        },
        window.pane(pane_id).selection.origin matches Some(origin) ==> anchor == origin,
        window.pane(pane_id).selection.origin is None ==> anchor == unit.start,
{
}

} // verus!

//! Selection geometry: which cells lie between an anchor and a cursor.
use vstd::prelude::*;

verus! {

/// Geometry of a selection.
#[derive(Debug, Clone, Copy, PartialEq, Eq, Structural)]
pub enum SelectionMode {
    /// From the anchor to the cursor in reading order, wrapping row to row.
    Linear,
    /// The rectangle that anchor and cursor span.
    Block,
}

impl Default for SelectionMode {
    fn default() -> (r: Self)
        ensures
            r == SelectionMode::Linear,
    {
        SelectionMode::Linear
    }
}

/// The selected columns of one viewport row: `col_start` included, `col_end`
/// not.
#[derive(Debug, Clone, Copy, PartialEq, Eq, Structural)]
pub struct SelectionSpan {
    pub row: u16,
    pub col_start: u16,
    pub col_end: u16,
}

/// A selection: its mode, and the viewport cells, as (column, row), where it
/// was begun and where it now ends.
#[derive(Debug, Clone, Copy, PartialEq, Eq)]
pub struct SelectionState {
    pub mode: SelectionMode,
    pub anchor: (u16, u16),
    pub cursor: (u16, u16),
}

/// The smaller of two coordinates.
pub open spec fn lesser(a: u16, b: u16) -> u16 {
    if a <= b {
        a
    } else {
        b
    }
}

/// The greater of two coordinates.
pub open spec fn greater(a: u16, b: u16) -> u16 {
    if a <= b {
        b
    } else {
        a
    }
}

/// One past column `x`, but no more than the grid width.
pub open spec fn past(x: u16, cols: u16) -> u16 {
    if x < cols {
        (x + 1) as u16
    } else {
        cols
    }
}

/// Whether cell `a`, as (column, row), comes no later than `b` in reading
/// order.
pub open spec fn reads_before(a: (u16, u16), b: (u16, u16)) -> bool {
    a.1 < b.1 || (a.1 == b.1 && a.0 <= b.0)
}

impl SelectionState {
    /// The first row.
    pub open spec fn top(self) -> u16 {
        lesser(self.anchor.1, self.cursor.1)
    }

    /// The last row.
    pub open spec fn bottom(self) -> u16 {
        greater(self.anchor.1, self.cursor.1)
    }

    /// The end that comes first in reading order.
    pub open spec fn first(self) -> (u16, u16) {
        if reads_before(self.anchor, self.cursor) {
            self.anchor
        } else {
            self.cursor
        }
    }

    /// The end that comes last in reading order.
    pub open spec fn last(self) -> (u16, u16) {
        if reads_before(self.anchor, self.cursor) {
            self.cursor
        } else {
            self.anchor
        }
    }

    /// The selected columns of `row`, one of the rows from top to bottom. A
    /// block has the same columns on every row. A linear selection starts at
    /// its first cell, ends at its last one, and has whole rows between.
    pub open spec fn span_on(self, cols: u16, row: u16) -> SelectionSpan {
        match self.mode {
            SelectionMode::Block => SelectionSpan {
                row,
                col_start: lesser(self.anchor.0, self.cursor.0),
                col_end: past(greater(self.anchor.0, self.cursor.0), cols),
            },
            SelectionMode::Linear => SelectionSpan {
                row,
                col_start: if row == self.first().1 {
                    self.first().0
                } else {
                    0
                },
                col_end: if row == self.last().1 {
                    past(self.last().0, cols)
                } else {
                    cols
                },
            },
        }
    }

    /// One span for each row, from top to bottom.
    pub open spec fn spans(self, cols: u16) -> Seq<SelectionSpan> {
        Seq::new(
            (self.bottom() - self.top() + 1) as nat,
            |i: int| self.span_on(cols, (self.top() + i) as u16),
        )
    }

    /// Whether the cell at column `x` of row `y` is selected.
    pub open spec fn selects(self, x: u16, y: u16) -> bool {
        match self.mode {
            SelectionMode::Block => {
                &&& self.top() <= y <= self.bottom()
                &&& lesser(self.anchor.0, self.cursor.0) <= x <= greater(
                    self.anchor.0,
                    self.cursor.0,
                )
            },
            SelectionMode::Linear => reads_before(self.first(), (x, y)) && reads_before(
                (x, y),
                self.last(),
            ),
        }
    }
}

fn past_column(x: u16, cols: u16) -> (r: u16)
    ensures
        r == past(x, cols),
{
    if x < cols {
        x + 1
    } else {
        cols
    }
}

/// The spans of a selection in a grid of the given width, from top to bottom.
pub fn spans_of(state: SelectionState, cols: u16) -> (r: Vec<SelectionSpan>)
    ensures
        r@ == state.spans(cols),
{
    let (ax, ay) = state.anchor;
    let (cx, cy) = state.cursor;
    let forward = ay < cy || (ay == cy && ax <= cx);
    let (sx, sy) = if forward {
        (ax, ay)
    } else {
        (cx, cy)
    };
    let (ex, ey) = if forward {
        (cx, cy)
    } else {
        (ax, ay)
    };
    assert(sy == state.top() && ey == state.bottom());
    let left: u16 = if ax <= cx {
        ax
    } else {
        cx
    };
    let right: u16 = if ax <= cx {
        cx
    } else {
        ax
    };
    let mut spans: Vec<SelectionSpan> = Vec::new();
    let mut row: u16 = sy;
    loop
        invariant_except_break
            spans@ == state.spans(cols).take(row - sy),
        invariant
            state.anchor == (ax, ay),
            state.cursor == (cx, cy),
            sy == state.top(),
            ey == state.bottom(),
            (sx, sy) == state.first(),
            (ex, ey) == state.last(),
            left == lesser(ax, cx),
            right == greater(ax, cx),
            sy <= row <= ey,
        ensures
            spans@ == state.spans(cols),
        decreases ey - row,
    {
        let span = match state.mode {
            SelectionMode::Block => SelectionSpan {
                row,
                col_start: left,
                col_end: past_column(right, cols),
            },
            SelectionMode::Linear => SelectionSpan {
                row,
                col_start: if row == sy {
                    sx
                } else {
                    0
                },
                col_end: if row == ey {
                    past_column(ex, cols)
                } else {
                    cols
                },
            },
        };
        assert(span == state.span_on(cols, row));
        spans.push(span);
        assert(spans@ =~= state.spans(cols).take(row - sy + 1));
        if row == ey {
            assert(state.spans(cols).take(row - sy + 1) =~= state.spans(cols));
            break ;
        }
        row += 1;
    }
    spans
}

/// The spans cover exactly the selected cells: a cell of the grid is in the
/// span of its row if and only if it is selected.
pub proof fn spans_cover_selection(state: SelectionState, cols: u16, x: u16, y: u16)
    requires
        x < cols,
    ensures
        state.selects(x, y) <==> state.top() <= y <= state.bottom() && state.span_on(
            cols,
            y,
        ).col_start <= x < state.span_on(cols, y).col_end,
{
}

/// The direction of a drag does not matter: anchor and cursor exchanged give
/// the same spans.
pub proof fn spans_ignore_direction(state: SelectionState, cols: u16)
    ensures
        state.spans(cols) == (SelectionState {
            anchor: state.cursor,
            cursor: state.anchor,
            ..state
        }).spans(cols),
{
    let swapped = SelectionState { anchor: state.cursor, cursor: state.anchor, ..state };
    assert(state.spans(cols) =~= swapped.spans(cols));
}

/// The spans lie one below the other without gaps, and within the grid when
/// both ends do.
pub proof fn spans_are_well_formed(state: SelectionState, cols: u16, i: int)
    requires
        state.anchor.0 < cols,
        state.cursor.0 < cols,
        0 <= i < state.spans(cols).len(),
    ensures
        state.spans(cols)[i].row == state.top() + i,
        state.spans(cols)[i].col_start < cols,
        state.spans(cols)[i].col_end <= cols,
{
}

/// A cell moved to the nearest one of a grid.
pub open spec fn clamped(x: u16, y: u16, cols: u16, rows: u16) -> (u16, u16) {
    (
        if x < cols {
            x
        } else if cols > 0 {
            (cols - 1) as u16
        } else {
            0
        },
        if y < rows {
            y
        } else if rows > 0 {
            (rows - 1) as u16
        } else {
            0
        },
    )
}

/// The cell of a grid that is nearest to column `x` of row `y`.
pub fn clamp_cell(x: u16, y: u16, cols: u16, rows: u16) -> (r: (u16, u16))
    ensures
        r == clamped(x, y, cols, rows),
        cols > 0 ==> r.0 < cols,
        rows > 0 ==> r.1 < rows,
{
    let max_x = cols.saturating_sub(1);
    let max_y = rows.saturating_sub(1);
    (
        if x <= max_x {
            x
        } else {
            max_x
        },
        if y <= max_y {
            y
        } else {
            max_y
        },
    )
}

/// The place of a cell in reading order.
pub open spec fn reading_order(cell: (u16, u16)) -> int {
    cell.1 * 0x10000 + cell.0
}

/// Whether `v` lies between `a` and `b`, whichever is the greater.
pub open spec fn lies_between(a: int, v: int, b: int) -> bool {
    (a <= v && v <= b) || (b <= v && v <= a)
}

/// A linear selection holds the cells between its two ends in reading order, a
/// block those between them in both directions; both ends are part of it.
pub proof fn selection_lies_between_its_ends(state: SelectionState, x: u16, y: u16)
    ensures
        state.mode == SelectionMode::Linear ==> (state.selects(x, y) <==> lies_between(
            reading_order(state.anchor),
            reading_order((x, y)),
            reading_order(state.cursor),
        )),
        state.mode == SelectionMode::Block ==> (state.selects(x, y) <==> lies_between(
            state.anchor.0 as int,
            x as int,
            state.cursor.0 as int,
        ) && lies_between(state.anchor.1 as int, y as int, state.cursor.1 as int)),
        state.selects(state.anchor.0, state.anchor.1),
        state.selects(state.cursor.0, state.cursor.1),
{
}

/// Of the spans that are drawn, those of a row hold a cell of the grid exactly
/// if the cell lies between the ends of the selection.
pub proof fn drawn_cells_lie_between_the_ends(state: SelectionState, cols: u16, x: u16, y: u16)
    requires
        x < cols,
    ensures
        (exists|i: int|
            0 <= i < state.spans(cols).len() && (#[trigger] state.spans(cols)[i]).row == y
                && state.spans(cols)[i].col_start <= x < state.spans(cols)[i].col_end) <==> (
        if state.mode == SelectionMode::Linear {
            lies_between(
                reading_order(state.anchor),
                reading_order((x, y)),
                reading_order(state.cursor),
            )
        } else {
            lies_between(state.anchor.0 as int, x as int, state.cursor.0 as int) && lies_between(
                state.anchor.1 as int,
                y as int,
                state.cursor.1 as int,
            )
        }),
        forall|i: int, j: int|
            0 <= i < j < state.spans(cols).len() ==> (#[trigger] state.spans(cols)[i]).row < (
            #[trigger] state.spans(cols)[j]).row,
{
    selection_lies_between_its_ends(state, x, y);
    spans_cover_selection(state, cols, x, y);
    if state.selects(x, y) {
        let i = y - state.top();
        assert(state.spans(cols)[i] == state.span_on(cols, y));
    }
}

/// A cell of the grid is left where it is, and a coordinate beyond the edge
/// becomes the last one before it. Neither coordinate bears on the other.
pub proof fn clamping_moves_to_the_edge(x: u16, y: u16, cols: u16, rows: u16)
    requires
        cols > 0,
        rows > 0,
    ensures
        x < cols ==> clamped(x, y, cols, rows).0 == x,
        x >= cols ==> clamped(x, y, cols, rows).0 == cols - 1,
        y < rows ==> clamped(x, y, cols, rows).1 == y,
        y >= rows ==> clamped(x, y, cols, rows).1 == rows - 1,
{
}

} // verus!

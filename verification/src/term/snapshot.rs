//! Snapshots of the terminal grid: plain values that the renderer consumes.
//!
//! A [`GridSnapshot`] keeps its row buffers from frame to frame, so that a
//! steady stream of frames does not churn the heap.
use vstd::prelude::*;

verus! {

/// Width class of a cell.
#[derive(Debug, Clone, Copy, PartialEq, Eq, Structural)]
pub enum CellWidth {
    /// Normal single-column cell.
    Narrow,
    /// Two-column character; occupies this cell and the spacer after it.
    Wide,
    /// Spacer after a wide character; not rendered.
    SpacerTail,
    /// Spacer at the end of a soft-wrapped line before a wide character.
    SpacerHead,
}

impl CellWidth {
    /// The width class for the engine's number.
    pub open spec fn of(code: i32) -> CellWidth {
        if code == 1 {
            CellWidth::Wide
        } else if code == 2 {
            CellWidth::SpacerTail
        } else if code == 3 {
            CellWidth::SpacerHead
        } else {
            CellWidth::Narrow
        }
    }

    /// The width class for the engine's number; anything unknown is narrow.
    pub fn from_raw(code: i32) -> (r: Self)
        ensures
            r == CellWidth::of(code),
    {
        if code == 1 {
            CellWidth::Wide
        } else if code == 2 {
            CellWidth::SpacerTail
        } else if code == 3 {
            CellWidth::SpacerHead
        } else {
            CellWidth::Narrow
        }
    }
}

impl Default for CellWidth {
    fn default() -> (r: Self)
        ensures
            r == CellWidth::Narrow,
    {
        CellWidth::Narrow
    }
}

/// A style color.
#[derive(Debug, Clone, Copy, PartialEq, Eq, Structural)]
pub enum StyleColor {
    /// The terminal's default.
    Unset,
    /// Palette index.
    Palette(u8),
    /// Direct red, green and blue.
    Rgb(u8, u8, u8),
}

impl Default for StyleColor {
    fn default() -> (r: Self)
        ensures
            r == StyleColor::Unset,
    {
        StyleColor::Unset
    }
}

/// Underline style.
#[derive(Debug, Clone, Copy, PartialEq, Eq, Structural)]
pub enum Underline {
    /// No underline.
    Plain,
    Single,
    Double,
    Curly,
    Dotted,
    Dashed,
    /// A number without a name.
    Other(i32),
}

impl Underline {
    /// The underline style for an SGR number.
    pub open spec fn of(v: i32) -> Underline {
        if v == 0 {
            Underline::Plain
        } else if v == 1 {
            Underline::Single
        } else if v == 2 {
            Underline::Double
        } else if v == 3 {
            Underline::Curly
        } else if v == 4 {
            Underline::Dotted
        } else if v == 5 {
            Underline::Dashed
        } else {
            Underline::Other(v)
        }
    }

    /// The underline style for an SGR number.
    pub fn from_raw(v: i32) -> (r: Self)
        ensures
            r == Underline::of(v),
    {
        if v == 0 {
            Underline::Plain
        } else if v == 1 {
            Underline::Single
        } else if v == 2 {
            Underline::Double
        } else if v == 3 {
            Underline::Curly
        } else if v == 4 {
            Underline::Dotted
        } else if v == 5 {
            Underline::Dashed
        } else {
            Underline::Other(v)
        }
    }
}

impl Default for Underline {
    fn default() -> (r: Self)
        ensures
            r == Underline::Plain,
    {
        Underline::Plain
    }
}

/// Visual style of a cell.
#[derive(Debug, Clone, Copy, PartialEq, Eq, Structural)]
pub struct StyleSnapshot {
    pub fg: StyleColor,
    pub bg: StyleColor,
    pub underline_color: StyleColor,
    pub bold: bool,
    pub italic: bool,
    pub faint: bool,
    pub blink: bool,
    pub inverse: bool,
    pub invisible: bool,
    pub strikethrough: bool,
    pub overline: bool,
    pub underline: Underline,
}

impl StyleSnapshot {
    /// The style without any attribute.
    pub open spec fn plain() -> StyleSnapshot {
        StyleSnapshot {
            fg: StyleColor::Unset,
            bg: StyleColor::Unset,
            underline_color: StyleColor::Unset,
            bold: false,
            italic: false,
            faint: false,
            blink: false,
            inverse: false,
            invisible: false,
            strikethrough: false,
            overline: false,
            underline: Underline::Plain,
        }
    }
}

impl Default for StyleSnapshot {
    fn default() -> (r: Self)
        ensures
            r == StyleSnapshot::plain(),
    {
        StyleSnapshot {
            fg: StyleColor::Unset,
            bg: StyleColor::Unset,
            underline_color: StyleColor::Unset,
            bold: false,
            italic: false,
            faint: false,
            blink: false,
            inverse: false,
            invisible: false,
            strikethrough: false,
            overline: false,
            underline: Underline::Plain,
        }
    }
}

/// One rendered cell.
#[derive(Debug, Clone, Copy, PartialEq, Eq, Structural)]
pub struct Cell {
    /// Primary Unicode scalar; 0 for an empty cell.
    pub codepoint: u32,
    pub style: StyleSnapshot,
    /// 0 without a hyperlink, 1 with one.
    pub hyperlink_id: u32,
    pub width: CellWidth,
}

impl Cell {
    /// The blank cell.
    pub open spec fn blank() -> Cell {
        Cell {
            codepoint: 0,
            style: StyleSnapshot::plain(),
            hyperlink_id: 0,
            width: CellWidth::Narrow,
        }
    }
}

impl Default for Cell {
    fn default() -> (r: Self)
        ensures
            r == Cell::blank(),
    {
        Cell {
            codepoint: 0,
            style: StyleSnapshot::default(),
            hyperlink_id: 0,
            width: CellWidth::Narrow,
        }
    }
}

/// Cursor style.
#[derive(Debug, Clone, Copy, PartialEq, Eq, Structural)]
pub enum CursorStyle {
    Bar,
    Block,
    Underline,
    HollowBlock,
}

impl Default for CursorStyle {
    fn default() -> (r: Self)
        ensures
            r == CursorStyle::Block,
    {
        CursorStyle::Block
    }
}

/// Cursor position and visibility.
#[derive(Debug, Clone, Copy, PartialEq, Eq, Structural)]
pub struct CursorSnapshot {
    /// Column within the active area, from 0.
    pub x: u16,
    /// Row within the active area, from 0.
    pub y: u16,
    pub visible: bool,
    pub style: CursorStyle,
}

impl Default for CursorSnapshot {
    fn default() -> (r: Self)
        ensures
            r == (CursorSnapshot { x: 0, y: 0, visible: false, style: CursorStyle::Block }),
    {
        CursorSnapshot { x: 0, y: 0, visible: false, style: CursorStyle::Block }
    }
}

/// One row of a snapshot.
#[derive(Debug, Clone, PartialEq, Eq)]
pub struct RowSnapshot {
    /// Cells from left to right.
    pub cells: Vec<Cell>,
    /// Whether the row needs a redraw.
    pub dirty: bool,
    /// Whether the row is soft-wrapped into the next.
    pub wrapped: bool,
}

impl Default for RowSnapshot {
    fn default() -> (r: Self)
        ensures
            r.cells.len() == 0,
            !r.dirty,
            !r.wrapped,
    {
        RowSnapshot { cells: Vec::new(), dirty: false, wrapped: false }
    }
}

// ---- what the engine reports of a cell ------------------------------------------

/// What the engine reports of a cell; a field is absent where the query for it
/// failed.
#[derive(Debug, Clone, Copy, PartialEq, Eq)]
pub struct CellReport {
    pub codepoint: Option<u32>,
    pub has_hyperlink: Option<bool>,
    pub wide: Option<i32>,
    pub style: Option<StyleReport>,
}

/// What the engine reports of a style.
#[derive(Debug, Clone, Copy, PartialEq, Eq)]
pub struct StyleReport {
    pub fg: StyleColor,
    pub bg: StyleColor,
    pub underline_color: StyleColor,
    pub bold: bool,
    pub italic: bool,
    pub faint: bool,
    pub blink: bool,
    pub inverse: bool,
    pub invisible: bool,
    pub strikethrough: bool,
    pub overline: bool,
    pub underline: i32,
}

/// The style that a report gives.
pub open spec fn style_of(report: Option<StyleReport>) -> StyleSnapshot {
    match report {
        Some(s) => StyleSnapshot {
            fg: s.fg,
            bg: s.bg,
            underline_color: s.underline_color,
            bold: s.bold,
            italic: s.italic,
            faint: s.faint,
            blink: s.blink,
            inverse: s.inverse,
            invisible: s.invisible,
            strikethrough: s.strikethrough,
            overline: s.overline,
            underline: Underline::of(s.underline),
        },
        None => StyleSnapshot::plain(),
    }
}

/// The style that a report gives; plain where there is no report.
pub fn read_style(report: Option<StyleReport>) -> (r: StyleSnapshot)
    ensures
        r == style_of(report),
{
    match report {
        Some(s) => StyleSnapshot {
            fg: s.fg,
            bg: s.bg,
            underline_color: s.underline_color,
            bold: s.bold,
            italic: s.italic,
            faint: s.faint,
            blink: s.blink,
            inverse: s.inverse,
            invisible: s.invisible,
            strikethrough: s.strikethrough,
            overline: s.overline,
            underline: Underline::from_raw(s.underline),
        },
        None => StyleSnapshot::default(),
    }
}

/// The cell that a report gives.
pub open spec fn cell_of(report: Option<CellReport>) -> Cell {
    match report {
        Some(c) => Cell {
            codepoint: match c.codepoint {
                Some(v) => v,
                None => 0,
            },
            style: style_of(c.style),
            hyperlink_id: if c.has_hyperlink == Some(true) {
                1
            } else {
                0
            },
            width: CellWidth::of(
                match c.wide {
                    Some(v) => v,
                    None => 0,
                },
            ),
        },
        None => Cell::blank(),
    }
}

/// The cell that a report gives; blank where the cell could not be resolved.
pub fn read_cell(report: Option<CellReport>) -> (r: Cell)
    ensures
        r == cell_of(report),
{
    match report {
        Some(c) => Cell {
            codepoint: match c.codepoint {
                Some(v) => v,
                None => 0,
            },
            style: read_style(c.style),
            hyperlink_id: match c.has_hyperlink {
                Some(true) => 1,
                _ => 0,
            },
            width: CellWidth::from_raw(
                match c.wide {
                    Some(v) => v,
                    None => 0,
                },
            ),
        },
        None => Cell::default(),
    }
}

/// What the engine reports of a row: its cells, and its dirty and wrap flags.
#[derive(Debug, Clone, PartialEq, Eq)]
pub struct RowReport {
    pub cells: Vec<Option<CellReport>>,
    /// The dirty and the wrap flag; absent where the row could not be resolved.
    pub flags: Option<(Option<bool>, Option<bool>)>,
}

/// What the engine reports of the active area.
#[derive(Debug, Clone, PartialEq, Eq)]
pub struct GridReport {
    pub rows: Vec<RowReport>,
    pub cursor_x: Option<u16>,
    pub cursor_y: Option<u16>,
    pub cursor_visible: Option<bool>,
}

impl GridReport {
    /// What is reported of the cell at column `x` of row `y`.
    pub open spec fn at(&self, x: int, y: int) -> Option<CellReport> {
        if 0 <= y < self.rows.len() && 0 <= x < self.rows[y].cells.len() {
            self.rows[y].cells[x]
        } else {
            None
        }
    }

    /// What is reported of the flags of row `y`.
    pub open spec fn flags_at(&self, y: int) -> Option<(Option<bool>, Option<bool>)> {
        if 0 <= y < self.rows.len() {
            self.rows[y].flags
        } else {
            None
        }
    }

    /// What is reported of the cell at column `x` of row `y`.
    pub fn get(&self, x: u16, y: u16) -> (r: Option<CellReport>)
        ensures
            r == self.at(x as int, y as int),
    {
        if (y as usize) < self.rows.len() && (x as usize) < self.rows[y as usize].cells.len() {
            self.rows[y as usize].cells[x as usize]
        } else {
            None
        }
    }
}

/// Whether row `y` counts as dirty: as reported, a failed query for the flag
/// as clean, an unresolved or empty row as dirty.
pub open spec fn dirty_flag(report: GridReport, cols: u16, y: int) -> bool {
    match report.flags_at(y) {
        Some((dirty, _)) => cols == 0 || dirty == Some(true),
        None => true,
    }
}

/// Whether row `y` counts as wrapped.
pub open spec fn wrap_flag(report: GridReport, cols: u16, y: int) -> bool {
    match report.flags_at(y) {
        Some((_, wrapped)) => cols > 0 && wrapped == Some(true),
        None => false,
    }
}

/// The dirty and the wrap flag of row `y`.
pub fn read_row_flags(report: &GridReport, cols: u16, y: u16) -> (r: (bool, bool))
    ensures
        r.0 == dirty_flag(*report, cols, y as int),
        r.1 == wrap_flag(*report, cols, y as int),
{
    if cols == 0 || (y as usize) >= report.rows.len() {
        return (true, false);
    }
    match report.rows[y as usize].flags {
        Some((dirty, wrapped)) => (
            match dirty {
                Some(d) => d,
                None => false,
            },
            match wrapped {
                Some(w) => w,
                None => false,
            },
        ),
        None => (true, false),
    }
}

/// The cursor that a report gives: a failed query counts as column or row 0,
/// and as visible.
pub open spec fn cursor_of(report: GridReport) -> CursorSnapshot {
    CursorSnapshot {
        x: match report.cursor_x {
            Some(x) => x,
            None => 0,
        },
        y: match report.cursor_y {
            Some(y) => y,
            None => 0,
        },
        visible: match report.cursor_visible {
            Some(v) => v,
            None => true,
        },
        style: CursorStyle::Block,
    }
}

/// The cursor that a report gives.
pub fn read_cursor(report: &GridReport) -> (r: CursorSnapshot)
    ensures
        r == cursor_of(*report),
{
    CursorSnapshot {
        x: match report.cursor_x {
            Some(x) => x,
            None => 0,
        },
        y: match report.cursor_y {
            Some(y) => y,
            None => 0,
        },
        visible: match report.cursor_visible {
            Some(v) => v,
            None => true,
        },
        style: CursorStyle::Block,
    }
}

// ---- the snapshot ----------------------------------------------------------------

/// A snapshot of the active area.
#[derive(Debug)]
pub struct GridSnapshot {
    /// Grid width at the last snapshot.
    pub cols: u16,
    /// Grid height at the last snapshot.
    pub rows: u16,
    /// Rows from top to bottom.
    pub rows_data: Vec<RowSnapshot>,
    pub cursor: CursorSnapshot,
    /// Emptied row buffers, kept for the next frame.
    pub free_rows: Vec<Vec<Cell>>,
}

impl Default for GridSnapshot {
    fn default() -> (r: Self)
        ensures
            r.wf(),
            r.cols == 0,
            r.rows == 0,
            r.rows_data.len() == 0,
            r.cursor == (CursorSnapshot { x: 0, y: 0, visible: false, style: CursorStyle::Block }),
            r.free_rows.len() == 0,
    {
        GridSnapshot {
            cols: 0,
            rows: 0,
            rows_data: Vec::new(),
            cursor: CursorSnapshot::default(),
            free_rows: Vec::new(),
        }
    }
}

impl GridSnapshot {
    /// Every kept buffer is empty.
    pub open spec fn wf(&self) -> bool {
        forall|i: int| 0 <= i < self.free_rows.len() ==> (#[trigger] self.free_rows[i])@.len() == 0
    }

    /// An empty snapshot.
    pub fn new() -> (r: Self)
        ensures
            r.wf(),
            r.cols == 0,
            r.rows == 0,
            r.rows_data.len() == 0,
            r.cursor == (CursorSnapshot { x: 0, y: 0, visible: false, style: CursorStyle::Block }),
            r.free_rows.len() == 0,
    {
        GridSnapshot::default()
    }

    /// Grid width at the last snapshot.
    pub fn cols(&self) -> (r: u16)
        ensures
            r == self.cols,
    {
        self.cols
    }

    /// Grid height at the last snapshot.
    pub fn rows(&self) -> (r: u16)
        ensures
            r == self.rows,
    {
        self.rows
    }

    /// The cell at column `x` of row `y`, if there is one.
    pub fn cell(&self, x: u16, y: u16) -> (r: Option<&Cell>)
        ensures
            r is Some <==> (y as int) < self.rows_data.len() && (x as int)
                < self.rows_data[y as int].cells.len(),
            r matches Some(cell) ==> *cell == self.rows_data[y as int].cells[x as int],
    {
        if (y as usize) < self.rows_data.len() && (x as usize) < self.rows_data[y as usize].cells.len() {
            Some(&self.rows_data[y as usize].cells[x as usize])
        } else {
            None
        }
    }

    /// Empties the snapshot for a new frame, keeping its row buffers.
    pub fn reset(&mut self, cols: u16, rows: u16)
        requires
            old(self).wf(),
        ensures
            final(self).wf(),
            final(self).cols == cols,
            final(self).rows == rows,
            final(self).rows_data.len() == 0,
            final(self).cursor == old(self).cursor,
            final(self).free_rows.len() == old(self).free_rows.len() + old(self).rows_data.len(),
    {
        let ghost buffers = self.free_rows.len() + self.rows_data.len();
        self.cols = cols;
        self.rows = rows;
        let ghost cursor = self.cursor;
        while self.rows_data.len() > 0
            invariant
                self.wf(),
                self.cols == cols,
                self.rows == rows,
                self.cursor == cursor,
                self.free_rows.len() + self.rows_data.len() == buffers,
            decreases self.rows_data.len(),
        {
            if let Some(row) = self.rows_data.pop() {
                let mut cells = row.cells;
                cells.clear();
                self.free_rows.push(cells);
            }
        }
    }

    /// An empty row buffer: the one kept last, which is kept no longer, or a
    /// new one when none is kept.
    pub fn take_row_buf(&mut self) -> (r: Vec<Cell>)
        requires
            old(self).wf(),
        ensures
            final(self).wf(),
            r@.len() == 0,
            old(self).free_rows.len() > 0 ==> r == old(self).free_rows@.last() && final(self).free_rows@
                == old(self).free_rows@.drop_last(),
            old(self).free_rows.len() == 0 ==> final(self).free_rows.len() == 0,
            final(self).cols == old(self).cols,
            final(self).rows == old(self).rows,
            final(self).rows_data == old(self).rows_data,
            final(self).cursor == old(self).cursor,
    {
        match self.free_rows.pop() {
            Some(buf) => {
                assert(buf == old(self).free_rows@[old(self).free_rows.len() - 1]);
                buf
            },
            None => Vec::new(),
        }
    }

    /// Appends a completed row.
    pub fn push_row(&mut self, row: RowSnapshot)
        requires
            old(self).wf(),
        ensures
            final(self).wf(),
            final(self).cols == old(self).cols,
            final(self).rows == old(self).rows,
            final(self).rows_data@ == old(self).rows_data@.push(row),
            final(self).cursor == old(self).cursor,
            final(self).free_rows == old(self).free_rows,
    {
        self.rows_data.push(row);
    }
}

/// Row `y` of the snapshot that a report gives.
pub open spec fn row_matches(row: RowSnapshot, report: GridReport, cols: u16, y: int) -> bool {
    &&& row.cells.len() == cols
    &&& forall|x: int| 0 <= x < cols ==> #[trigger] row.cells[x] == cell_of(report.at(x, y))
    &&& row.dirty == dirty_flag(report, cols, y)
    &&& row.wrapped == wrap_flag(report, cols, y)
}

/// The snapshot that a report gives of a grid of the given size.
pub open spec fn grid_matches(
    grid: GridSnapshot,
    report: GridReport,
    cols: u16,
    rows: u16,
) -> bool {
    &&& grid.cols == cols
    &&& grid.rows == rows
    &&& grid.rows_data.len() == rows
    &&& forall|y: int|
        0 <= y < rows ==> row_matches(#[trigger] grid.rows_data[y], report, cols, y)
    &&& grid.cursor == cursor_of(report)
}

/// How many of `buffers` row buffers are left over by a grid of `rows` rows.
pub open spec fn spare_buffers(buffers: int, rows: u16) -> int {
    if buffers > rows {
        buffers - rows
    } else {
        0
    }
}

/// Fills `out` with what a report gives of a grid of the given size. The rows
/// that `out` held give up their buffers, and new ones are made only where
/// those do not suffice.
pub fn fill_snapshot(report: &GridReport, cols: u16, rows: u16, out: &mut GridSnapshot)
    requires
        old(out).wf(),
    ensures
        final(out).wf(),
        grid_matches(*final(out), *report, cols, rows),
        final(out).free_rows.len() == spare_buffers(
            old(out).free_rows.len() + old(out).rows_data.len(),
            rows,
        ),
{
    let ghost buffers = out.free_rows.len() + out.rows_data.len();
    out.reset(cols, rows);
    let mut y: u16 = 0;
    while y < rows
        invariant
            y <= rows,
            out.wf(),
            out.cols == cols,
            out.rows == rows,
            out.rows_data.len() == y,
            out.free_rows.len() == spare_buffers(buffers, y),
            forall|j: int|
                0 <= j < y ==> row_matches(#[trigger] out.rows_data[j], *report, cols, j),
        decreases rows - y,
    {
        let mut cells = out.take_row_buf();
        let mut x: u16 = 0;
        while x < cols
            invariant
                x <= cols,
                cells.len() == x,
                forall|i: int|
                    0 <= i < x ==> #[trigger] cells[i] == cell_of(report.at(i, y as int)),
            decreases cols - x,
        {
            cells.push(read_cell(report.get(x, y)));
            x += 1;
        }
        let (dirty, wrapped) = read_row_flags(report, cols, y);
        let ghost before = out.rows_data@;
        out.push_row(RowSnapshot { cells, dirty, wrapped });
        proof {
            assert forall|j: int| 0 <= j < y + 1 implies row_matches(
                #[trigger] out.rows_data[j],
                *report,
                cols,
                j,
            ) by {
                if j < y {
                    assert(out.rows_data[j] == before[j]);
                }
            }
        }
        y += 1;
    }
    out.cursor = read_cursor(report);
}

// ---- what a snapshot keeps of the engine's answers ------------------------------------

/// Every answer about a cell is kept: its code point, its style field by field
/// and its width; a hyperlink counts 1. A cell that could not be read is an
/// empty one of plain style.
pub proof fn cells_keep_the_answers(c: CellReport)
    ensures
        c.codepoint matches Some(v) ==> cell_of(Some(c)).codepoint == v,
        c.codepoint is None ==> cell_of(Some(c)).codepoint == 0,
        c.has_hyperlink == Some(true) ==> cell_of(Some(c)).hyperlink_id == 1,
        c.has_hyperlink != Some(true) ==> cell_of(Some(c)).hyperlink_id == 0,
        c.wide == Some(0i32) || c.wide is None ==> cell_of(Some(c)).width == CellWidth::Narrow,
        c.wide == Some(1i32) ==> cell_of(Some(c)).width == CellWidth::Wide,
        c.wide == Some(2i32) ==> cell_of(Some(c)).width == CellWidth::SpacerTail,
        c.wide == Some(3i32) ==> cell_of(Some(c)).width == CellWidth::SpacerHead,
        c.style matches Some(s) ==> {
            let style = cell_of(Some(c)).style;
            &&& style.fg == s.fg
            &&& style.bg == s.bg
            &&& style.underline_color == s.underline_color
            &&& style.bold == s.bold
            &&& style.italic == s.italic
            &&& style.faint == s.faint
            &&& style.blink == s.blink
            &&& style.inverse == s.inverse
            &&& style.invisible == s.invisible
            &&& style.strikethrough == s.strikethrough
            &&& style.overline == s.overline
        },
        c.style is None ==> cell_of(Some(c)).style == StyleSnapshot::plain(),
        cell_of(None).codepoint == 0,
        cell_of(None).style == StyleSnapshot::plain(),
        cell_of(None).hyperlink_id == 0,
        cell_of(None).width == CellWidth::Narrow,
{
}

/// The underlines by the engine's numbers: 0 none, 1 single, 2 double, 3
/// curly, 4 dotted, 5 dashed, and any other number itself.
pub proof fn underlines_by_number(v: i32)
    ensures
        Underline::of(0) == Underline::Plain,
        Underline::of(1) == Underline::Single,
        Underline::of(2) == Underline::Double,
        Underline::of(3) == Underline::Curly,
        Underline::of(4) == Underline::Dotted,
        Underline::of(5) == Underline::Dashed,
        v < 0 || v > 5 ==> Underline::of(v) == Underline::Other(v),
{
}

/// A snapshot has the grid's size, and each of its cells is what the engine
/// answered for that cell, row by row from the top and column by column from
/// the left. The cursor is where the engine says.
pub proof fn snapshots_are_of_the_grid(
    grid: GridSnapshot,
    report: GridReport,
    cols: u16,
    rows: u16,
    x: int,
    y: int,
)
    requires
        grid_matches(grid, report, cols, rows),
        0 <= x < cols,
        0 <= y < rows,
        y < report.rows.len(),
        x < report.rows[y].cells.len(),
    ensures
        grid.cols == cols && grid.rows == rows,
        grid.rows_data.len() == rows,
        grid.rows_data[y].cells.len() == cols,
        grid.rows_data[y].cells[x] == cell_of(report.rows[y].cells[x]),
        report.rows[y].flags matches Some((dirty, wrapped)) ==> grid.rows_data[y].dirty == (dirty
            == Some(true)) && grid.rows_data[y].wrapped == (wrapped == Some(true)),
        report.rows[y].flags is None ==> grid.rows_data[y].dirty && !grid.rows_data[y].wrapped,
        report.cursor_x matches Some(v) ==> grid.cursor.x == v,
        report.cursor_y matches Some(v) ==> grid.cursor.y == v,
        report.cursor_visible matches Some(v) ==> grid.cursor.visible == v,
        report.cursor_visible is None ==> grid.cursor.visible,
{
    let row = grid.rows_data[y];
    assert(row_matches(row, report, cols, y));
    assert(row.cells[x] == cell_of(report.at(x, y)));
}

/// Plain style sets no color and no attribute.
pub proof fn plain_style_sets_nothing()
    ensures
        ({
            let s = StyleSnapshot::plain();
            &&& s.fg == StyleColor::Unset && s.bg == StyleColor::Unset && s.underline_color
                == StyleColor::Unset
            &&& !s.bold && !s.italic && !s.faint && !s.blink && !s.inverse && !s.invisible
            &&& !s.strikethrough && !s.overline && s.underline == Underline::Plain
        }),
{
}

} // verus!

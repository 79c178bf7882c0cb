//! What the renderer fills: the paint of each grid cell, and the rectangles of
//! the animated test pattern.
use vstd::prelude::*;

use crate::term::snapshot::{Cell, GridSnapshot, StyleColor};

verus! {

/// The paint of a cell.
#[derive(Debug, Clone, Copy, PartialEq, Eq, Structural)]
pub enum Paint {
    /// The default background.
    Empty,
    /// A cell without visible text: its background.
    Blank { bg: StyleColor },
    /// A cell with text: its colors, blended.
    Text { bg: StyleColor, fg: StyleColor },
    /// The cursor block.
    Cursor,
}

/// The paint of a cell of the grid. A code above the space shows text.
pub open spec fn cell_paint(cell: Cell) -> Paint {
    if cell.codepoint > 0x20 {
        Paint::Text { bg: cell.style.bg, fg: cell.style.fg }
    } else {
        Paint::Blank { bg: cell.style.bg }
    }
}

fn paint_of(cell: &Cell) -> (r: Paint)
    ensures
        r == cell_paint(*cell),
{
    if cell.codepoint > 0x20 {
        Paint::Text { bg: cell.style.bg, fg: cell.style.fg }
    } else {
        Paint::Blank { bg: cell.style.bg }
    }
}

/// Whether the cursor covers a position.
pub open spec fn cursor_at(snapshot: GridSnapshot, x: int, y: int) -> bool {
    snapshot.cursor.visible && snapshot.cursor.x == x && snapshot.cursor.y == y
}

/// Whether the snapshot has a cell at a position.
pub open spec fn has_cell(snapshot: GridSnapshot, x: int, y: int) -> bool {
    0 <= y < snapshot.rows_data@.len() && 0 <= x < snapshot.rows_data@[y].cells@.len()
}

/// What a position was painted with before.
pub open spec fn earlier_paint(earlier: Seq<Paint>, i: int) -> Paint {
    if i < earlier.len() {
        earlier[i]
    } else {
        Paint::Empty
    }
}

/// The paint of a position: the cursor where it is shown, the cell where the
/// snapshot has one, else what was there before.
pub open spec fn paint_at(
    snapshot: GridSnapshot,
    earlier: Seq<Paint>,
    cols: int,
    x: int,
    y: int,
) -> Paint {
    if cursor_at(snapshot, x, y) {
        Paint::Cursor
    } else if has_cell(snapshot, x, y) {
        cell_paint(snapshot.rows_data@[y].cells@[x])
    } else {
        earlier_paint(earlier, y * cols + x)
    }
}

/// The paint of a position from its cell alone.
spec fn painted(
    snapshot: GridSnapshot,
    earlier: Seq<Paint>,
    cols: int,
    x: int,
    y: int,
    done: bool,
) -> Paint {
    if done && has_cell(snapshot, x, y) {
        cell_paint(snapshot.rows_data@[y].cells@[x])
    } else {
        earlier_paint(earlier, y * cols + x)
    }
}

proof fn lemma_position(cols: int, rows: int, x: int, y: int)
    requires
        0 <= x < cols,
        0 <= y < rows,
    ensures
        0 <= y * cols + x < cols * rows,
{
    assert(0 <= y * cols + x < cols * rows) by (nonlinear_arith)
        requires
            0 <= x < cols,
            0 <= y < rows,
    ;
}

proof fn lemma_positions_differ(cols: int, x: int, y: int, a: int, b: int)
    requires
        0 <= x < cols,
        0 <= a < cols,
        x != a || y != b,
    ensures
        y * cols + x != b * cols + a,
{
    assert(y * cols + x != b * cols + a) by (nonlinear_arith)
        requires
            0 <= x < cols,
            0 <= a < cols,
            x != a || y != b,
    ;
}

/// Repaints a grid of the given size, row by row, from a snapshot. What the
/// snapshot does not cover keeps its paint.
pub fn refresh_paint(paint: &mut Vec<Paint>, snapshot: &GridSnapshot, cols: u16, rows: u16)
    ensures
        final(paint)@.len() == cols * rows,
        forall|x: int, y: int|
            0 <= x < cols && 0 <= y < rows ==> #[trigger] final(paint)@[y * cols + x] == paint_at(
                *snapshot,
                old(paint)@,
                cols as int,
                x,
                y,
            ),
{
    let ghost earlier = paint@;
    assert(cols * rows <= 0xffff * 0xffff) by (nonlinear_arith)
        requires
            cols <= 0xffff,
            rows <= 0xffff,
    ;
    let total: usize = cols as usize * rows as usize;
    resize_paint(paint, total);
    proof {
        assert forall|x: int, y: int| 0 <= x < cols && 0 <= y < rows implies #[trigger] paint@[y
            * cols + x] == painted(*snapshot, earlier, cols as int, x, y, false) by {
            lemma_position(cols as int, rows as int, x, y);
        }
    }
    let mut y: usize = 0;
    while y < snapshot.rows_data.len() && y < rows as usize
        invariant
            paint@.len() == cols * rows,
            total == cols * rows,
            y <= rows,
            y <= snapshot.rows_data@.len(),
            forall|a: int, b: int|
                0 <= a < cols && 0 <= b < rows ==> #[trigger] paint@[b * cols + a] == painted(
                    *snapshot,
                    earlier,
                    cols as int,
                    a,
                    b,
                    b < y,
                ),
        decreases snapshot.rows_data.len() - y,
    {
        let mut x: usize = 0;
        while x < snapshot.rows_data[y].cells.len() && x < cols as usize
            invariant
                paint@.len() == cols * rows,
                total == cols * rows,
                y < rows,
                y < snapshot.rows_data@.len(),
                x <= cols,
                x <= snapshot.rows_data@[y as int].cells@.len(),
                forall|a: int, b: int|
                    0 <= a < cols && 0 <= b < rows ==> #[trigger] paint@[b * cols + a] == painted(
                        *snapshot,
                        earlier,
                        cols as int,
                        a,
                        b,
                        b < y || (b == y && a < x),
                    ),
            decreases snapshot.rows_data[y as int].cells.len() - x,
        {
            proof {
                lemma_position(cols as int, rows as int, x as int, y as int);
            }
            assert(y * cols <= usize::MAX) by (nonlinear_arith)
                requires
                    0 <= y * cols + x < total,
                    total <= usize::MAX,
                    0 <= x,
            ;
            let ghost before = paint@;
            let at: usize = y * cols as usize + x;
            paint.set(at, paint_of(&snapshot.rows_data[y].cells[x]));
            proof {
                assert forall|a: int, b: int| 0 <= a < cols && 0 <= b < rows implies #[trigger] paint@[b
                    * cols + a] == painted(
                    *snapshot,
                    earlier,
                    cols as int,
                    a,
                    b,
                    b < y || (b == y && a < x + 1),
                ) by {
                    lemma_position(cols as int, rows as int, a, b);
                    assert(before[b * cols + a] == painted(
                        *snapshot,
                        earlier,
                        cols as int,
                        a,
                        b,
                        b < y || (b == y && a < x),
                    ));
                    if a != x || b != y {
                        lemma_positions_differ(cols as int, x as int, y as int, a, b);
                    }
                }
            }
            x += 1;
        }
        proof {
            assert forall|a: int, b: int| 0 <= a < cols && 0 <= b < rows implies #[trigger] paint@[b
                * cols + a] == painted(*snapshot, earlier, cols as int, a, b, b < y + 1) by {
                assert(paint@[b * cols + a] == painted(
                    *snapshot,
                    earlier,
                    cols as int,
                    a,
                    b,
                    b < y || (b == y && a < x),
                ));
            }
        }
        y += 1;
    }
    let ghost before = paint@;
    let cx = snapshot.cursor.x as usize;
    let cy = snapshot.cursor.y as usize;
    if snapshot.cursor.visible && cx < cols as usize && cy < rows as usize {
        proof {
            lemma_position(cols as int, rows as int, cx as int, cy as int);
        }
        assert(cy * cols <= usize::MAX) by (nonlinear_arith)
            requires
                0 <= cy * cols + cx < total,
                total <= usize::MAX,
                0 <= cx,
        ;
        paint.set(cy * cols as usize + cx, Paint::Cursor);
    }
    proof {
        assert forall|a: int, b: int| 0 <= a < cols && 0 <= b < rows implies #[trigger] paint@[b
            * cols + a] == paint_at(*snapshot, earlier, cols as int, a, b) by {
            lemma_position(cols as int, rows as int, a, b);
            assert(before[b * cols + a] == painted(
                *snapshot,
                earlier,
                cols as int,
                a,
                b,
                b < y,
            ));
            if a != cx || b != cy {
                if 0 <= cx < cols {
                    lemma_positions_differ(cols as int, cx as int, cy as int, a, b);
                }
            }
        }
    }
}

fn resize_paint(paint: &mut Vec<Paint>, total: usize)
    ensures
        final(paint)@.len() == total,
        forall|i: int|
            0 <= i < total ==> #[trigger] final(paint)@[i] == earlier_paint(old(paint)@, i),
{
    let ghost earlier = paint@;
    if paint.len() > total {
        paint.truncate(total);
    }
    while paint.len() < total
        invariant
            paint@.len() <= total,
            forall|i: int|
                0 <= i < paint@.len() ==> #[trigger] paint@[i] == earlier_paint(earlier, i),
            earlier.len() > total ==> paint@.len() == total,
            earlier.len() <= total ==> paint@.len() >= earlier.len(),
        decreases total - paint.len(),
    {
        paint.push(Paint::Empty);
    }
}

// ---- the drawing area -----------------------------------------------------------

/// A size that can be drawn on: at least one pixel each way.
pub fn drawable_size(width: u32, height: u32) -> (r: (u32, u32))
    ensures
        r.0 == (if width == 0 { 1 } else { width }),
        r.1 == (if height == 0 { 1 } else { height }),
{
    (if width == 0 {
        1
    } else {
        width
    }, if height == 0 {
        1
    } else {
        height
    })
}

/// The size to which the buffers have to change, if they have to.
pub fn buffer_resize(current: (u32, u32), width: u32, height: u32) -> (r: Option<(u32, u32)>)
    ensures
        ({
            let w: u32 = if width == 0 {
                1
            } else {
                width
            };
            let h: u32 = if height == 0 {
                1
            } else {
                height
            };
            r == (if current.0 == w && current.1 == h {
                None
            } else {
                Some((w, h))
            })
        }),
{
    let (w, h) = drawable_size(width, height);
    if w == current.0 && h == current.1 {
        None
    } else {
        Some((w, h))
    }
}

/// Columns of the test pattern.
pub const PATTERN_COLS: u32 = 16;

/// Rows of the test pattern.
pub const PATTERN_ROWS: u32 = 9;

/// A rectangle in pixels; right and bottom lie outside.
#[derive(Debug, Clone, Copy, PartialEq, Eq, Structural)]
pub struct PixelRect {
    pub left: i32,
    pub top: i32,
    pub right: i32,
    pub bottom: i32,
}

/// The extent of a pattern cell along one axis.
pub open spec fn pattern_step(size: u32, count: u32) -> int {
    if size / count == 0 {
        1
    } else {
        (size / count) as int
    }
}

/// The rectangle of a pattern cell, inside a gutter of one pixel.
pub open spec fn pattern_rect(width: u32, height: u32, gx: int, gy: int) -> PixelRect {
    let cw = pattern_step(width, PATTERN_COLS);
    let ch = pattern_step(height, PATTERN_ROWS);
    PixelRect {
        left: (gx * cw + 1) as i32,
        top: (gy * ch + 1) as i32,
        right: (gx * cw + cw - 1) as i32,
        bottom: (gy * ch + ch - 1) as i32,
    }
}

/// The rectangle that a cell of the test pattern fills on a drawing area, or
/// none where the area leaves no room for it.
pub fn pattern_cell(width: u32, height: u32, gx: u32, gy: u32) -> (r: Option<PixelRect>)
    requires
        width <= i32::MAX,
        height <= i32::MAX,
        gx < PATTERN_COLS,
        gy < PATTERN_ROWS,
    ensures
        r == ({
            let rect = pattern_rect(width, height, gx as int, gy as int);
            if rect.right <= rect.left || rect.bottom <= rect.top {
                None
            } else {
                Some(rect)
            }
        }),
{
    let mut cw: u32 = width / PATTERN_COLS;
    if cw == 0 {
        cw = 1;
    }
    let mut ch: u32 = height / PATTERN_ROWS;
    if ch == 0 {
        ch = 1;
    }
    proof {
        let w = cw as int;
        let h = ch as int;
        assert(0 <= gx * w + w <= 16 * w) by (nonlinear_arith)
            requires
                0 <= gx < 16,
                w >= 0,
        ;
        assert(0 <= gy * h + h <= 9 * h) by (nonlinear_arith)
            requires
                0 <= gy < 9,
                h >= 0,
        ;
        assert(0 <= gx * w) by (nonlinear_arith)
            requires
                0 <= gx,
                w >= 0,
        ;
        assert(0 <= gy * h) by (nonlinear_arith)
            requires
                0 <= gy,
                h >= 0,
        ;
    }
    let x: u32 = gx * cw;
    let y: u32 = gy * ch;
    let rect = PixelRect {
        left: x as i32 + 1,
        top: y as i32 + 1,
        right: (x + cw) as i32 - 1,
        bottom: (y + ch) as i32 - 1,
    };
    if rect.right <= rect.left || rect.bottom <= rect.top {
        None
    } else {
        Some(rect)
    }
}

/// The cells of the test pattern lie on the drawing area.
pub proof fn pattern_stays_inside(width: u32, height: u32, gx: int, gy: int)
    requires
        PATTERN_COLS <= width <= i32::MAX,
        PATTERN_ROWS <= height <= i32::MAX,
        0 <= gx < PATTERN_COLS,
        0 <= gy < PATTERN_ROWS,
    ensures
        ({
            let rect = pattern_rect(width, height, gx, gy);
            0 < rect.left && 0 < rect.top && rect.right < width && rect.bottom < height
        }),
{
    let w = (width / PATTERN_COLS) as int;
    let h = (height / PATTERN_ROWS) as int;
    assert(0 <= gx * w && gx * w + w <= 16 * w) by (nonlinear_arith)
        requires
            0 <= gx < 16,
            w >= 0,
    ;
    assert(0 <= gy * h && gy * h + h <= 9 * h) by (nonlinear_arith)
        requires
            0 <= gy < 9,
            h >= 0,
    ;
}

/// What a position shows: the cursor wherever it is visible, over any cell; a
/// cell with a character above the space in its own two colors; any other cell
/// in its background; and where there is no cell, what was there before.
pub proof fn positions_show_their_cells(
    snapshot: GridSnapshot,
    earlier: Seq<Paint>,
    cols: int,
    x: int,
    y: int,
)
    ensures
        ({
            let paint = paint_at(snapshot, earlier, cols, x, y);
            let covered = snapshot.cursor.visible && snapshot.cursor.x == x && snapshot.cursor.y
                == y;
            let within = 0 <= y < snapshot.rows_data.len() && 0 <= x
                < snapshot.rows_data[y].cells.len();
            let cell = snapshot.rows_data[y].cells[x];
            &&& covered ==> paint == Paint::Cursor
            &&& !covered && within && cell.codepoint > 32 ==> paint == (Paint::Text {
                bg: cell.style.bg,
                fg: cell.style.fg,
            })
            &&& !covered && within && cell.codepoint <= 32 ==> paint == (Paint::Blank {
                bg: cell.style.bg,
            })
            &&& !covered && !within && y * cols + x < earlier.len() ==> paint == earlier[y * cols
                + x]
            &&& !covered && !within && y * cols + x >= earlier.len() ==> paint == Paint::Empty
        }),
{
}

/// The pattern has 16 columns and 9 rows of equal cells, each one sixteenth of
/// the width and one ninth of the height, with a gutter of one pixel around
/// each.
pub proof fn pattern_cells_are_equal(width: u32, height: u32, gx: int, gy: int)
    requires
        width <= i32::MAX,
        height <= i32::MAX,
        width >= 16,
        height >= 9,
        0 <= gx < 15,
        0 <= gy < 8,
    ensures
        ({
            let a = pattern_rect(width, height, gx, gy);
            let b = pattern_rect(width, height, gx + 1, gy + 1);
            &&& a.right - a.left == width / 16 - 2
            &&& a.bottom - a.top == height / 9 - 2
            &&& b.left == a.right + 2
            &&& b.top == a.bottom + 2
            &&& pattern_rect(width, height, 0, 0).left == 1
            &&& pattern_rect(width, height, 0, 0).top == 1
        }),
{
    let cw = pattern_step(width, PATTERN_COLS);
    let ch = pattern_step(height, PATTERN_ROWS);
    assert(cw == width / 16);
    assert(ch == height / 9);
    assert((gx + 1) * cw == gx * cw + cw) by (nonlinear_arith);
    assert((gy + 1) * ch == gy * ch + ch) by (nonlinear_arith);
    assert(0 <= (gx + 1) * cw <= 15 * cw) by (nonlinear_arith)
        requires
            0 <= gx < 15,
            cw >= 0,
    ;
    assert(0 <= (gy + 1) * ch <= 8 * ch) by (nonlinear_arith)
        requires
            0 <= gy < 8,
            ch >= 0,
    ;
    assert(0 <= gx * cw) by (nonlinear_arith)
        requires
            0 <= gx,
            cw >= 0,
    ;
    assert(0 <= gy * ch) by (nonlinear_arith)
        requires
            0 <= gy,
            ch >= 0,
    ;
}

} // verus!

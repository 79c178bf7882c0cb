//! What one frame of the engine's render state says.
//!
//! The engine answers queries one by one, and each can fail. A report holds the
//! answers as plain values, absent where a query failed; the functions here
//! turn reports into values that are always usable.
use vstd::prelude::*;

use crate::term::snapshot::{
    self, read_style, CellWidth, CursorStyle, StyleReport, StyleSnapshot,
};
use crate::term::terminal::TermError;

verus! {

/// How much has to be redrawn.
#[derive(Debug, Clone, Copy, PartialEq, Eq, Structural)]
pub enum Dirty {
    /// Nothing changed since the last update.
    Clean,
    /// Some rows changed.
    Partial,
    /// Everything may have changed.
    Full,
}

/// The engine's own account of what changed.
#[derive(Debug, Clone, Copy, PartialEq, Eq, Structural)]
pub enum DirtyReport {
    Unchanged,
    SomeRows,
    /// Everything, or a value without a name.
    Other,
}

impl Dirty {
    /// What an account amounts to.
    pub open spec fn of(report: Option<DirtyReport>) -> Dirty {
        match report {
            Some(DirtyReport::Unchanged) => Dirty::Clean,
            Some(DirtyReport::SomeRows) => Dirty::Partial,
            _ => Dirty::Full,
        }
    }

    /// What an account amounts to. Whatever is not known to be less is a full
    /// redraw, a failed query included.
    pub fn from_raw(report: Option<DirtyReport>) -> (r: Self)
        ensures
            r == Dirty::of(report),
    {
        match report {
            Some(DirtyReport::Unchanged) => Dirty::Clean,
            Some(DirtyReport::SomeRows) => Dirty::Partial,
            _ => Dirty::Full,
        }
    }

    /// Whether anything has to be redrawn.
    pub fn needs_redraw(self) -> (r: bool)
        ensures
            r == (self != Dirty::Clean),
    {
        match self {
            Dirty::Clean => false,
            _ => true,
        }
    }
}

// ---- the handles ----------------------------------------------------------------

/// A handle that reading frames needs.
#[derive(Debug, Clone, Copy, PartialEq, Eq, Structural)]
pub enum RenderHandle {
    State,
    RowIterator,
    RowCells,
}

/// The handles in the order in which they are allocated.
pub open spec fn handle_order() -> Seq<RenderHandle> {
    seq![RenderHandle::State, RenderHandle::RowIterator, RenderHandle::RowCells]
}

/// Which handles are allocated. They are allocated one after the other and
/// released last to first.
#[derive(Debug)]
pub struct RenderState {
    live: usize,
}

impl RenderState {
    /// The allocated handles, in order.
    pub closed spec fn view(&self) -> Seq<RenderHandle> {
        handle_order().take(self.live as int)
    }

    /// The handles are the first ones of the order.
    pub closed spec fn wf(&self) -> bool {
        self.live <= 3
    }

    /// Nothing is allocated yet.
    pub fn new() -> (r: Self)
        ensures
            r.wf(),
            r@ == Seq::<RenderHandle>::empty(),
    {
        let r = RenderState { live: 0 };
        assert(r@ =~= Seq::<RenderHandle>::empty());
        r
    }

    /// The handle to allocate next; none when all are there.
    pub fn next_handle(&self) -> (r: Option<RenderHandle>)
        requires
            self.wf(),
        ensures
            r is None <==> self@ == handle_order(),
            r matches Some(handle) ==> self@.push(handle) == handle_order().take(
                self@.len() as int + 1,
            ),
    {
        proof {
            assert(self@.len() == self.live);
            assert(handle_order().take(3) =~= handle_order());
            if self.live < 3 {
                assert(handle_order().take(self.live + 1) =~= self@.push(
                    handle_order()[self.live as int],
                ));
            }
        }
        if self.live == 0 {
            Some(RenderHandle::State)
        } else if self.live == 1 {
            Some(RenderHandle::RowIterator)
        } else if self.live == 2 {
            Some(RenderHandle::RowCells)
        } else {
            None
        }
    }

    /// Takes in how the engine answered the allocation of the next handle.
    pub fn allocated(&mut self, code: i32) -> (r: Result<(), TermError>)
        requires
            old(self).wf(),
            old(self)@ != handle_order(),
        ensures
            final(self).wf(),
            code == 0 ==> r is Ok && final(self)@ == handle_order().take(
                old(self)@.len() as int + 1,
            ),
            code != 0 ==> r == Err::<(), TermError>(TermError::Ffi(code)) && final(self)@ == old(
                self,
            )@,
    {
        assert(handle_order().take(3) =~= handle_order());
        if code != 0 {
            return Err(TermError::Ffi(code));
        }
        self.live = self.live + 1;
        Ok(())
    }

    /// The handles to release, in order; nothing is allocated afterwards.
    pub fn release(&mut self) -> (r: Vec<RenderHandle>)
        requires
            old(self).wf(),
        ensures
            final(self).wf(),
            final(self)@ == Seq::<RenderHandle>::empty(),
            r@ == old(self)@.reverse(),
    {
        let mut out: Vec<RenderHandle> = Vec::new();
        if self.live >= 3 {
            out.push(RenderHandle::RowCells);
        }
        if self.live >= 2 {
            out.push(RenderHandle::RowIterator);
        }
        if self.live >= 1 {
            out.push(RenderHandle::State);
        }
        assert(out@ =~= self@.reverse());
        self.live = 0;
        assert(self@ =~= Seq::<RenderHandle>::empty());
        out
    }

    /// What an update amounts to, by how the engine answered it and by its
    /// account of what changed.
    pub fn update(&self, code: i32, report: Option<DirtyReport>) -> (r: Result<Dirty, TermError>)
        ensures
            r == (if code == 0 {
                Ok::<Dirty, TermError>(Dirty::of(report))
            } else {
                Err::<Dirty, TermError>(TermError::Ffi(code))
            }),
    {
        if code != 0 {
            return Err(TermError::Ffi(code));
        }
        Ok(Dirty::from_raw(report))
    }
}

/// Cursor style as the engine derives it from DECSCUSR.
#[derive(Debug, Clone, Copy, PartialEq, Eq, Structural)]
pub enum CursorVisualStyle {
    Bar,
    Block,
    Underline,
    /// Hollow block, such as that of a window without focus.
    HollowBlock,
}

impl CursorVisualStyle {
    /// The same style among those of a snapshot.
    pub open spec fn in_snapshot(self) -> CursorStyle {
        match self {
            CursorVisualStyle::Bar => CursorStyle::Bar,
            CursorVisualStyle::Block => CursorStyle::Block,
            CursorVisualStyle::Underline => CursorStyle::Underline,
            CursorVisualStyle::HollowBlock => CursorStyle::HollowBlock,
        }
    }

    /// The same style among those of a snapshot.
    pub fn as_snapshot(self) -> (r: CursorStyle)
        ensures
            r == self.in_snapshot(),
    {
        match self {
            CursorVisualStyle::Bar => CursorStyle::Bar,
            CursorVisualStyle::Block => CursorStyle::Block,
            CursorVisualStyle::Underline => CursorStyle::Underline,
            CursorVisualStyle::HollowBlock => CursorStyle::HollowBlock,
        }
    }
}

impl Default for CursorVisualStyle {
    fn default() -> (r: Self)
        ensures
            r == CursorVisualStyle::Block,
    {
        CursorVisualStyle::Block
    }
}

/// The cursor of a frame. Its place is meaningful only within the viewport.
#[derive(Debug, Clone, Copy, PartialEq, Eq, Structural)]
pub struct CursorInfo {
    pub style: CursorVisualStyle,
    /// Visible by the terminal's modes.
    pub visible: bool,
    pub blinking: bool,
    /// In a password field.
    pub password_input: bool,
    /// Within the visible viewport.
    pub in_viewport: bool,
    pub x: u16,
    pub y: u16,
    /// On the tail of a wide character.
    pub wide_tail: bool,
}

impl CursorInfo {
    /// The style among those of a snapshot.
    pub fn style_as_snapshot(&self) -> (r: CursorStyle)
        ensures
            r == self.style.in_snapshot(),
    {
        self.style.as_snapshot()
    }
}

/// Default colors and the 256-color palette.
#[derive(Debug, Clone, Copy)]
pub struct Colors {
    pub background: (u8, u8, u8),
    pub foreground: (u8, u8, u8),
    /// The cursor color, when one was set.
    pub cursor: Option<(u8, u8, u8)>,
    pub palette: [(u8, u8, u8); 256],
}

/// The engine's answers about one frame.
#[derive(Debug, Clone, Copy)]
pub struct Frame {
    pub cols: Option<u16>,
    pub rows: Option<u16>,
    pub dirty: Option<DirtyReport>,
    pub colors: Option<Colors>,
    pub cursor_style: Option<CursorVisualStyle>,
    pub cursor_visible: Option<bool>,
    pub cursor_blinking: Option<bool>,
    pub cursor_password_input: Option<bool>,
    pub cursor_in_viewport: Option<bool>,
    pub cursor_x: Option<u16>,
    pub cursor_y: Option<u16>,
    pub cursor_wide_tail: Option<bool>,
}

/// An answer, or what stands for a missing one.
pub open spec fn answer<T>(reply: Option<T>, otherwise: T) -> T {
    match reply {
        Some(v) => v,
        None => otherwise,
    }
}

impl Frame {
    /// Viewport width in cells.
    pub fn cols(&self) -> (r: u16)
        ensures
            r == answer(self.cols, 0),
    {
        self.cols.unwrap_or(0)
    }

    /// Viewport height in cells.
    pub fn rows(&self) -> (r: u16)
        ensures
            r == answer(self.rows, 0),
    {
        self.rows.unwrap_or(0)
    }

    /// How much of this frame has to be redrawn.
    pub fn dirty(&self) -> (r: Dirty)
        ensures
            r == Dirty::of(self.dirty),
    {
        Dirty::from_raw(self.dirty)
    }

    /// The colors; black, white and a black palette where the query failed.
    pub fn colors(&self) -> (r: Colors)
        ensures
            match self.colors {
                Some(colors) => r == colors,
                None => {
                    &&& r.background == (0u8, 0u8, 0u8)
                    &&& r.foreground == (255u8, 255u8, 255u8)
                    &&& r.cursor is None
                    &&& forall|i: int| 0 <= i < 256 ==> #[trigger] r.palette[i] == (0u8, 0u8, 0u8)
                },
            },
    {
        match self.colors {
            Some(colors) => colors,
            None => Colors {
                background: (0, 0, 0),
                foreground: (255, 255, 255),
                cursor: None,
                palette: [(0, 0, 0);256],
            },
        }
    }

    /// Whether the cursor is within the viewport.
    pub open spec fn shows_cursor(&self) -> bool {
        self.cursor_in_viewport == Some(true)
    }

    /// The cursor that the answers give.
    pub open spec fn cursor_info(&self) -> CursorInfo {
        CursorInfo {
            style: answer(self.cursor_style, CursorVisualStyle::Block),
            visible: answer(self.cursor_visible, true),
            blinking: answer(self.cursor_blinking, false),
            password_input: answer(self.cursor_password_input, false),
            in_viewport: self.shows_cursor(),
            x: if self.shows_cursor() {
                answer(self.cursor_x, 0)
            } else {
                0
            },
            y: if self.shows_cursor() {
                answer(self.cursor_y, 0)
            } else {
                0
            },
            wide_tail: self.shows_cursor() && answer(self.cursor_wide_tail, false),
        }
    }

    /// The cursor. Outside the viewport it has no place.
    pub fn cursor(&self) -> (r: CursorInfo)
        ensures
            r == self.cursor_info(),
    {
        let in_viewport = self.cursor_in_viewport.unwrap_or(false);
        CursorInfo {
            style: self.cursor_style.unwrap_or(CursorVisualStyle::Block),
            visible: self.cursor_visible.unwrap_or(true),
            blinking: self.cursor_blinking.unwrap_or(false),
            password_input: self.cursor_password_input.unwrap_or(false),
            in_viewport,
            x: if in_viewport {
                self.cursor_x.unwrap_or(0)
            } else {
                0
            },
            y: if in_viewport {
                self.cursor_y.unwrap_or(0)
            } else {
                0
            },
            wide_tail: in_viewport && self.cursor_wide_tail.unwrap_or(false),
        }
    }
}

/// The selected columns of a row, both ends included.
#[derive(Debug, Clone, Copy, PartialEq, Eq, Structural)]
pub struct RowSelection {
    pub start_x: u16,
    pub end_x: u16,
}

/// The engine's answers about one row of a frame.
#[derive(Debug, Clone, Copy, PartialEq, Eq)]
pub struct RowRef {
    pub dirty: Option<bool>,
    /// Absent where the row is outside the selection, too.
    pub selection: Option<RowSelection>,
}

impl RowRef {
    /// Whether the row changed since the last update.
    pub fn dirty(&self) -> (r: bool)
        ensures
            r == answer(self.dirty, false),
    {
        self.dirty.unwrap_or(false)
    }

    /// The selected columns, if the row has any.
    pub fn selection(&self) -> (r: Option<RowSelection>)
        ensures
            r == self.selection,
    {
        self.selection
    }
}

/// The engine's answers about one cell of a frame.
#[derive(Debug, Clone, Copy, PartialEq, Eq)]
pub struct CellRef {
    pub codepoint: Option<u32>,
    pub wide: Option<i32>,
    pub has_hyperlink: Option<bool>,
    pub has_styling: Option<bool>,
    pub selected: Option<bool>,
    pub style: Option<StyleReport>,
}

impl CellRef {
    /// The primary Unicode scalar; 0 for an empty cell.
    pub fn codepoint(&self) -> (r: u32)
        ensures
            r == answer(self.codepoint, 0),
    {
        self.codepoint.unwrap_or(0)
    }

    /// The width class.
    pub fn width(&self) -> (r: CellWidth)
        ensures
            r == CellWidth::of(answer(self.wide, 0)),
    {
        CellWidth::from_raw(self.wide.unwrap_or(0))
    }

    /// Whether the cell carries a hyperlink.
    pub fn has_hyperlink(&self) -> (r: bool)
        ensures
            r == answer(self.has_hyperlink, false),
    {
        self.has_hyperlink.unwrap_or(false)
    }

    /// Whether the cell has any styling.
    pub fn has_styling(&self) -> (r: bool)
        ensures
            r == answer(self.has_styling, false),
    {
        self.has_styling.unwrap_or(false)
    }

    /// Whether the cell is selected.
    pub fn selected(&self) -> (r: bool)
        ensures
            r == answer(self.selected, false),
    {
        self.selected.unwrap_or(false)
    }

    /// The visual style.
    pub fn style(&self) -> (r: StyleSnapshot)
        ensures
            r == snapshot::style_of(self.style),
    {
        read_style(self.style)
    }
}

/// Only what is known to be unchanged is not redrawn, and only what is known
/// to concern some rows is redrawn by rows.
pub proof fn unknown_changes_redraw_everything(report: Option<DirtyReport>)
    ensures
        Dirty::of(report) == Dirty::Clean <==> report == Some(DirtyReport::Unchanged),
        Dirty::of(report) == Dirty::Partial <==> report == Some(DirtyReport::SomeRows),
        Dirty::of(None) == Dirty::Full,
{
}

/// Every answer about the cursor is kept. Without one it is a steady, visible
/// block; its place counts only where it is known to be within the viewport.
pub proof fn cursors_keep_the_answers(frame: Frame)
    ensures
        frame.cursor_style matches Some(v) ==> frame.cursor_info().style == v,
        frame.cursor_style is None ==> frame.cursor_info().style == CursorVisualStyle::Block,
        frame.cursor_visible matches Some(v) ==> frame.cursor_info().visible == v,
        frame.cursor_visible is None ==> frame.cursor_info().visible,
        frame.cursor_blinking matches Some(v) ==> frame.cursor_info().blinking == v,
        frame.cursor_blinking is None ==> !frame.cursor_info().blinking,
        frame.cursor_password_input matches Some(v) ==> frame.cursor_info().password_input == v,
        frame.cursor_password_input is None ==> !frame.cursor_info().password_input,
        frame.cursor_info().in_viewport <==> frame.cursor_in_viewport == Some(true),
        frame.cursor_in_viewport == Some(true) && frame.cursor_x is Some
            ==> frame.cursor_info().x == frame.cursor_x->0,
        frame.cursor_in_viewport == Some(true) && frame.cursor_y is Some
            ==> frame.cursor_info().y == frame.cursor_y->0,
        frame.cursor_in_viewport == Some(true) && frame.cursor_wide_tail is Some
            ==> frame.cursor_info().wide_tail == frame.cursor_wide_tail->0,
        frame.cursor_in_viewport != Some(true) ==> frame.cursor_info().x == 0
            && frame.cursor_info().y == 0 && !frame.cursor_info().wide_tail,
{
}

/// The styles of the cursor keep their names in a snapshot.
pub proof fn cursor_styles_keep_their_names()
    ensures
        CursorVisualStyle::Bar.in_snapshot() == CursorStyle::Bar,
        CursorVisualStyle::Block.in_snapshot() == CursorStyle::Block,
        CursorVisualStyle::Underline.in_snapshot() == CursorStyle::Underline,
        CursorVisualStyle::HollowBlock.in_snapshot() == CursorStyle::HollowBlock,
{
}

/// The frame state is allocated first, then the row iterator, then the row
/// cells.
pub proof fn handles_in_order()
    ensures
        handle_order() == seq![
            RenderHandle::State,
            RenderHandle::RowIterator,
            RenderHandle::RowCells,
        ],
{
}

} // verus!

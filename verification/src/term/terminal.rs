//! The terminal as the rest of the program sees it: its geometry, its
//! selection, the bytes it wants to send back, and the policy that guards the
//! clipboard.
//!
//! The vt engine itself is a C library. What this module wants done by it is
//! queued as a [`VtCommand`]; what it answers is handed in as plain values, the
//! standing answers together as [`VtReadings`].
use vstd::prelude::*;
use vstd::slice::slice_to_vec;
use vstd::utf8::*;

use crate::term::osc52::{self, parse_osc52, respond_read, ClipboardReadPolicy, Osc52Request};
use crate::term::osc7;
use crate::term::render_state;
use crate::term::selection::{
    self, clamp_cell, spans_of, SelectionMode, SelectionSpan, SelectionState,
};
use crate::term::snapshot::{self, fill_snapshot, GridReport, GridSnapshot};
use crate::text::{self, push_decimal, trim_end};

verus! {

/// Construction options.
#[derive(Debug, Clone, Copy, PartialEq, Eq, Structural)]
pub struct VtOptions {
    /// Byte budget for scrollback; the engine evicts whole pages.
    pub max_scrollback: usize,
    /// Cell width in pixels, for reports in pixel space.
    pub cell_width_px: u32,
    /// Cell height in pixels.
    pub cell_height_px: u32,
}

impl Default for VtOptions {
    fn default() -> (r: Self)
        ensures
            r == (VtOptions { max_scrollback: 12_000_000, cell_width_px: 1, cell_height_px: 1 }),
    {
        VtOptions { max_scrollback: 12_000_000, cell_width_px: 1, cell_height_px: 1 }
    }
}

/// Why the engine could not be constructed or driven.
#[derive(Debug, Clone, Copy, PartialEq, Eq, Structural)]
pub enum TermError {
    /// The engine answered with this error code.
    Ffi(i32),
    /// The engine reported success but gave no handle.
    NullHandle,
}

/// The decimal notation of a possibly negative number.
pub open spec fn signed_decimal(v: int) -> Seq<char> {
    if v < 0 {
        "-"@ + text::decimal((-v) as nat)
    } else {
        text::decimal(v as nat)
    }
}

impl TermError {
    /// The message shown for this error.
    pub open spec fn message(self) -> Seq<char> {
        match self {
            TermError::Ffi(code) => "libghostty-vt returned error code "@ + signed_decimal(
                code as int,
            ),
            TermError::NullHandle => "libghostty-vt returned a null terminal handle"@,
        }
    }

    /// The message shown for this error.
    pub fn to_string(&self) -> (r: String)
        ensures
            r@ == self.message(),
    {
        match self {
            TermError::Ffi(code) => {
                let mut s = "libghostty-vt returned error code ".to_owned();
                if *code < 0 {
                    s.append("-");
                    push_decimal(&mut s, (-(*code as i64)) as u64);
                } else {
                    push_decimal(&mut s, *code as u64);
                }
                s
            },
            TermError::NullHandle => "libghostty-vt returned a null terminal handle".to_owned(),
        }
    }
}

/// How the engine answered a request: with an error code, 0 for success, and
/// for a construction with or without a handle.
#[derive(Debug, Clone, Copy, PartialEq, Eq, Structural)]
pub struct Created {
    pub code: i32,
    pub has_handle: bool,
}

/// A request to the engine.
#[derive(Debug, Clone, PartialEq, Eq)]
pub enum VtCommand {
    /// Construct the engine.
    Create { cols: u16, rows: u16, max_scrollback: usize },
    /// Change the geometry.
    Resize { cols: u16, rows: u16, cell_width_px: u32, cell_height_px: u32 },
    /// Run these bytes through the stream parser.
    Write(Vec<u8>),
    /// Scroll the viewport by rows; up is negative.
    ScrollDelta(isize),
    /// Pin the viewport to the active area.
    ScrollBottom,
    /// Scroll to the oldest retained row.
    ScrollTop,
    /// Resolve both ends of this selection and install it.
    Select(SelectionState),
    /// Drop the installed selection.
    Deselect,
}

/// What a [`VtCommand`] asks for.
#[verifier::ext_equal]
pub enum CommandModel {
    Create { cols: u16, rows: u16, max_scrollback: usize },
    Resize { cols: u16, rows: u16, cell_width_px: u32, cell_height_px: u32 },
    Write(Seq<u8>),
    ScrollDelta(isize),
    ScrollBottom,
    ScrollTop,
    Select(SelectionState),
    Deselect,
}

impl View for VtCommand {
    type V = CommandModel;

    open spec fn view(&self) -> CommandModel {
        match self {
            VtCommand::Create { cols, rows, max_scrollback } => CommandModel::Create {
                cols: *cols,
                rows: *rows,
                max_scrollback: *max_scrollback,
            },
            VtCommand::Resize { cols, rows, cell_width_px, cell_height_px } => {
                CommandModel::Resize {
                    cols: *cols,
                    rows: *rows,
                    cell_width_px: *cell_width_px,
                    cell_height_px: *cell_height_px,
                }
            },
            VtCommand::Write(bytes) => CommandModel::Write(bytes@),
            VtCommand::ScrollDelta(delta) => CommandModel::ScrollDelta(*delta),
            VtCommand::ScrollBottom => CommandModel::ScrollBottom,
            VtCommand::ScrollTop => CommandModel::ScrollTop,
            VtCommand::Select(state) => CommandModel::Select(*state),
            VtCommand::Deselect => CommandModel::Deselect,
        }
    }
}

/// The engine's scrollbar: rows in all, rows above the viewport, rows in it.
#[derive(Debug, Clone, Copy, PartialEq, Eq, Structural)]
pub struct Scrollbar {
    pub total: usize,
    pub offset: usize,
    pub len: usize,
}

/// The engine's standing answers, absent where a query failed.
#[derive(Debug, Clone, PartialEq, Eq)]
pub struct VtReadings {
    /// Whether the viewport follows the active area.
    pub viewport_active: Option<bool>,
    pub scrollback_rows: Option<usize>,
    pub total_rows: Option<usize>,
    pub scrollbar: Option<Scrollbar>,
    /// Whether the program has claimed mouse reporting.
    pub mouse_tracking: Option<bool>,
    /// Whether mode 2004 is set.
    pub bracketed_paste: Option<bool>,
    pub kitty_flags: Option<u8>,
    /// The working directory in the bytes in which the shell last reported it.
    pub pwd: Option<Vec<u8>>,
}

impl VtReadings {
    /// No answer at all.
    pub open spec fn unanswered() -> VtReadings {
        VtReadings {
            viewport_active: None,
            scrollback_rows: None,
            total_rows: None,
            scrollbar: None,
            mouse_tracking: None,
            bracketed_paste: None,
            kitty_flags: None,
            pwd: None,
        }
    }

    /// No answer at all.
    pub fn none() -> (r: Self)
        ensures
            r == VtReadings::unanswered(),
    {
        VtReadings {
            viewport_active: None,
            scrollback_rows: None,
            total_rows: None,
            scrollbar: None,
            mouse_tracking: None,
            bracketed_paste: None,
            kitty_flags: None,
            pwd: None,
        }
    }
}

/// The terminal's own state.
#[derive(Debug)]
pub struct Terminal {
    cols: u16,
    rows: u16,
    cell_width_px: u32,
    cell_height_px: u32,
    selection: Option<SelectionState>,
    responses: Vec<Vec<u8>>,
    commands: Vec<VtCommand>,
    policy: ClipboardReadPolicy,
    write_max_bytes: usize,
    writes: Vec<Vec<u8>>,
    read_pending: bool,
    readings: VtReadings,
}

/// What a [`Terminal`] holds.
#[verifier::ext_equal]
pub struct TerminalModel {
    pub cols: u16,
    pub rows: u16,
    pub cell_width_px: u32,
    pub cell_height_px: u32,
    pub selection: Option<SelectionState>,
    /// Bytes to send back to the program, oldest first.
    pub responses: Seq<Seq<u8>>,
    /// Requests to the engine, oldest first.
    pub commands: Seq<CommandModel>,
    pub policy: ClipboardReadPolicy,
    pub write_max_bytes: usize,
    /// Clipboard writes not yet taken, oldest first.
    pub writes: Seq<Seq<u8>>,
    /// Whether a program is waiting for the clipboard.
    pub read_pending: bool,
    pub readings: VtReadings,
}

/// What a list of requests asks for.
pub open spec fn command_models(list: Seq<VtCommand>) -> Seq<CommandModel> {
    list.map_values(|c: VtCommand| c@)
}

proof fn lemma_chunks_push(list: Seq<Vec<u8>>, v: Vec<u8>)
    ensures
        text::contents(list.push(v)) == text::contents(list).push(v@),
{
    assert(text::contents(list.push(v)) =~= text::contents(list).push(v@));
}

/// The state after a chunk of output: it goes to the engine, and the clipboard
/// request in it, if any, is taken in. A read is taken in only where the policy
/// allows it.
pub open spec fn after_feed(t: TerminalModel, bytes: Seq<u8>) -> TerminalModel {
    if bytes.len() == 0 {
        t
    } else {
        let request = osc52::first_request(bytes, 0, t.write_max_bytes as nat);
        TerminalModel {
            commands: t.commands.push(CommandModel::Write(bytes)),
            writes: match request {
                Some(osc52::RequestModel::Write(data)) => t.writes.push(data),
                _ => t.writes,
            },
            read_pending: t.read_pending || (request == Some(osc52::RequestModel::Read) && t.policy
                == ClipboardReadPolicy::Allow),
            ..t
        }
    }
}

/// The state after the shell has supplied the clipboard: a waiting read is
/// answered if the policy still allows it, and is no longer waiting.
pub open spec fn after_answer(t: TerminalModel, clipboard: Seq<u8>) -> TerminalModel {
    TerminalModel {
        read_pending: false,
        responses: if t.read_pending && t.policy == ClipboardReadPolicy::Allow {
            t.responses.push(osc52::read_response(clipboard))
        } else {
            t.responses
        },
        ..t
    }
}

/// The state after a change of policy. A read that waits is dropped when reads
/// become refused.
pub open spec fn after_policy(t: TerminalModel, policy: ClipboardReadPolicy, max: usize) -> TerminalModel {
    TerminalModel {
        policy,
        write_max_bytes: max,
        read_pending: t.read_pending && policy == ClipboardReadPolicy::Allow,
        ..t
    }
}

/// The state with one more request to the engine.
pub open spec fn with_command(t: TerminalModel, c: CommandModel) -> TerminalModel {
    TerminalModel { commands: t.commands.push(c), ..t }
}

/// The cell of the grid nearest to column `x` of row `y`.
pub open spec fn nearest(t: TerminalModel, x: u16, y: u16) -> (u16, u16) {
    selection::clamped(x, y, t.cols, t.rows)
}

/// The state after a press: a selection of the one cell is requested.
pub open spec fn after_press(t: TerminalModel, x: u16, y: u16, mode: SelectionMode) -> TerminalModel {
    with_command(
        t,
        CommandModel::Select(
            SelectionState { mode, anchor: nearest(t, x, y), cursor: nearest(t, x, y) },
        ),
    )
}

/// The state after a drag: the selection, if there is one, is requested anew up
/// to the cell.
pub open spec fn after_drag(t: TerminalModel, x: u16, y: u16) -> TerminalModel {
    match t.selection {
        Some(state) => with_command(
            t,
            CommandModel::Select(SelectionState { cursor: nearest(t, x, y), ..state }),
        ),
        None => t,
    }
}

/// How the engine answered a request for the selected text.
#[derive(Debug, Clone, Copy, PartialEq, Eq, Structural)]
pub enum FormatStatus {
    Success,
    /// There is no selection to format.
    NoValue,
    Other,
}

/// The length of the selected text as the engine gives it in advance.
#[derive(Debug, Clone, Copy, PartialEq, Eq, Structural)]
pub struct TextSize {
    pub status: FormatStatus,
    pub needed: usize,
}

/// The selected text as the engine wrote it into a buffer.
#[derive(Debug, Clone, PartialEq, Eq)]
pub struct TextFill {
    pub status: FormatStatus,
    pub buffer: Vec<u8>,
    pub written: usize,
}

/// The bytes that the engine wrote.
pub open spec fn filled(fill: TextFill) -> Seq<u8> {
    if fill.written <= fill.buffer.len() {
        fill.buffer@.take(fill.written as int)
    } else {
        fill.buffer@
    }
}

/// What the engine answered for one cell of a viewport row.
#[derive(Debug, Clone, Copy, PartialEq, Eq, Structural)]
pub enum ViewportCell {
    /// The cell lies outside the viewport.
    Unresolved,
    /// The cell could not be read.
    Unreadable,
    /// The code point of the cell, if that could be read.
    Read(Option<u32>),
}

/// The characters of a viewport row up to the first cell outside it; empty
/// cells and code points that are no character are passed over.
pub open spec fn row_characters(cells: Seq<ViewportCell>) -> Seq<char>
    decreases cells.len(),
{
    if cells.len() == 0 || cells[0] == ViewportCell::Unresolved {
        Seq::empty()
    } else {
        let rest = row_characters(cells.drop_first());
        match cells[0] {
            ViewportCell::Read(Some(cp)) => if cp != 0 && is_scalar(cp) {
                seq![cp as char] + rest
            } else {
                rest
            },
            _ => rest,
        }
    }
}

impl Terminal {
    pub closed spec fn view(&self) -> TerminalModel {
        TerminalModel {
            cols: self.cols,
            rows: self.rows,
            cell_width_px: self.cell_width_px,
            cell_height_px: self.cell_height_px,
            selection: self.selection,
            responses: text::contents(self.responses@),
            commands: command_models(self.commands@),
            policy: self.policy,
            write_max_bytes: self.write_max_bytes,
            writes: text::contents(self.writes@),
            read_pending: self.read_pending,
            readings: self.readings,
        }
    }

    /// The request that constructs the engine for a terminal.
    pub fn creation(cols: u16, rows: u16, opts: VtOptions) -> (r: VtCommand)
        ensures
            r@ == (CommandModel::Create { cols, rows, max_scrollback: opts.max_scrollback }),
    {
        VtCommand::Create { cols, rows, max_scrollback: opts.max_scrollback }
    }

    /// A terminal whose engine was asked for by [`Terminal::creation`], given
    /// how the engine answered.
    pub fn new(cols: u16, rows: u16, opts: VtOptions, created: Created) -> (r: Result<
        Self,
        TermError,
    >)
        ensures
            match r {
                Ok(t) => created.code == 0 && created.has_handle && t@ == (TerminalModel {
                    cols,
                    rows,
                    cell_width_px: opts.cell_width_px,
                    cell_height_px: opts.cell_height_px,
                    selection: None,
                    responses: Seq::empty(),
                    commands: Seq::empty(),
                    policy: ClipboardReadPolicy::Deny,
                    write_max_bytes: crate::config::schema::DEFAULT_CLIPBOARD_WRITE_MAX_BYTES,
                    writes: Seq::empty(),
                    read_pending: false,
                    readings: VtReadings::unanswered(),
                }),
                Err(TermError::Ffi(code)) => created.code != 0 && code == created.code,
                Err(TermError::NullHandle) => created.code == 0 && !created.has_handle,
            },
    {
        if created.code != 0 {
            return Err(TermError::Ffi(created.code));
        }
        if !created.has_handle {
            return Err(TermError::NullHandle);
        }
        let t = Terminal {
            cols,
            rows,
            cell_width_px: opts.cell_width_px,
            cell_height_px: opts.cell_height_px,
            selection: None,
            responses: Vec::new(),
            commands: Vec::new(),
            policy: ClipboardReadPolicy::Deny,
            write_max_bytes: crate::config::schema::DEFAULT_CLIPBOARD_WRITE_MAX_BYTES,
            writes: Vec::new(),
            read_pending: false,
            readings: VtReadings::none(),
        };
        assert(text::contents(t.responses@) =~= Seq::<Seq<u8>>::empty());
        assert(text::contents(t.writes@) =~= Seq::<Seq<u8>>::empty());
        assert(command_models(t.commands@) =~= Seq::<CommandModel>::empty());
        Ok(t)
    }

    /// Grid width in cells.
    pub fn cols(&self) -> (r: u16)
        ensures
            r == self@.cols,
    {
        self.cols
    }

    /// Grid height in cells.
    pub fn rows(&self) -> (r: u16)
        ensures
            r == self@.rows,
    {
        self.rows
    }

    fn command(&mut self, c: VtCommand)
        ensures
            final(self)@ == with_command(old(self)@, c@),
    {
        let ghost before = self.commands@;
        self.commands.push(c);
        assert(command_models(self.commands@) =~= command_models(before).push(c@));
    }

    /// Takes the queued requests to the engine, oldest first.
    pub fn take_commands(&mut self) -> (r: Vec<VtCommand>)
        ensures
            command_models(r@) == old(self)@.commands,
            final(self)@ == (TerminalModel { commands: Seq::empty(), ..old(self)@ }),
    {
        let mut out: Vec<VtCommand> = Vec::new();
        out.append(&mut self.commands);
        assert(command_models(self.commands@) =~= Seq::<CommandModel>::empty());
        out
    }

    /// Takes in the engine's standing answers.
    pub fn observe(&mut self, readings: VtReadings)
        ensures
            final(self)@ == (TerminalModel { readings, ..old(self)@ }),
    {
        self.readings = readings;
    }

    /// Feeds output of the program: the bytes go to the engine, and a
    /// clipboard request among them is taken in under the policy.
    pub fn feed(&mut self, bytes: &[u8])
        ensures
            final(self)@ == after_feed(old(self)@, bytes@),
    {
        if bytes.len() == 0 {
            return;
        }
        match parse_osc52(bytes, self.write_max_bytes) {
            Some(Osc52Request::Write(data)) => {
                proof {
                    lemma_chunks_push(self.writes@, data);
                }
                self.writes.push(data);
            },
            Some(Osc52Request::Read) => {
                let allowed = match self.policy {
                    ClipboardReadPolicy::Allow => true,
                    ClipboardReadPolicy::Deny => false,
                };
                if allowed {
                    self.read_pending = true;
                }
            },
            None => {},
        }
        self.command(VtCommand::Write(slice_to_vec(bytes)));
    }

    /// The request that changes the geometry of the engine.
    pub fn resizing(&self, cols: u16, rows: u16) -> (r: VtCommand)
        ensures
            r@ == (CommandModel::Resize {
                cols,
                rows,
                cell_width_px: self@.cell_width_px,
                cell_height_px: self@.cell_height_px,
            }),
    {
        VtCommand::Resize {
            cols,
            rows,
            cell_width_px: self.cell_width_px,
            cell_height_px: self.cell_height_px,
        }
    }

    /// Takes over a geometry that was asked for by [`Terminal::resizing`],
    /// given the engine's code; on an error nothing changes.
    pub fn resize(&mut self, cols: u16, rows: u16, code: i32) -> (r: Result<(), TermError>)
        ensures
            code == 0 ==> r is Ok && final(self)@ == (TerminalModel { cols, rows, ..old(self)@ }),
            code != 0 ==> r == Err::<(), TermError>(TermError::Ffi(code)) && final(self)@ == old(
                self,
            )@,
    {
        if code != 0 {
            return Err(TermError::Ffi(code));
        }
        self.cols = cols;
        self.rows = rows;
        Ok(())
    }

    /// Takes in bytes that the engine wants sent back to the program.
    pub fn push_response(&mut self, data: &[u8])
        ensures
            final(self)@ == (TerminalModel {
                responses: if data@.len() == 0 {
                    old(self)@.responses
                } else {
                    old(self)@.responses.push(data@)
                },
                ..old(self)@
            }),
    {
        if data.len() == 0 {
            return;
        }
        let bytes = slice_to_vec(data);
        proof {
            lemma_chunks_push(self.responses@, bytes);
        }
        self.responses.push(bytes);
    }

    /// Takes the bytes to be sent back to the program, oldest first.
    pub fn responses(&mut self) -> (r: Vec<Vec<u8>>)
        ensures
            text::contents(r@) == old(self)@.responses,
            final(self)@ == (TerminalModel { responses: Seq::empty(), ..old(self)@ }),
    {
        let mut out: Vec<Vec<u8>> = Vec::new();
        out.append(&mut self.responses);
        assert(text::contents(self.responses@) =~= Seq::<Seq<u8>>::empty());
        out
    }

    /// Fills `out` with the active area that the engine reports, into the row
    /// buffers that `out` has.
    pub fn snapshot(&self, report: &GridReport, out: &mut GridSnapshot)
        requires
            old(out).wf(),
        ensures
            final(out).wf(),
            snapshot::grid_matches(*final(out), *report, self@.cols, self@.rows),
            final(out).free_rows.len() == snapshot::spare_buffers(
                old(out).free_rows.len() + old(out).rows_data.len(),
                self@.rows,
            ),
    {
        fill_snapshot(report, self.cols, self.rows, out);
    }

    // ---- clipboard ----------------------------------------------------------

    /// Sets the policy for reads and the cap for writes.
    pub fn set_clipboard_policy(&mut self, policy: ClipboardReadPolicy, write_max_bytes: usize)
        ensures
            final(self)@ == after_policy(old(self)@, policy, write_max_bytes),
    {
        self.policy = policy;
        self.write_max_bytes = write_max_bytes;
        match policy {
            ClipboardReadPolicy::Deny => {
                self.read_pending = false;
            },
            ClipboardReadPolicy::Allow => {},
        }
    }

    /// Takes the clipboard writes that programs asked for, oldest first.
    pub fn take_clipboard_writes(&mut self) -> (r: Vec<Vec<u8>>)
        ensures
            text::contents(r@) == old(self)@.writes,
            final(self)@ == (TerminalModel { writes: Seq::empty(), ..old(self)@ }),
    {
        let mut out: Vec<Vec<u8>> = Vec::new();
        out.append(&mut self.writes);
        assert(text::contents(self.writes@) =~= Seq::<Seq<u8>>::empty());
        out
    }

    /// Whether a program is waiting for the clipboard.
    pub fn clipboard_read_pending(&self) -> (r: bool)
        ensures
            r == self@.read_pending,
    {
        self.read_pending
    }

    /// Supplies the clipboard to a waiting program. The policy is consulted
    /// once more.
    pub fn answer_clipboard_read(&mut self, clipboard: &[u8])
        ensures
            final(self)@ == after_answer(old(self)@, clipboard@),
    {
        if !self.read_pending {
            return;
        }
        self.read_pending = false;
        if let Some(bytes) = respond_read(clipboard, self.policy) {
            proof {
                lemma_chunks_push(self.responses@, bytes);
            }
            self.responses.push(bytes);
        }
    }

    // ---- working directory --------------------------------------------------

    /// The working directory as the shell last reported it: a URI or a path,
    /// not taken apart. None when no report, or an empty one, is there.
    pub fn current_pwd(&self) -> (r: Option<String>)
        ensures
            match self@.readings.pwd {
                Some(bytes) => if bytes@.len() == 0 {
                    r is None
                } else {
                    r matches Some(s) && s@ == osc7::utf8_lossy(bytes@) && (valid_utf8(bytes@)
                        ==> s@ == decode_utf8(bytes@))
                },
                None => r is None,
            },
    {
        match &self.readings.pwd {
            Some(bytes) => if bytes.len() == 0 {
                None
            } else {
                Some(osc7::from_utf8_lossy(bytes.as_slice()))
            },
            None => None,
        }
    }

    // ---- viewport -----------------------------------------------------------

    /// Scrolls the viewport by rows, up when negative. The engine stops at the
    /// ends.
    pub fn scroll_viewport(&mut self, delta_rows: isize)
        ensures
            final(self)@ == with_command(old(self)@, CommandModel::ScrollDelta(delta_rows)),
    {
        self.command(VtCommand::ScrollDelta(delta_rows));
    }

    /// Pins the viewport to the active area.
    pub fn scroll_to_bottom(&mut self)
        ensures
            final(self)@ == with_command(old(self)@, CommandModel::ScrollBottom),
    {
        self.command(VtCommand::ScrollBottom);
    }

    /// Scrolls to the oldest retained row.
    pub fn scroll_to_top(&mut self)
        ensures
            final(self)@ == with_command(old(self)@, CommandModel::ScrollTop),
    {
        self.command(VtCommand::ScrollTop);
    }

    /// Whether the viewport follows new output. Without an answer it is taken
    /// to, which never strands the user in a frozen viewport.
    pub fn is_at_bottom(&self) -> (r: bool)
        ensures
            r == render_state::answer(self@.readings.viewport_active, true),
    {
        self.readings.viewport_active.unwrap_or(true)
    }

    /// The number of rows retained above the active area.
    pub fn scrollback_len(&self) -> (r: usize)
        ensures
            r == render_state::answer(self@.readings.scrollback_rows, 0),
    {
        self.readings.scrollback_rows.unwrap_or(0)
    }

    /// The number of rows retained in all.
    pub fn total_rows(&self) -> (r: usize)
        ensures
            r == render_state::answer(self@.readings.total_rows, 0),
    {
        self.readings.total_rows.unwrap_or(0)
    }

    /// How far the viewport is scrolled up, in rows.
    pub fn viewport_offset(&self) -> (r: usize)
        ensures
            r == rows_below(self@.readings.scrollbar),
    {
        match self.readings.scrollbar {
            Some(bar) => bar.total.saturating_sub(bar.offset).saturating_sub(bar.len),
            None => 0,
        }
    }

    /// Whether the program has claimed mouse reporting. A wheel event scrolls
    /// the viewport only where it has not.
    pub fn mouse_reporting_active(&self) -> (r: bool)
        ensures
            r == render_state::answer(self@.readings.mouse_tracking, false),
    {
        self.readings.mouse_tracking.unwrap_or(false)
    }

    /// Whether the program has asked for bracketed paste.
    pub fn bracketed_paste_active(&self) -> (r: bool)
        ensures
            r == render_state::answer(self@.readings.bracketed_paste, false),
    {
        self.readings.bracketed_paste.unwrap_or(false)
    }

    /// The Kitty keyboard flags in effect; 0 where the program has set none.
    pub fn kitty_flags(&self) -> (r: u8)
        ensures
            r == render_state::answer(self@.readings.kitty_flags, 0),
    {
        self.readings.kitty_flags.unwrap_or(0)
    }

    /// The text of a viewport row, by what the engine answered for its cells
    /// from left to right. None when not even the first cell lies in the
    /// viewport.
    pub fn viewport_row_text(cells: &[ViewportCell]) -> (r: Option<String>)
        ensures
            r is None <==> cells@.len() > 0 && cells@[0] == ViewportCell::Unresolved,
            r matches Some(s) ==> s@ == text::trimmed_end(row_characters(cells@)),
    {
        let mut s = String::new();
        let mut x: usize = 0;
        let ghost all = cells@;
        assert(all.skip(0) =~= all);
        while x < cells.len()
            invariant_except_break
                s@ + row_characters(all.skip(x as int)) == row_characters(all),
            invariant
                x <= all.len(),
                all == cells@,
                x > 0 ==> all[0] != ViewportCell::Unresolved,
            ensures
                s@ == row_characters(all),
                all.len() > 0 ==> all[0] != ViewportCell::Unresolved,
            decreases all.len() - x,
        {
            let ghost rest = all.skip(x as int);
            let ghost before = s@;
            assert(rest.drop_first() =~= all.skip(x + 1));
            match cells[x] {
                ViewportCell::Unresolved => {
                    if x == 0 {
                        return None;
                    }
                    assert(s@ + row_characters(rest) =~= s@);
                    break ;
                },
                ViewportCell::Unreadable => {},
                ViewportCell::Read(cp) => {
                    if let Some(cp) = cp {
                        if cp != 0 {
                            if let Some(c) = char::from_u32(cp) {
                                s.push(c);
                                assert(s@ + row_characters(rest.drop_first()) =~= before
                                    + row_characters(rest));
                            }
                        }
                    }
                },
            }
            x += 1;
            if x >= cells.len() {
                assert(all.skip(x as int) =~= Seq::<ViewportCell>::empty());
                assert(s@ + row_characters(all.skip(x as int)) =~= s@);
            }
        }
        Some(trim_end(s.as_str()))
    }

    // ---- selection ----------------------------------------------------------

    /// Begins a selection at a viewport cell, or at the nearest one of the
    /// grid. It is in effect once the engine has installed it.
    pub fn selection_press(&mut self, x: u16, y: u16, mode: SelectionMode)
        ensures
            final(self)@ == after_press(old(self)@, x, y, mode),
    {
        let cell = clamp_cell(x, y, self.cols, self.rows);
        self.command(VtCommand::Select(SelectionState { mode, anchor: cell, cursor: cell }));
    }

    /// Extends the selection to a viewport cell, or to the nearest one of the
    /// grid. Without a selection nothing happens.
    pub fn selection_drag(&mut self, x: u16, y: u16)
        ensures
            final(self)@ == after_drag(old(self)@, x, y),
    {
        if let Some(state) = self.selection {
            let cursor = clamp_cell(x, y, self.cols, self.rows);
            self.command(
                VtCommand::Select(
                    SelectionState { mode: state.mode, anchor: state.anchor, cursor },
                ),
            );
        }
    }

    /// Ends a drag at a viewport cell. The selection stays.
    pub fn selection_release(&mut self, x: u16, y: u16)
        ensures
            final(self)@ == after_drag(old(self)@, x, y),
    {
        if self.selection.is_some() {
            self.selection_drag(x, y);
        }
    }

    /// Takes in how the engine answered a [`VtCommand::Select`]: the selection
    /// is in effect if both of its ends were resolved, else the earlier one
    /// stays.
    pub fn install_selection(&mut self, state: SelectionState, resolved: bool)
        ensures
            final(self)@ == (TerminalModel {
                selection: if resolved {
                    Some(state)
                } else {
                    old(self)@.selection
                },
                ..old(self)@
            }),
    {
        if resolved {
            self.selection = Some(state);
        }
    }

    /// Whether a selection is in effect.
    pub fn has_selection(&self) -> (r: bool)
        ensures
            r == self@.selection is Some,
    {
        self.selection.is_some()
    }

    /// The mode of the selection in effect.
    pub fn selection_mode(&self) -> (r: Option<SelectionMode>)
        ensures
            match self@.selection {
                Some(state) => r == Some(state.mode),
                None => r is None,
            },
    {
        match self.selection {
            Some(state) => Some(state.mode),
            None => None,
        }
    }

    /// Drops the selection, here and in the engine.
    pub fn clear_selection(&mut self)
        ensures
            final(self)@ == (match old(self)@.selection {
                Some(_) => with_command(
                    TerminalModel { selection: None, ..old(self)@ },
                    CommandModel::Deselect,
                ),
                None => old(self)@,
            }),
    {
        if self.selection.is_some() {
            self.selection = None;
            self.command(VtCommand::Deselect);
        }
    }

    /// How many bytes to provide for the selected text, given the length that
    /// the engine reports. None when there is no selection or no text.
    pub fn selection_text_size(&self, size: TextSize) -> (r: Option<usize>)
        ensures
            r == (if self@.selection is Some && size.status != FormatStatus::NoValue && size.needed
                > 0 {
                Some(size.needed)
            } else {
                None
            }),
    {
        if self.selection.is_none() {
            return None;
        }
        match size.status {
            FormatStatus::NoValue => None,
            _ => if size.needed == 0 {
                None
            } else {
                Some(size.needed)
            },
        }
    }

    /// The selected text, given the length that the engine reports and what it
    /// wrote into a buffer of that length. None when there is no selection or
    /// no text.
    pub fn selection_text(&self, size: TextSize, fill: TextFill) -> (r: Option<String>)
        ensures
            r is Some <==> self@.selection is Some && size.status != FormatStatus::NoValue
                && size.needed > 0 && fill.status == FormatStatus::Success && filled(fill).len() > 0,
            r matches Some(s) ==> s@ == osc7::utf8_lossy(filled(fill)) && (valid_utf8(
                filled(fill),
            ) ==> s@ == decode_utf8(filled(fill))),
    {
        if self.selection_text_size(size).is_none() {
            return None;
        }
        match fill.status {
            FormatStatus::Success => {},
            _ => {
                return None;
            },
        }
        let mut bytes = fill.buffer;
        bytes.truncate(fill.written);
        assert(bytes@ =~= filled(fill));
        if bytes.len() == 0 {
            return None;
        }
        Some(osc7::from_utf8_lossy(bytes.as_slice()))
    }

    /// The spans of the selection in effect, from top to bottom.
    pub fn selection_spans(&self) -> (r: Vec<SelectionSpan>)
        ensures
            r@ == (match self@.selection {
                Some(state) => state.spans(self@.cols),
                None => Seq::empty(),
            }),
    {
        match self.selection {
            Some(state) => spans_of(state, self.cols),
            None => Vec::new(),
        }
    }
}

/// The number of rows below the viewport.
pub open spec fn rows_below(bar: Option<Scrollbar>) -> int {
    match bar {
        Some(bar) => if bar.offset + bar.len <= bar.total {
            bar.total - bar.offset - bar.len
        } else {
            0
        },
        None => 0,
    }
}

// ---- what every operation keeps to ---------------------------------------------------

/// No read waits where reads are refused.
pub open spec fn gated(t: TerminalModel) -> bool {
    t.read_pending ==> t.policy == ClipboardReadPolicy::Allow
}

/// Feeding, answering and changing the policy keep the clipboard gate closed
/// where reads are refused.
pub proof fn gate_holds(
    t: TerminalModel,
    bytes: Seq<u8>,
    policy: ClipboardReadPolicy,
    max: usize,
)
    requires
        gated(t),
    ensures
        gated(after_feed(t, bytes)),
        gated(after_answer(t, bytes)),
        gated(after_policy(t, policy, max)),
{
}

/// Where reads are refused, nothing a program sends and nothing the shell
/// supplies makes a byte of the clipboard go back to the program.
pub proof fn refused_reads_send_nothing(t: TerminalModel, bytes: Seq<u8>, clipboard: Seq<u8>)
    requires
        t.policy == ClipboardReadPolicy::Deny,
    ensures
        after_answer(after_feed(t, bytes), clipboard).responses == t.responses,
        after_feed(t, bytes).read_pending == t.read_pending,
{
}

/// A read that waits is answered with nothing when reads are refused before
/// the clipboard is supplied.
pub proof fn late_refusal_counts(t: TerminalModel, max: usize, clipboard: Seq<u8>)
    ensures
        after_answer(
            after_policy(t, ClipboardReadPolicy::Deny, max),
            clipboard,
        ).responses == t.responses,
{
}

/// Every clipboard write that a chunk adds fits the cap.
pub proof fn queued_writes_fit(t: TerminalModel, bytes: Seq<u8>)
    requires
        forall|i: int| 0 <= i < t.writes.len() ==> (#[trigger] t.writes[i]).len() <= t.write_max_bytes,
    ensures
        forall|i: int|
            0 <= i < after_feed(t, bytes).writes.len() ==> (#[trigger] after_feed(
                t,
                bytes,
            ).writes[i]).len() <= t.write_max_bytes,
{
    osc52::writes_are_capped(bytes, 0, t.write_max_bytes as nat);
}

/// The output of a program reaches the engine whole and in order, whatever
/// requests are found in it.
pub proof fn output_reaches_engine(t: TerminalModel, a: Seq<u8>, b: Seq<u8>)
    requires
        a.len() > 0,
        b.len() > 0,
    ensures
        after_feed(after_feed(t, a), b).commands == t.commands.push(CommandModel::Write(a)).push(
            CommandModel::Write(b),
        ),
{
}

/// Requested selections lie within a grid that has cells, wherever the pointer
/// is.
pub proof fn selections_stay_in_grid(t: TerminalModel, x: u16, y: u16)
    requires
        t.cols > 0,
        t.rows > 0,
    ensures
        nearest(t, x, y).0 < t.cols,
        nearest(t, x, y).1 < t.rows,
        x < t.cols && y < t.rows ==> nearest(t, x, y) == (x, y),
{
}

/// A program that sends a text as a clipboard write, whole in one chunk, has
/// it queued for the clipboard byte for byte, as long as it fits the cap.
/// What stood in the queue stays before it.
pub proof fn copied_text_is_queued(
    t: TerminalModel,
    before: Seq<u8>,
    targets: Seq<u8>,
    data: Seq<u8>,
    bell: bool,
    after: Seq<u8>,
)
    requires
        forall|j: int| 0 <= j < before.len() ==> #[trigger] before[j] != 0x1b,
        osc52::unterminated(targets),
        forall|j: int| 0 <= j < targets.len() ==> #[trigger] targets[j] != 0x3b,
        data.len() <= t.write_max_bytes,
    ensures
        ({
            let chunk = before + osc52::sent_request(targets, osc52::base64_of(data), bell) + after;
            let end = after_feed(t, chunk);
            &&& end.writes == t.writes.push(data)
            &&& end.responses == t.responses
            &&& end.read_pending == t.read_pending
        }),
{
    osc52::sent_text_is_written(before, targets, data, bell, after, t.write_max_bytes as nat);
}

/// Where reads are allowed, a program that asks for the clipboard is sent it
/// as base64 once the shell has supplied it, and nothing waits then. Its
/// request writes nothing.
pub proof fn allowed_reads_are_answered(
    t: TerminalModel,
    before: Seq<u8>,
    targets: Seq<u8>,
    bell: bool,
    after: Seq<u8>,
    clipboard: Seq<u8>,
)
    requires
        t.policy == ClipboardReadPolicy::Allow,
        forall|j: int| 0 <= j < before.len() ==> #[trigger] before[j] != 0x1b,
        osc52::unterminated(targets),
        forall|j: int| 0 <= j < targets.len() ==> #[trigger] targets[j] != 0x3b,
    ensures
        ({
            let chunk = before + osc52::sent_request(targets, seq![0x3fu8], bell) + after;
            let asked = after_feed(t, chunk);
            let end = after_answer(asked, clipboard);
            &&& asked.read_pending
            &&& asked.writes == t.writes
            &&& asked.responses == t.responses
            &&& end.responses == t.responses.push(
                osc52::sent_request(seq![0x63u8], osc52::base64_of(clipboard), false),
            )
            &&& !end.read_pending
        }),
{
    osc52::question_mark_reads(before, targets, bell, after, t.write_max_bytes as nat);
    osc52::answer_is_a_request_of_its_own(clipboard);
}

/// What nobody has asked for is not sent: without a waiting read, supplying
/// the clipboard changes nothing. A read is answered once.
pub proof fn reads_are_answered_once(t: TerminalModel, a: Seq<u8>, b: Seq<u8>)
    ensures
        !t.read_pending ==> after_answer(t, a) == t,
        after_answer(after_answer(t, a), b) == after_answer(t, a),
{
}

/// Output without an escape goes to the engine and does nothing else.
pub proof fn plain_output_goes_to_the_engine_alone(t: TerminalModel, bytes: Seq<u8>)
    requires
        forall|j: int| 0 <= j < bytes.len() ==> #[trigger] bytes[j] != 0x1b,
        bytes.len() > 0,
    ensures
        after_feed(t, bytes) == (TerminalModel {
            commands: t.commands.push(CommandModel::Write(bytes)),
            ..t
        }),
        after_feed(t, Seq::empty()) == t,
{
    osc52::plain_output_asks_nothing(bytes, t.write_max_bytes as nat);
}

/// Output changes neither the geometry nor the selection nor the policy, and
/// takes nothing out of any queue. A change of policy touches no queue and
/// drops no read while reads stay allowed.
pub proof fn operations_keep_to_themselves(
    t: TerminalModel,
    bytes: Seq<u8>,
    policy: ClipboardReadPolicy,
    max: usize,
)
    ensures
        ({
            let fed = after_feed(t, bytes);
            &&& fed.cols == t.cols && fed.rows == t.rows
            &&& fed.selection == t.selection
            &&& fed.policy == t.policy && fed.write_max_bytes == t.write_max_bytes
            &&& fed.responses == t.responses
            &&& t.writes.is_prefix_of(fed.writes)
            &&& t.commands.is_prefix_of(fed.commands)
            &&& t.read_pending ==> fed.read_pending
        }),
        ({
            let set = after_policy(t, policy, max);
            &&& set.policy == policy
            &&& set.write_max_bytes == max
            &&& set.writes == t.writes && set.responses == t.responses && set.commands == t.commands
            &&& set.selection == t.selection
            &&& policy == ClipboardReadPolicy::Allow ==> set.read_pending == t.read_pending
            &&& policy == ClipboardReadPolicy::Deny ==> !set.read_pending
        }),
{
}

/// A press selects the one cell under the pointer, in the mode asked for. A
/// drag keeps the anchor and the mode, and moves the other end to the cell
/// under the pointer; without a selection it does nothing.
pub proof fn drags_keep_the_anchor(t: TerminalModel, x: u16, y: u16, mode: SelectionMode)
    requires
        x < t.cols,
        y < t.rows,
    ensures
        after_press(t, x, y, mode).commands == t.commands.push(
            CommandModel::Select(SelectionState { mode, anchor: (x, y), cursor: (x, y) }),
        ),
        after_press(t, x, y, mode).selection == t.selection,
        t.selection matches Some(state) ==> after_drag(t, x, y).commands == t.commands.push(
            CommandModel::Select(
                SelectionState { mode: state.mode, anchor: state.anchor, cursor: (x, y) },
            ),
        ),
        t.selection is None ==> after_drag(t, x, y) == t,
{
}

/// The rows above the viewport, in it and below it make up all rows, as long
/// as the engine's numbers add up.
pub proof fn viewport_rows_add_up(bar: Scrollbar)
    ensures
        bar.offset + bar.len <= bar.total ==> bar.offset + bar.len + rows_below(Some(bar))
            == bar.total,
        bar.offset + bar.len > bar.total ==> rows_below(Some(bar)) == 0,
        rows_below(None) == 0,
{
}

/// A viewport row is read cell by cell: cells that hold a character give it,
/// empty and unreadable ones nothing, and reading ends at the first cell
/// outside the viewport.
pub proof fn rows_are_read_cell_by_cell(
    a: Seq<ViewportCell>,
    b: Seq<ViewportCell>,
    c: char,
)
    requires
        forall|i: int| 0 <= i < a.len() ==> #[trigger] a[i] != ViewportCell::Unresolved,
    ensures
        row_characters(a + b) == row_characters(a) + row_characters(b),
        row_characters(a + seq![ViewportCell::Unresolved] + b) == row_characters(a),
        row_characters(seq![ViewportCell::Unreadable]) == Seq::<char>::empty(),
        row_characters(seq![ViewportCell::Read(None)]) == Seq::<char>::empty(),
        row_characters(seq![ViewportCell::Read(Some(0))]) == Seq::<char>::empty(),
        c != '\0' ==> row_characters(seq![ViewportCell::Read(Some(c as u32))]) == seq![c],
    decreases a.len(),
{
    reveal_with_fuel(row_characters, 2);
    text::lemma_char(c);
    char_is_scalar(c);
    assert(seq![ViewportCell::Unreadable].drop_first() =~= Seq::<ViewportCell>::empty());
    assert(seq![ViewportCell::Read(None)].drop_first() =~= Seq::<ViewportCell>::empty());
    assert(seq![ViewportCell::Read(Some(0))].drop_first() =~= Seq::<ViewportCell>::empty());
    let one = seq![ViewportCell::Read(Some(c as u32))];
    assert(one.drop_first() =~= Seq::<ViewportCell>::empty());
    if c != '\0' {
        assert(row_characters(one) =~= seq![c]);
    }
    let stop = seq![ViewportCell::Unresolved];
    if a.len() == 0 {
        assert(a + b =~= b);
        assert(row_characters(a) + row_characters(b) =~= row_characters(b));
        assert((a + stop + b)[0] == ViewportCell::Unresolved);
    } else {
        let rest = a.drop_first();
        assert(a[0] != ViewportCell::Unresolved);
        assert forall|i: int| 0 <= i < rest.len() implies #[trigger] rest[i]
            != ViewportCell::Unresolved by {
            assert(rest[i] == a[i + 1]);
        }
        rows_are_read_cell_by_cell(rest, b, c);
        assert((a + b).drop_first() =~= rest + b);
        assert((a + stop + b).drop_first() =~= rest + stop + b);
        assert((a + b)[0] == a[0]);
        assert((a + stop + b)[0] == a[0]);
        assert(row_characters(a + b) =~= row_characters(a) + row_characters(b));
    }
}

} // verus!

//! The self-tests of the shell: which mode it runs in, when the echo command is
//! typed, and where its echo is looked for.
use vstd::prelude::*;
use vstd::utf8::*;

use crate::shell::window::{enter_bytes, typed_bytes};
use crate::term::snapshot::{Cell, CellWidth, GridSnapshot};
use crate::text::{self, chars_of, same, trim_end};

verus! {

/// How the shell runs.
#[derive(Debug, Clone, Copy, PartialEq, Eq, Structural)]
pub enum RunMode {
    /// The window stays open until it is closed; a shell is attached.
    Interactive,
    /// Presents frames for [`SELF_TEST_SECS`], reports and exits.
    SelfTest,
    /// Types a command into a shell, waits for its echo in the grid, reports
    /// and exits.
    EchoSelfTest,
}

/// How long the self-test presents frames.
pub const SELF_TEST_SECS: u64 = 5;

/// How long the echo test waits for its echo.
pub const ECHO_DEADLINE_SECS: u64 = 25;

/// How long the shell has to reach its prompt before the command is typed.
pub const INJECT_AFTER_MILLIS: u64 = 2500;

/// Grid width of the attached shell.
pub const GRID_COLS: u16 = 100;

/// Grid height of the attached shell.
pub const GRID_ROWS: u16 = 30;

/// Whether an argument is among the arguments.
pub open spec fn has_arg(args: Seq<String>, wanted: Seq<char>) -> bool {
    exists|i: int| 0 <= i < args.len() && #[trigger] args[i]@ == wanted
}

fn contains_arg(args: &Vec<String>, wanted: &str) -> (r: bool)
    ensures
        r == has_arg(args@, wanted@),
{
    let mut i: usize = 0;
    while i < args.len()
        invariant
            i <= args.len(),
            forall|k: int| 0 <= k < i ==> #[trigger] args@[k]@ != wanted@,
        decreases args.len() - i,
    {
        if same(args[i].as_str(), wanted) {
            return true;
        }
        i += 1;
    }
    false
}

/// The mode that the arguments select. The echo test wins over the self-test.
pub fn run_mode(args: &Vec<String>) -> (r: RunMode)
    ensures
        r == (if has_arg(args@, "--echo-selftest"@) {
            RunMode::EchoSelfTest
        } else if has_arg(args@, "--self-test"@) {
            RunMode::SelfTest
        } else {
            RunMode::Interactive
        }),
{
    if contains_arg(args, "--echo-selftest") {
        RunMode::EchoSelfTest
    } else if contains_arg(args, "--self-test") {
        RunMode::SelfTest
    } else {
        RunMode::Interactive
    }
}

/// The progress of an attached session in its echo test.
#[derive(Debug, Clone, Copy, PartialEq, Eq, Structural)]
pub struct EchoTest {
    pub mode: RunMode,
    /// Whether the command has been typed.
    pub injected: bool,
    /// Whether the echo has been seen.
    pub seen: bool,
}

impl EchoTest {
    pub fn new(mode: RunMode) -> (r: Self)
        ensures
            r == (EchoTest { mode, injected: false, seen: false }),
    {
        EchoTest { mode, injected: false, seen: false }
    }

    /// Whether the command is typed now, which happens once, when the shell has
    /// had the time to reach its prompt.
    pub fn inject(&mut self, elapsed_millis: u64) -> (r: bool)
        ensures
            r == (old(self).mode == RunMode::EchoSelfTest && !old(self).injected && elapsed_millis
                >= INJECT_AFTER_MILLIS),
            *final(self) == (EchoTest { injected: old(self).injected || r, ..*old(self) }),
    {
        if self.mode == RunMode::EchoSelfTest && !self.injected && elapsed_millis
            >= INJECT_AFTER_MILLIS {
            self.injected = true;
            true
        } else {
            false
        }
    }

    /// Looks for the echo in a grid that has just changed, once the command has
    /// been typed, and gives the row that shows it.
    pub fn scan(&mut self, snapshot: &GridSnapshot) -> (r: Option<String>)
        ensures
            r is Some <==> old(self).mode == RunMode::EchoSelfTest && old(self).injected && !old(
                self,
            ).seen && marked_row(*snapshot, echo_marker(), 0) is Some,
            r matches Some(row) ==> marked_row(*snapshot, echo_marker(), 0) == Some(row@),
            *final(self) == (EchoTest { seen: old(self).seen || r is Some, ..*old(self) }),
    {
        if self.mode == RunMode::EchoSelfTest && self.injected && !self.seen {
            let row = find_marked_row(snapshot, "m0-e2e");
            if row.is_some() {
                self.seen = true;
            }
            row
        } else {
            None
        }
    }

    /// Whether a presented frame ends the test: it carries fresh output and the
    /// echo has been seen.
    pub fn concluded(&self, fed: bool) -> (r: bool)
        ensures
            r == (fed && self.mode == RunMode::EchoSelfTest && self.seen),
    {
        fed && self.mode == RunMode::EchoSelfTest && self.seen
    }
}

/// The command that the echo test types.
pub open spec fn echo_command() -> Seq<char> {
    "echo m0-e2e"@
}

/// The text whose echo is looked for.
pub open spec fn echo_marker() -> Seq<char> {
    "m0-e2e"@
}

/// The bytes of each keystroke of a command, Enter last.
pub open spec fn keystrokes(command: Seq<char>) -> Seq<Seq<u8>> {
    command.map_values(|c: char| encode_utf8(seq![c])).push(seq![0x0du8])
}

/// The keystrokes of a command, one by one, as if it were typed.
pub fn command_keystrokes(command: &str) -> (r: Vec<Vec<u8>>)
    ensures
        text::contents(r@) == keystrokes(command@),
{
    let mut out: Vec<Vec<u8>> = Vec::new();
    let ghost all = command@;
    let ghost wanted = all.map_values(|c: char| encode_utf8(seq![c]));
    for c in it: command.chars()
        invariant
            it.seq() == all,
            wanted == all.map_values(|c: char| encode_utf8(seq![c])),
            text::contents(out@) == wanted.take(it.index() as int),
    {
        let ghost before = out@;
        out.push(typed_bytes(c));
        proof {
            assert(text::contents(out@) =~= text::contents(before).push(encode_utf8(seq![c])));
            assert(wanted.take(it.index() + 1) =~= wanted.take(it.index() as int).push(
                wanted[it.index() as int],
            ));
        }
    }
    let ghost before = out@;
    out.push(enter_bytes());
    proof {
        assert(wanted.take(all.len() as int) =~= wanted);
        assert(text::contents(out@) =~= text::contents(before).push(seq![0x0du8]));
    }
    out
}

/// The keystrokes of the echo test's command.
pub fn echo_keystrokes() -> (r: Vec<Vec<u8>>)
    ensures
        text::contents(r@) == keystrokes(echo_command()),
{
    command_keystrokes("echo m0-e2e")
}

// ---- looking for the echo --------------------------------------------------------

/// The character that a cell shows; a number that is no character shows as a
/// space.
pub open spec fn shown_char(codepoint: u32) -> char {
    if codepoint <= 0x10ffff && !(0xd800 <= codepoint <= 0xdfff) {
        codepoint as char
    } else {
        ' '
    }
}

/// The text of a row of cells. The second half of a wide character shows
/// nothing.
pub open spec fn row_text(cells: Seq<Cell>) -> Seq<char>
    decreases cells.len(),
{
    if cells.len() == 0 {
        Seq::empty()
    } else if cells.last().width == CellWidth::SpacerTail {
        row_text(cells.drop_last())
    } else {
        row_text(cells.drop_last()).push(shown_char(cells.last().codepoint))
    }
}

/// Whether a text occurs in another.
pub open spec fn occurs(s: Seq<char>, wanted: Seq<char>) -> bool {
    exists|i: int|
        0 <= i <= s.len() - wanted.len() && #[trigger] s.subrange(i, i + wanted.len()) == wanted
}

/// The text of the first row, from a given one on, in which a marker occurs,
/// without the blanks at its end.
pub open spec fn marked_row(snapshot: GridSnapshot, marker: Seq<char>, from: int) -> Option<
    Seq<char>,
>
    decreases snapshot.rows_data@.len() - from,
{
    if from < 0 || from >= snapshot.rows_data@.len() {
        None
    } else {
        let line = row_text(snapshot.rows_data@[from].cells@);
        if occurs(line, marker) {
            Some(text::trimmed_end(line))
        } else {
            marked_row(snapshot, marker, from + 1)
        }
    }
}

/// The text of a row of cells.
pub fn cells_text(cells: &Vec<Cell>) -> (r: String)
    ensures
        r@ == row_text(cells@),
{
    let mut s = String::new();
    let mut x: usize = 0;
    let ghost all = cells@;
    assert(all.take(0) =~= Seq::<Cell>::empty());
    while x < cells.len()
        invariant
            x <= cells.len(),
            all == cells@,
            s@ == row_text(all.take(x as int)),
        decreases cells.len() - x,
    {
        assert(all.take(x + 1).drop_last() =~= all.take(x as int));
        assert(all.take(x + 1).last() == all[x as int]);
        if cells[x].width != CellWidth::SpacerTail {
            match char::from_u32(cells[x].codepoint) {
                Some(c) => s.push(c),
                None => s.push(' '),
            }
        }
        x += 1;
    }
    assert(all.take(x as int) =~= all);
    s
}

/// Whether a text occurs in another.
pub fn text_occurs(s: &str, wanted: &str) -> (r: bool)
    ensures
        r == occurs(s@, wanted@),
{
    let hay = chars_of(s);
    let needle = chars_of(wanted);
    if needle.len() > hay.len() {
        return false;
    }
    let last: usize = hay.len() - needle.len();
    let mut i: usize = 0;
    loop
        invariant
            hay@ == s@,
            needle@ == wanted@,
            last + needle.len() == hay.len(),
            i <= last,
            forall|k: int|
                0 <= k < i ==> #[trigger] s@.subrange(k, k + wanted@.len()) != wanted@,
        decreases last - i,
    {
        let mut j: usize = 0;
        while j < needle.len() && hay[i + j] == needle[j]
            invariant
                j <= needle.len(),
                i + needle.len() <= hay.len(),
                forall|k: int| 0 <= k < j ==> #[trigger] hay@[i + k] == needle@[k],
            decreases needle.len() - j,
        {
            j += 1;
        }
        let ghost part = s@.subrange(i as int, i + wanted@.len());
        if j == needle.len() {
            assert forall|k: int| 0 <= k < part.len() implies #[trigger] part[k] == wanted@[k] by {
                assert(hay@[i + k] == needle@[k]);
            }
            assert(part =~= wanted@);
            return true;
        }
        assert(part[j as int] != wanted@[j as int]);
        if i == last {
            return false;
        }
        i += 1;
    }
}

/// The text of the first row in which a marker occurs, without the blanks at
/// its end.
pub fn find_marked_row(snapshot: &GridSnapshot, marker: &str) -> (r: Option<String>)
    ensures
        r is Some <==> marked_row(*snapshot, marker@, 0) is Some,
        r matches Some(row) ==> marked_row(*snapshot, marker@, 0) == Some(row@),
{
    let mut y: usize = 0;
    while y < snapshot.rows_data.len()
        invariant
            y <= snapshot.rows_data.len(),
            marked_row(*snapshot, marker@, y as int) == marked_row(*snapshot, marker@, 0),
        decreases snapshot.rows_data.len() - y,
    {
        let line = cells_text(&snapshot.rows_data[y].cells);
        if text_occurs(line.as_str(), marker) {
            return Some(trim_end(line.as_str()));
        }
        y += 1;
    }
    None
}

/// A command is typed character by character, each in UTF-8, and ends with one
/// carriage return.
pub proof fn commands_are_typed_out(command: Seq<char>, i: int)
    requires
        0 <= i < command.len(),
    ensures
        keystrokes(command).len() == command.len() + 1,
        keystrokes(command)[i] == encode_utf8(seq![command[i]]),
        keystrokes(command).last() == seq![0x0du8],
{
}

/// A row reads from left to right as the characters that its cells show; the
/// second half of a wide character adds nothing, and what is no character
/// shows as a space.
pub proof fn rows_read_from_left_to_right(cells: Seq<Cell>, cell: Cell, c: char)
    ensures
        cell.width == CellWidth::SpacerTail ==> row_text(cells.push(cell)) == row_text(cells),
        cell.width != CellWidth::SpacerTail && cell.codepoint == c as u32 ==> row_text(
            cells.push(cell),
        ) == row_text(cells).push(c),
        cell.width != CellWidth::SpacerTail && (cell.codepoint > 0x10ffff || 0xd800
            <= cell.codepoint <= 0xdfff) ==> row_text(cells.push(cell)) == row_text(cells).push(' '),
        row_text(Seq::empty()) == Seq::<char>::empty(),
{
    text::lemma_char(c);
    assert(cells.push(cell).drop_last() =~= cells);
}

/// The echo is found in the topmost row that holds the marker, and in none
/// where no row does.
pub proof fn topmost_marked_row_is_found(snapshot: GridSnapshot, marker: Seq<char>, from: int)
    requires
        0 <= from <= snapshot.rows_data.len(),
    ensures
        marked_row(snapshot, marker, from) is None <==> forall|y: int|
            from <= y < snapshot.rows_data.len() ==> !occurs(
                row_text((#[trigger] snapshot.rows_data[y]).cells@),
                marker,
            ),
        marked_row(snapshot, marker, from) matches Some(line) ==> exists|y: int|
            {
                &&& from <= y < snapshot.rows_data.len()
                &&& occurs(row_text((#[trigger] snapshot.rows_data[y]).cells@), marker)
                &&& line == text::trimmed_end(row_text(snapshot.rows_data[y].cells@))
                &&& forall|z: int|
                    from <= z < y ==> !occurs(
                        row_text((#[trigger] snapshot.rows_data[z]).cells@),
                        marker,
                    )
            },
    decreases snapshot.rows_data.len() - from,
{
    if from < snapshot.rows_data.len() {
        if !occurs(row_text(snapshot.rows_data[from].cells@), marker) {
            topmost_marked_row_is_found(snapshot, marker, from + 1);
            if marked_row(snapshot, marker, from + 1) is Some {
                let line = marked_row(snapshot, marker, from + 1)->0;
                let y = choose|y: int|
                    {
                        &&& from + 1 <= y < snapshot.rows_data.len()
                        &&& occurs(row_text((#[trigger] snapshot.rows_data[y]).cells@), marker)
                        &&& line == text::trimmed_end(row_text(snapshot.rows_data[y].cells@))
                        &&& forall|z: int|
                            from + 1 <= z < y ==> !occurs(
                                row_text((#[trigger] snapshot.rows_data[z]).cells@),
                                marker,
                            )
                    };
                assert(occurs(row_text(snapshot.rows_data[y].cells@), marker));
            }
        }
    }
}

} // verus!

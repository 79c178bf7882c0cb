use banshee::term::feed_script::{next_step, take_byte, FollowUp};
use banshee::term::mode::{
    ghostty_mode_ansi, ghostty_mode_new, ghostty_mode_value, MODE_BRACKETED_PASTE,
};
use banshee::term::osc52::{
    base64_decode, base64_encode, parse_osc52, respond_read, ClipboardReadPolicy, Osc52Request,
};
use banshee::term::osc7::{locate, parse_osc7_uri, percent_decode, unescape};
use banshee::term::render_state::{
    CellRef, Colors, CursorVisualStyle, Dirty, DirtyReport, Frame, RenderHandle, RenderState,
    RowRef, RowSelection,
};
use banshee::term::selection::{
    clamp_cell, spans_of, SelectionMode, SelectionSpan, SelectionState,
};
use banshee::term::snapshot::{
    fill_snapshot, read_cell, read_cursor, read_row_flags, read_style, Cell, CellReport, CellWidth,
    CursorSnapshot, CursorStyle, GridReport, GridSnapshot, RowReport, RowSnapshot, StyleColor,
    StyleReport, StyleSnapshot, Underline,
};
use banshee::term::terminal::{
    Created, FormatStatus, Scrollbar, TermError, Terminal, TextFill, TextSize, ViewportCell,
    VtCommand, VtOptions, VtReadings,
};

// ---- OSC 52 ---------------------------------------------------------------------

#[test]
fn base64_roundtrip() {
    for s in [
        &b""[..],
        b"f",
        b"fo",
        b"foo",
        b"foob",
        b"fooba",
        b"foobar",
        b"hello world",
    ] {
        let enc = base64_encode(s);
        assert_eq!(base64_decode(enc.as_bytes()), s, "roundtrip {s:?}");
    }
}

#[test]
fn base64_known_vectors() {
    assert_eq!(base64_encode(b"foobar"), "Zm9vYmFy");
    assert_eq!(base64_encode(b"foo"), "Zm9v");
    assert_eq!(base64_encode(b"fo"), "Zm8=");
    assert_eq!(base64_decode(b"Zm9vYmFy"), b"foobar");
}

#[test]
fn parse_read_request() {
    let seq = b"\x1b]52;c;?\x07";
    assert_eq!(parse_osc52(seq, 1_000_000), Some(Osc52Request::Read));
}

#[test]
fn parse_write_request_bel() {
    let seq = b"\x1b]52;c;aGk=\x07";
    assert_eq!(
        parse_osc52(seq, 1_000_000),
        Some(Osc52Request::Write(b"hi".to_vec()))
    );
}

#[test]
fn parse_write_request_st_terminator() {
    let seq = b"\x1b]52;c;aGk=\x1b\\";
    assert_eq!(
        parse_osc52(seq, 1_000_000),
        Some(Osc52Request::Write(b"hi".to_vec()))
    );
}

#[test]
fn empty_targets_defaults_ok() {
    let seq = b"\x1b]52;;aGk=\x07";
    assert_eq!(
        parse_osc52(seq, 1_000_000),
        Some(Osc52Request::Write(b"hi".to_vec()))
    );
}

#[test]
fn oversized_write_is_truncated_before_decode() {
    let big = "QUFB".repeat(100_000);
    let seq = format!("\x1b]52;c;{big}\x07");
    let Some(Osc52Request::Write(bytes)) = parse_osc52(seq.as_bytes(), 30) else {
        panic!("expected a write");
    };
    assert!(
        bytes.len() <= 30,
        "decoded write must be capped at 30 bytes, got {}",
        bytes.len()
    );
}

#[test]
fn read_denied_produces_no_response() {
    assert_eq!(respond_read(b"secret", ClipboardReadPolicy::Deny), None);
}

#[test]
fn read_allowed_produces_base64_response() {
    let resp = respond_read(b"hi", ClipboardReadPolicy::Allow).expect("allowed");
    assert_eq!(resp, b"\x1b]52;c;aGk=\x1b\\");
}

#[test]
fn incomplete_sequence_is_none() {
    assert_eq!(parse_osc52(b"\x1b]52;c;aGk=", 1_000_000), None);
    assert_eq!(parse_osc52(b"\x1b]0;title\x07", 1_000_000), None);
}

#[test]
fn request_is_found_amid_output() {
    assert_eq!(
        parse_osc52(b"text \x1b]0;t\x07\x1b]52;c;?\x07 more", 10),
        Some(Osc52Request::Read)
    );
    // A start that never becomes a request does not hide the one behind it.
    assert_eq!(
        parse_osc52(b"\x1b]52;c\x07\x1b]52;c;aGk=\x07", 10),
        Some(Osc52Request::Write(b"hi".to_vec()))
    );
}

#[test]
fn report_is_read_back_as_a_write() {
    let resp = respond_read(b"round", ClipboardReadPolicy::Allow).unwrap();
    assert_eq!(
        parse_osc52(&resp, 1_000_000),
        Some(Osc52Request::Write(b"round".to_vec()))
    );
}

#[test]
fn decoding_passes_over_garbage() {
    assert_eq!(base64_decode(b"Z m\n9=v"), b"foo");
    assert_eq!(base64_decode(b""), b"");
    assert_eq!(base64_decode(b"Z"), b"");
}

#[test]
fn policies_default_to_deny() {
    assert_eq!(ClipboardReadPolicy::default(), ClipboardReadPolicy::Deny);
}

// ---- OSC 7 ----------------------------------------------------------------------

#[test]
fn plain_triple_slash_localhost_form() {
    let (host, path) = parse_osc7_uri("file:///home/user/proj").unwrap();
    assert_eq!(host, None);
    assert_eq!(path, "/home/user/proj");
}

#[test]
fn explicit_localhost_authority_drops_host() {
    let (host, path) = parse_osc7_uri("file://localhost/home/user").unwrap();
    assert_eq!(host, None);
    assert_eq!(path, "/home/user");
}

#[test]
fn named_hostname_preserved() {
    let (host, path) = parse_osc7_uri("file://WSL/mnt/c/work").unwrap();
    assert_eq!(host.as_deref(), Some("WSL"));
    assert_eq!(path, "/mnt/c/work");
}

#[test]
fn percent_encoded_spaces_and_unicode() {
    let (_, path) = parse_osc7_uri("file:///home/user/My%20Docs").unwrap();
    assert_eq!(path, "/home/user/My Docs");
    let (_, p2) = parse_osc7_uri("file:///caf%C3%A9").unwrap();
    assert_eq!(p2, "/café");
}

#[test]
fn windows_drive_leading_slash_stripped() {
    let (host, path) = parse_osc7_uri("file:///C:/Users/reido/src").unwrap();
    assert_eq!(host, None);
    assert_eq!(path, "C:/Users/reido/src");
}

#[test]
fn windows_drive_with_percent_encoded_space() {
    let (_, path) = parse_osc7_uri("file:///C:/Program%20Files").unwrap();
    assert_eq!(path, "C:/Program Files");
}

#[test]
fn non_file_scheme_is_none() {
    assert!(parse_osc7_uri("/bare/path").is_none());
    assert!(parse_osc7_uri("http://example.com").is_none());
}

#[test]
fn malformed_percent_escape_passed_through() {
    let (_, path) = parse_osc7_uri("file:///a%2/b%GG").unwrap();
    assert_eq!(path, "/a%2/b%GG");
}

#[test]
fn escapes_that_are_no_text_are_replaced() {
    assert_eq!(percent_decode("a%ffb"), "a\u{fffd}b");
    assert_eq!(percent_decode("%41%2f"), "A/");
    assert_eq!(unescape(b"%41%zz%4"), b"A%zz%4");
    assert_eq!(percent_decode("no escapes é"), "no escapes é");
}

#[test]
fn locations_are_normalized() {
    assert_eq!(
        locate("LOCALHOST".to_string(), "/x".to_string()),
        (None, "/x".to_string())
    );
    assert_eq!(
        locate("box".to_string(), "/d:".to_string()),
        (Some("box".to_string()), "d:".to_string())
    );
    assert_eq!(
        parse_osc7_uri("file://my%20box/caf%C3%A9"),
        Some((Some("my box".to_string()), "/café".to_string()))
    );
    assert_eq!(
        parse_osc7_uri("file://box"),
        Some((Some("box".to_string()), String::new()))
    );
}

// ---- the terminal ---------------------------------------------------------------

fn created() -> Created {
    Created {
        code: 0,
        has_handle: true,
    }
}

fn sized(cols: u16, rows: u16) -> Terminal {
    Terminal::new(cols, rows, VtOptions::default(), created()).expect("terminal")
}

fn term() -> Terminal {
    sized(80, 24)
}

/// An engine that resolves every selection.
fn run_engine(t: &mut Terminal) {
    for command in t.take_commands() {
        if let VtCommand::Select(state) = command {
            t.install_selection(state, true);
        }
    }
}

fn written(text: &str) -> (TextSize, TextFill) {
    (
        TextSize {
            status: FormatStatus::Success,
            needed: text.len(),
        },
        TextFill {
            status: FormatStatus::Success,
            buffer: text.as_bytes().to_vec(),
            written: text.len(),
        },
    )
}

#[test]
fn write_places_decoded_bytes_on_clipboard_queue() {
    let mut t = term();
    t.feed(b"\x1b]52;c;aGVsbG8=\x07");
    let writes = t.take_clipboard_writes();
    assert_eq!(writes, vec![b"hello".to_vec()]);
    assert!(t.take_clipboard_writes().is_empty());
}

#[test]
fn oversized_write_truncated_at_cap_before_clipboard() {
    let mut t = term();
    t.set_clipboard_policy(ClipboardReadPolicy::Deny, 16);
    let big = "QUFB".repeat(50_000);
    let seq = format!("\x1b]52;c;{big}\x07");
    t.feed(seq.as_bytes());
    let writes = t.take_clipboard_writes();
    assert_eq!(writes.len(), 1);
    assert!(
        writes[0].len() <= 16,
        "write must be capped at 16 bytes, got {}",
        writes[0].len()
    );
}

#[test]
fn read_denied_by_default_produces_no_pty_bytes() {
    let mut t = term();
    t.feed(b"\x1b]52;c;?\x07");
    assert!(
        !t.clipboard_read_pending(),
        "deny drops the read at feed time"
    );
    t.answer_clipboard_read(b"secret");
    let responses: Vec<Vec<u8>> = t.responses();
    assert!(
        responses.is_empty(),
        "no clipboard bytes may reach the pty under Deny, got {responses:?}"
    );
}

#[test]
fn read_allowed_produces_correct_base64_response() {
    let mut t = term();
    t.set_clipboard_policy(ClipboardReadPolicy::Allow, 1_000_000);
    t.feed(b"\x1b]52;c;?\x07");
    assert!(t.clipboard_read_pending(), "allow queues the read");

    t.answer_clipboard_read(b"hi");
    assert!(
        !t.clipboard_read_pending(),
        "answering clears the pending read"
    );

    let responses: Vec<Vec<u8>> = t.responses();
    assert_eq!(responses.len(), 1);
    assert_eq!(responses[0], b"\x1b]52;c;aGk=\x1b\\");
}

#[test]
fn read_pending_cleared_when_policy_flips_to_deny_before_answer() {
    let mut t = term();
    t.set_clipboard_policy(ClipboardReadPolicy::Allow, 1_000_000);
    t.feed(b"\x1b]52;c;?\x07");
    assert!(t.clipboard_read_pending());
    t.set_clipboard_policy(ClipboardReadPolicy::Deny, 1_000_000);
    t.answer_clipboard_read(b"secret");
    let responses: Vec<Vec<u8>> = t.responses();
    assert!(
        responses.is_empty(),
        "a policy flip to Deny before answering must suppress the response"
    );
}

#[test]
fn refusal_drops_a_waiting_read_for_good() {
    let mut t = term();
    t.set_clipboard_policy(ClipboardReadPolicy::Allow, 100);
    t.feed(b"\x1b]52;c;?\x07");
    t.set_clipboard_policy(ClipboardReadPolicy::Deny, 100);
    t.set_clipboard_policy(ClipboardReadPolicy::Allow, 100);
    assert!(!t.clipboard_read_pending());
    t.answer_clipboard_read(b"secret");
    assert!(t.responses().is_empty());
}

#[test]
fn output_goes_to_the_engine_whole() {
    let mut t = term();
    t.feed(b"a\x1b]52;c;?\x07b");
    assert_eq!(
        t.take_commands(),
        vec![VtCommand::Write(b"a\x1b]52;c;?\x07b".to_vec())]
    );
    assert!(t.take_commands().is_empty());
}

#[test]
fn construction_can_fail() {
    let failed = Created {
        code: -3,
        has_handle: true,
    };
    assert_eq!(
        Terminal::new(80, 24, VtOptions::default(), failed).err(),
        Some(TermError::Ffi(-3))
    );
    let empty = Created {
        code: 0,
        has_handle: false,
    };
    assert_eq!(
        Terminal::new(80, 24, VtOptions::default(), empty).err(),
        Some(TermError::NullHandle)
    );
    assert_eq!(
        TermError::Ffi(-3).to_string(),
        "libghostty-vt returned error code -3"
    );
    assert_eq!(
        TermError::Ffi(i32::MIN).to_string(),
        "libghostty-vt returned error code -2147483648"
    );
    assert_eq!(
        TermError::NullHandle.to_string(),
        "libghostty-vt returned a null terminal handle"
    );
    assert_eq!(
        Terminal::creation(80, 24, VtOptions::default()),
        VtCommand::Create {
            cols: 80,
            rows: 24,
            max_scrollback: 12_000_000
        }
    );
}

#[test]
fn resizes_take_effect_when_the_engine_agrees() {
    let mut t = term();
    assert!(matches!(
        t.resizing(100, 30),
        VtCommand::Resize {
            cols: 100,
            rows: 30,
            ..
        }
    ));
    assert_eq!(t.resize(100, 30, -1), Err(TermError::Ffi(-1)));
    assert_eq!((t.cols(), t.rows()), (80, 24));
    assert_eq!(t.resize(100, 30, 0), Ok(()));
    assert_eq!((t.cols(), t.rows()), (100, 30));
}

#[test]
fn responses_are_queued_in_order() {
    let mut t = term();
    t.push_response(b"one");
    t.push_response(b"");
    t.push_response(b"two");
    assert_eq!(t.responses(), vec![b"one".to_vec(), b"two".to_vec()]);
    assert!(t.responses().is_empty());
}

#[test]
fn scrolling_is_requested_from_the_engine() {
    let mut t = term();
    t.scroll_viewport(-3);
    t.scroll_to_top();
    t.scroll_to_bottom();
    assert_eq!(
        t.take_commands(),
        vec![
            VtCommand::ScrollDelta(-3),
            VtCommand::ScrollTop,
            VtCommand::ScrollBottom
        ]
    );
}

#[test]
fn unanswered_readings_have_defaults() {
    let t = term();
    assert!(t.is_at_bottom());
    assert_eq!(t.scrollback_len(), 0);
    assert_eq!(t.total_rows(), 0);
    assert_eq!(t.viewport_offset(), 0);
    assert!(!t.mouse_reporting_active());
    assert!(!t.bracketed_paste_active());
    assert_eq!(t.kitty_flags(), 0);
    assert_eq!(t.current_pwd(), None);
}

#[test]
fn readings_are_given_back() {
    let mut t = term();
    t.observe(VtReadings {
        viewport_active: Some(false),
        scrollback_rows: Some(76),
        total_rows: Some(100),
        scrollbar: Some(Scrollbar {
            total: 100,
            offset: 40,
            len: 24,
        }),
        mouse_tracking: Some(true),
        bracketed_paste: Some(true),
        kitty_flags: Some(5),
        pwd: Some(b"/home".to_vec()),
    });
    assert!(!t.is_at_bottom());
    assert_eq!(t.scrollback_len(), 76);
    assert_eq!(t.total_rows(), 100);
    assert_eq!(t.viewport_offset(), 36);
    assert!(t.mouse_reporting_active());
    assert!(t.bracketed_paste_active());
    assert_eq!(t.kitty_flags(), 5);
    assert_eq!(t.current_pwd().as_deref(), Some("/home"));
    t.observe(VtReadings::none());
    assert!(t.is_at_bottom());
}

#[test]
fn working_directory_is_decoded() {
    let mut t = term();
    let mut reported = |bytes: &[u8]| {
        let mut readings = VtReadings::none();
        readings.pwd = Some(bytes.to_vec());
        t.observe(readings);
        t.current_pwd()
    };
    assert_eq!(
        reported(b"file:///caf%C3%A9").as_deref(),
        Some("file:///caf%C3%A9")
    );
    assert_eq!(reported("/café".as_bytes()).as_deref(), Some("/café"));
    assert_eq!(reported(b"/a\xff").as_deref(), Some("/a\u{fffd}"));
    assert_eq!(reported(b""), None);
}

#[test]
fn viewport_offset_never_underflows() {
    let mut t = term();
    let mut readings = VtReadings::none();
    readings.scrollbar = Some(Scrollbar {
        total: 10,
        offset: usize::MAX,
        len: 24,
    });
    t.observe(readings);
    assert_eq!(t.viewport_offset(), 0);
}

#[test]
fn viewport_rows_are_read_cell_by_cell() {
    let cells = [
        ViewportCell::Read(Some('h' as u32)),
        ViewportCell::Unreadable,
        ViewportCell::Read(Some(0)),
        ViewportCell::Read(Some('i' as u32)),
        ViewportCell::Read(Some(' ' as u32)),
        ViewportCell::Read(None),
        ViewportCell::Unresolved,
        ViewportCell::Read(Some('x' as u32)),
    ];
    assert_eq!(Terminal::viewport_row_text(&cells), Some("hi".to_string()));
    assert_eq!(Terminal::viewport_row_text(&cells[6..]), None);
    assert_eq!(Terminal::viewport_row_text(&[]), Some(String::new()));
}

#[test]
fn default_retention_is_the_byte_budget() {
    assert_eq!(VtOptions::default().max_scrollback, 12_000_000);
}

// ---- selections -----------------------------------------------------------------

#[test]
fn block_spans_cover_the_rectangle() {
    let mut t = sized(20, 5);
    t.feed(b"ABCDEFGH\r\nIJKLMNOP\r\nQRSTUVWX");

    t.selection_press(2, 0, SelectionMode::Block);
    run_engine(&mut t);
    t.selection_drag(4, 2);
    run_engine(&mut t);

    let spans = t.selection_spans();
    assert_eq!(spans.len(), 3, "one span per row in the rectangle");
    for (i, span) in spans.iter().enumerate() {
        assert_eq!(span.row, i as u16);
        assert_eq!(span.col_start, 2);
        assert_eq!(span.col_end, 5, "half-open end past inclusive col 4");
    }
}

#[test]
fn linear_spans_first_interior_last() {
    let mut t = sized(10, 5);
    t.feed(b"0123456789abcdefghijABCDE");

    t.selection_press(3, 0, SelectionMode::Linear);
    run_engine(&mut t);
    t.selection_drag(2, 2);
    run_engine(&mut t);

    let spans = t.selection_spans();
    assert_eq!(spans.len(), 3);
    assert_eq!((spans[0].row, spans[0].col_start, spans[0].col_end), (0, 3, 10));
    assert_eq!((spans[1].row, spans[1].col_start, spans[1].col_end), (1, 0, 10));
    assert_eq!((spans[2].row, spans[2].col_start, spans[2].col_end), (2, 0, 3));
}

#[test]
fn clear_selection_removes_text() {
    let mut t = sized(20, 3);
    t.feed(b"hello");
    t.selection_press(0, 0, SelectionMode::Linear);
    run_engine(&mut t);
    t.selection_drag(4, 0);
    run_engine(&mut t);
    assert!(t.has_selection());
    let (size, fill) = written("hello");
    assert_eq!(t.selection_text(size, fill).as_deref(), Some("hello"));

    t.clear_selection();
    assert_eq!(t.take_commands(), vec![VtCommand::Deselect]);
    assert!(!t.has_selection());
    let (size, fill) = written("hello");
    assert_eq!(t.selection_text(size, fill), None, "no text after clear");
    assert!(t.selection_spans().is_empty());
    t.clear_selection();
    assert!(t.take_commands().is_empty());
}

#[test]
fn stray_drag_without_press_is_noop() {
    let mut t = sized(20, 3);
    t.feed(b"hello");
    run_engine(&mut t);
    t.selection_drag(4, 0);
    assert!(t.take_commands().is_empty());
    assert!(!t.has_selection());
    let (size, fill) = written("hello");
    assert_eq!(t.selection_text(size, fill), None);
}

#[test]
fn release_keeps_the_selection() {
    let mut t = sized(20, 3);
    t.selection_release(1, 1);
    assert!(t.take_commands().is_empty());
    t.selection_press(0, 0, SelectionMode::Block);
    run_engine(&mut t);
    t.selection_release(99, 99);
    assert_eq!(
        t.take_commands(),
        vec![VtCommand::Select(SelectionState {
            mode: SelectionMode::Block,
            anchor: (0, 0),
            cursor: (19, 2),
        })]
    );
    assert_eq!(t.selection_mode(), Some(SelectionMode::Block));
}

#[test]
fn unresolved_selections_change_nothing() {
    let mut t = sized(20, 3);
    let state = SelectionState {
        mode: SelectionMode::Linear,
        anchor: (0, 0),
        cursor: (1, 0),
    };
    t.install_selection(state, false);
    assert!(!t.has_selection());
    assert_eq!(t.selection_mode(), None);
}

#[test]
fn selected_text_needs_an_answer() {
    let mut t = sized(20, 3);
    t.selection_press(0, 0, SelectionMode::Linear);
    run_engine(&mut t);
    let none = TextSize {
        status: FormatStatus::NoValue,
        needed: 5,
    };
    assert_eq!(t.selection_text_size(none), None);
    let (size, fill) = written("");
    assert_eq!(t.selection_text_size(size), None);
    assert_eq!(t.selection_text(size, fill), None);
    let (size, mut fill) = written("abc");
    assert_eq!(t.selection_text_size(size), Some(3));
    fill.written = 2;
    assert_eq!(t.selection_text(size, fill).as_deref(), Some("ab"));
    let (size, mut fill) = written("abc");
    fill.written = 0;
    assert_eq!(t.selection_text(size, fill), None);
    let (size, mut fill) = written("abc");
    fill.status = FormatStatus::Other;
    assert_eq!(t.selection_text(size, fill), None);
    let (size, mut fill) = written("abc");
    fill.buffer = vec![0x61, 0xff, 0x62];
    assert_eq!(t.selection_text(size, fill).as_deref(), Some("a\u{fffd}b"));
}

#[test]
fn spans_do_not_depend_on_the_drag_direction() {
    for mode in [SelectionMode::Linear, SelectionMode::Block] {
        let down = SelectionState {
            mode,
            anchor: (6, 1),
            cursor: (2, 3),
        };
        let up = SelectionState {
            mode,
            anchor: (2, 3),
            cursor: (6, 1),
        };
        assert_eq!(spans_of(down, 10), spans_of(up, 10));
    }
    let one = SelectionState {
        mode: SelectionMode::Linear,
        anchor: (5, 2),
        cursor: (3, 2),
    };
    assert_eq!(
        spans_of(one, 10),
        vec![SelectionSpan {
            row: 2,
            col_start: 3,
            col_end: 6
        }]
    );
}

#[test]
fn cells_are_clamped_to_the_grid() {
    assert_eq!(clamp_cell(5, 5, 80, 24), (5, 5));
    assert_eq!(clamp_cell(80, 24, 80, 24), (79, 23));
    assert_eq!(clamp_cell(3, 3, 0, 0), (0, 0));
}

// ---- snapshots ------------------------------------------------------------------

fn style_report() -> StyleReport {
    StyleReport {
        bold: true,
        fg: StyleColor::Rgb(10, 20, 30),
        underline: 3,
        ..plain_style()
    }
}

fn plain_style() -> StyleReport {
    StyleReport {
        bold: false,
        italic: false,
        faint: false,
        blink: false,
        inverse: false,
        invisible: false,
        strikethrough: false,
        overline: false,
        underline: 0,
        fg: StyleColor::Unset,
        bg: StyleColor::Unset,
        underline_color: StyleColor::Unset,
    }
}

fn cell_report(c: char) -> CellReport {
    CellReport {
        codepoint: Some(c as u32),
        wide: Some(0),
        has_hyperlink: Some(false),
        style: Some(plain_style()),
    }
}

fn report(rows: &[&str]) -> GridReport {
    GridReport {
        rows: rows
            .iter()
            .map(|r| RowReport {
                cells: r.chars().map(|c| Some(cell_report(c))).collect(),
                flags: Some((Some(true), Some(false))),
            })
            .collect(),
        cursor_x: Some(1),
        cursor_y: Some(0),
        cursor_visible: Some(true),
    }
}

#[test]
fn snapshot_mirrors_the_report() {
    let mut out = GridSnapshot::new();
    term().snapshot(&report(&["hi", "yo"]), &mut out);
    assert_eq!((out.cols(), out.rows()), (80, 24));
    assert_eq!(out.cell(0, 0).map(|c| c.codepoint), Some('h' as u32));
    assert_eq!(out.cell(1, 1).map(|c| c.codepoint), Some('o' as u32));
    assert_eq!(out.cell(2, 0), Some(&Cell::default()));
    assert_eq!(out.cell(80, 0), None);
    assert_eq!(out.cell(0, 24), None);
    assert_eq!((out.cursor.x, out.cursor.y), (1, 0));
}

#[test]
fn snapshots_are_empty_by_default() {
    let row = RowSnapshot::default();
    assert!(row.cells.is_empty() && !row.dirty && !row.wrapped);
    let grid = GridSnapshot::default();
    assert_eq!((grid.cols(), grid.rows()), (0, 0));
    assert!(grid.rows_data.is_empty() && grid.free_rows.is_empty());
    assert_eq!(grid.cursor, CursorSnapshot::default());
}

#[test]
fn snapshot_keeps_as_many_buffers_as_it_had() {
    let mut out = GridSnapshot::new();
    fill_snapshot(&report(&["a"]), 4, 5, &mut out);
    assert_eq!(out.free_rows.len(), 0);
    out.reset(4, 2);
    assert_eq!(out.free_rows.len(), 5);
    let row = out.take_row_buf();
    assert_eq!(out.free_rows.len(), 4);
    assert!(row.capacity() >= 4);
    fill_snapshot(&report(&["b"]), 4, 3, &mut out);
    assert_eq!(out.free_rows.len(), 1);
}

#[test]
fn snapshot_buffers_are_reused() {
    let mut out = GridSnapshot::new();
    fill_snapshot(&report(&["hello"]), 5, 2, &mut out);
    assert_eq!(out.rows_data.len(), 2);
    assert_eq!(out.rows_data[0].cells.len(), 5);
    fill_snapshot(&report(&["x"]), 3, 1, &mut out);
    assert_eq!(out.rows_data.len(), 1);
    assert_eq!(out.rows_data[0].cells.len(), 3);
    assert_eq!(out.free_rows.len(), 1);
    out.reset(3, 1);
    assert!(out.rows_data.is_empty());
    assert!(out.take_row_buf().is_empty());
    out.push_row(RowSnapshot {
        cells: Vec::new(),
        dirty: true,
        wrapped: true,
    });
    assert_eq!(out.rows_data.len(), 1);
}

#[test]
fn unreadable_cells_are_blank() {
    assert_eq!(read_cell(None), Cell::default());
    let mut partial = cell_report('x');
    partial.wide = Some(1);
    partial.has_hyperlink = Some(true);
    partial.style = Some(style_report());
    let cell = read_cell(Some(partial));
    assert_eq!(cell.codepoint, 'x' as u32);
    assert_eq!(cell.width, CellWidth::Wide);
    assert_eq!(cell.hyperlink_id, 1);
    assert!(cell.style.bold);
    assert_eq!(cell.style.underline, Underline::Curly);
    assert_eq!(cell.style.fg, StyleColor::Rgb(10, 20, 30));
    assert_eq!(read_style(None), StyleSnapshot::default());
}

#[test]
fn raw_numbers_are_named() {
    assert_eq!(CellWidth::from_raw(0), CellWidth::Narrow);
    assert_eq!(CellWidth::from_raw(2), CellWidth::SpacerTail);
    assert_eq!(CellWidth::from_raw(3), CellWidth::SpacerHead);
    assert_eq!(CellWidth::from_raw(-1), CellWidth::Narrow);
    assert_eq!(Underline::from_raw(0), Underline::Plain);
    assert_eq!(Underline::from_raw(1), Underline::Single);
    assert_eq!(Underline::from_raw(9), Underline::Other(9));
}

#[test]
fn row_flags_and_cursor_have_defaults() {
    let empty = GridReport {
        rows: Vec::new(),
        cursor_x: None,
        cursor_y: None,
        cursor_visible: None,
    };
    assert_eq!(read_row_flags(&empty, 5, 0), (true, false));
    let mut unchanged = report(&["a"]);
    unchanged.rows[0].flags = Some((Some(false), Some(true)));
    assert_eq!(read_row_flags(&unchanged, 5, 0), (false, true));
    let cursor = read_cursor(&empty);
    assert_eq!((cursor.x, cursor.y), (0, 0));
    assert_eq!(cursor.style, CursorStyle::default());
}

// ---- frames ---------------------------------------------------------------------

fn no_answers() -> Frame {
    Frame {
        cols: None,
        rows: None,
        dirty: None,
        colors: None,
        cursor_style: None,
        cursor_visible: None,
        cursor_blinking: None,
        cursor_password_input: None,
        cursor_in_viewport: None,
        cursor_x: None,
        cursor_y: None,
        cursor_wide_tail: None,
    }
}

#[test]
fn frames_without_answers_have_defaults() {
    let frame = no_answers();
    assert_eq!((frame.cols(), frame.rows()), (0, 0));
    assert_eq!(frame.dirty(), Dirty::Full);
    let colors = frame.colors();
    assert_eq!(colors.background, (0, 0, 0));
    assert_eq!(colors.foreground, (255, 255, 255));
    assert_eq!(colors.cursor, None);
    let cursor = frame.cursor();
    assert_eq!(cursor.style, CursorVisualStyle::Block);
    assert_eq!(cursor.style_as_snapshot(), CursorStyle::Block);
}

#[test]
fn frames_give_answers_back() {
    let mut frame = no_answers();
    frame.cols = Some(80);
    frame.rows = Some(24);
    frame.dirty = Some(DirtyReport::SomeRows);
    let colors = Colors {
        background: (1, 2, 3),
        foreground: (4, 5, 6),
        cursor: Some((7, 8, 9)),
        palette: [(0, 0, 0); 256],
    };
    frame.colors = Some(colors);
    assert_eq!((frame.cols(), frame.rows()), (80, 24));
    assert_eq!(frame.dirty(), Dirty::Partial);
    assert!(frame.dirty().needs_redraw());
    assert!(!Dirty::from_raw(Some(DirtyReport::Unchanged)).needs_redraw());
    assert_eq!(Dirty::from_raw(Some(DirtyReport::Other)), Dirty::Full);
    assert_eq!(frame.colors().background, (1, 2, 3));
    assert_eq!(
        CursorVisualStyle::HollowBlock.as_snapshot(),
        CursorStyle::HollowBlock
    );
}

#[test]
fn render_handles_are_released_last_to_first() {
    let mut state = RenderState::new();
    assert_eq!(state.next_handle(), Some(RenderHandle::State));
    assert_eq!(state.allocated(0), Ok(()));
    assert_eq!(state.next_handle(), Some(RenderHandle::RowIterator));
    assert_eq!(state.allocated(0), Ok(()));
    assert_eq!(state.next_handle(), Some(RenderHandle::RowCells));
    assert_eq!(state.allocated(-2), Err(TermError::Ffi(-2)));
    assert_eq!(
        state.release(),
        vec![RenderHandle::RowIterator, RenderHandle::State]
    );
    assert!(state.release().is_empty());
    for _ in 0..3 {
        assert_eq!(state.allocated(0), Ok(()));
    }
    assert_eq!(state.next_handle(), None);
    assert_eq!(state.release().len(), 3);
}

#[test]
fn render_updates_can_fail() {
    let state = RenderState::new();
    assert_eq!(state.update(0, Some(DirtyReport::Unchanged)), Ok(Dirty::Clean));
    assert_eq!(state.update(0, None), Ok(Dirty::Full));
    assert_eq!(
        state.update(-4, Some(DirtyReport::SomeRows)),
        Err(TermError::Ffi(-4))
    );
}

#[test]
fn rows_and_cells_of_a_frame() {
    let selection = RowSelection {
        start_x: 1,
        end_x: 4,
    };
    let row = RowRef {
        dirty: None,
        selection: Some(selection),
    };
    assert!(!row.dirty());
    assert_eq!(row.selection(), Some(selection));
    let cell = CellRef {
        codepoint: None,
        wide: Some(1),
        has_hyperlink: Some(true),
        has_styling: None,
        selected: Some(true),
        style: Some(style_report()),
    };
    assert_eq!(cell.codepoint(), 0);
    assert_eq!(cell.width(), CellWidth::Wide);
    assert!(cell.has_hyperlink());
    assert!(!cell.has_styling());
    assert!(cell.selected());
    assert!(cell.style().bold);
}

// ---- modes and schedules --------------------------------------------------------

#[test]
fn modes_pack_and_unpack() {
    let m = ghostty_mode_new(MODE_BRACKETED_PASTE, false);
    assert_eq!(m, 2004);
    assert_eq!(ghostty_mode_value(m), 2004);
    assert!(!ghostty_mode_ansi(m));
    let a = ghostty_mode_new(4, true);
    assert_eq!(a, 0x8004);
    assert_eq!(ghostty_mode_value(a), 4);
    assert!(ghostty_mode_ansi(a));
    let wide = ghostty_mode_new(0x8004, false);
    assert_eq!(ghostty_mode_value(wide), 4);
    assert!(!ghostty_mode_ansi(wide));
    for mode in [0, 2004, 0x7fff, 0x8000, 0x8004, 0xffff] {
        assert_eq!(
            ghostty_mode_new(ghostty_mode_value(mode), ghostty_mode_ansi(mode)),
            mode
        );
    }
}

#[test]
fn schedules_take_bytes_in_order() {
    let mut pos = 0;
    assert_eq!(take_byte(&[7, 9], &mut pos), 7);
    assert_eq!(take_byte(&[7, 9], &mut pos), 9);
    assert_eq!(take_byte(&[7, 9], &mut pos), 0);
    assert_eq!(pos, 3);
    let data = [2u8, b'a', b'b', b'c', 0, b'd', 10, 20, 1, b'e', b'f'];
    let first = next_step(&data, 0);
    assert_eq!((first.start, first.end, first.next), (1, 4, 4));
    assert_eq!(first.follow_up, FollowUp::Nothing);
    let second = next_step(&data, first.next);
    assert_eq!((second.start, second.end, second.next), (5, 6, 8));
    assert_eq!(second.follow_up, FollowUp::Resize { cols: 12, rows: 21 });
    let third = next_step(&data, second.next);
    assert_eq!((third.start, third.end, third.next), (9, 11, 11));
    assert_eq!(third.follow_up, FollowUp::Snapshot);
}

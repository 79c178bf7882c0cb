use banshee::input::keys::Key;
use banshee::shell::clipboard::{
    clipboard_units, detect_copy_paste, text_from_clipboard, CopyPasteKey,
};
use banshee::shell::ime::{
    candidate_area, parse_composition, suppress_system_composition_window, CommitSwallow,
    CompositionEvent, CompositionOverlay, CursorRect, ExcludeArea, ImeAction, ImeSession,
};
use banshee::shell::paint::{
    buffer_resize, drawable_size, pattern_cell, refresh_paint, Paint, PixelRect,
};
use banshee::shell::selftest::{
    cells_text, command_keystrokes, echo_keystrokes, find_marked_row, run_mode, text_occurs,
    EchoTest, RunMode,
};
use banshee::shell::utf16::{caret_chars, encode_utf16, utf16_to_string};
use banshee::shell::window::{
    char_to_bytes, enter_bytes, typed_bytes, vk_name, vk_to_key, Focus, Observation, WindowState,
};
use banshee::term::snapshot::{
    Cell, CellWidth, GridSnapshot, RowSnapshot, StyleColor, StyleSnapshot,
};

fn update(text: &str, caret: usize) -> CompositionEvent {
    CompositionEvent::Update {
        comp_text: text.to_string(),
        caret,
    }
}

fn commit(text: &str) -> CompositionEvent {
    CompositionEvent::Commit {
        result_text: text.to_string(),
    }
}

#[test]
fn copy_chord_requires_ctrl_shift() {
    assert_eq!(detect_copy_paste(0x43, true, true, false), Some(CopyPasteKey::Copy));
    assert_eq!(detect_copy_paste(0x56, true, true, false), Some(CopyPasteKey::Paste));
    // Without Shift the chord belongs to the program.
    assert_eq!(detect_copy_paste(0x43, true, false, false), None);
    // With Alt held it is another chord.
    assert_eq!(detect_copy_paste(0x43, true, true, true), None);
    assert_eq!(detect_copy_paste(0x41, true, true, false), None);
}

#[test]
fn clipboard_text_is_lossless() {
    let sample = "banshee-selection ✓ 日本語 🎉";
    let units = clipboard_units(sample);
    assert_eq!(units.last(), Some(&0));
    assert_eq!(text_from_clipboard(&units), sample);
}

#[test]
fn clipboard_text_ends_at_the_first_zero() {
    assert_eq!(text_from_clipboard(&[0x61, 0x62, 0, 0x63]), "ab");
    assert_eq!(text_from_clipboard(&[0x61, 0x62]), "ab");
    assert_eq!(text_from_clipboard(&[]), "");
    assert_eq!(text_from_clipboard(&clipboard_units("a\0b")), "a");
}

#[test]
fn full_compose_commit_walk() {
    let mut s = ImeSession::new();
    assert!(s.on_event(CompositionEvent::Start).is_empty());
    assert_eq!(
        s.on_event(update("に", 1)),
        vec![ImeAction::RenderInline {
            text: "に".into(),
            caret: 1
        }]
    );
    assert_eq!(
        s.on_event(update("にほ", 2)),
        vec![ImeAction::RenderInline {
            text: "にほ".into(),
            caret: 2
        }]
    );
    assert_eq!(
        s.on_event(update("日本", 2)),
        vec![ImeAction::RenderInline {
            text: "日本".into(),
            caret: 2
        }]
    );
    assert_eq!(
        s.on_event(commit("日本")),
        vec![ImeAction::ClearInline, ImeAction::SendToPty("日本".into())]
    );
    assert!(!s.is_composing());
    assert!(s.on_event(CompositionEvent::End).is_empty());
}

#[test]
fn commit_sends_exactly_once() {
    let mut s = ImeSession::new();
    s.on_event(CompositionEvent::Start);
    s.on_event(update("あ", 1));
    let mut sends = 0;
    for a in s.on_event(commit("亜")) {
        if let ImeAction::SendToPty(t) = a {
            assert_eq!(t, "亜");
            sends += 1;
        }
    }
    for a in s.on_event(CompositionEvent::End) {
        assert!(!matches!(a, ImeAction::SendToPty(_)));
    }
    assert_eq!(sends, 1);
}

#[test]
fn focus_loss_cancels_no_send() {
    let mut s = ImeSession::new();
    s.on_event(CompositionEvent::Start);
    s.on_event(update("にほ", 2));
    let actions = s.on_event(CompositionEvent::FocusLost);
    assert_eq!(actions, vec![ImeAction::ClearInline]);
    assert!(!actions.iter().any(|a| matches!(a, ImeAction::SendToPty(_))));
    assert!(!s.is_composing());
}

#[test]
fn focus_loss_idle_is_noop() {
    let mut s = ImeSession::new();
    assert!(s.on_event(CompositionEvent::FocusLost).is_empty());
}

#[test]
fn commit_then_new_composition() {
    let mut s = ImeSession::new();
    s.on_event(CompositionEvent::Start);
    s.on_event(update("か", 1));
    let commit_actions = s.on_event(commit("可"));
    assert_eq!(
        commit_actions,
        vec![ImeAction::ClearInline, ImeAction::SendToPty("可".into())]
    );
    assert!(!s.is_composing());
    let update_actions = s.on_event(update("き", 1));
    assert_eq!(
        update_actions,
        vec![ImeAction::RenderInline {
            text: "き".into(),
            caret: 1
        }]
    );
    assert!(s.is_composing());
}

#[test]
fn surrogate_pair_roundtrips() {
    for text in ["🎉", "你", "🎉你🎉"] {
        let mut s = ImeSession::new();
        s.on_event(CompositionEvent::Start);
        let n = text.chars().count();
        s.on_event(update(text, n));
        let actions = s.on_event(commit(text));
        assert!(
            actions.contains(&ImeAction::SendToPty(text.to_string())),
            "expected exact UTF-8 commit for {text:?}"
        );
    }
}

#[test]
fn emoji_picker_single_commit() {
    let mut s = ImeSession::new();
    let actions = s.on_event(commit("😀"));
    assert_eq!(
        actions,
        vec![ImeAction::ClearInline, ImeAction::SendToPty("😀".into())]
    );
}

#[test]
fn empty_update_clears_but_keeps_composing() {
    let mut s = ImeSession::new();
    s.on_event(CompositionEvent::Start);
    s.on_event(update("あ", 1));
    assert_eq!(s.on_event(update("", 0)), vec![ImeAction::ClearInline]);
    assert!(s.is_composing());
}

#[test]
fn caret_clamped_to_len() {
    let mut s = ImeSession::new();
    s.on_event(CompositionEvent::Start);
    let actions = s.on_event(update("ab", 99));
    assert_eq!(
        actions,
        vec![ImeAction::RenderInline {
            text: "ab".into(),
            caret: 2
        }]
    );
}

#[test]
fn empty_commit_sends_nothing() {
    let mut s = ImeSession::default();
    assert!(!s.is_composing());
    assert_eq!(s.on_event(commit("")), vec![ImeAction::ClearInline]);
}

#[test]
fn end_clears_a_running_composition() {
    let mut s = ImeSession::new();
    s.on_event(CompositionEvent::Start);
    assert!(s.is_composing());
    assert_eq!(s.on_event(CompositionEvent::End), vec![ImeAction::ClearInline]);
    assert!(!s.is_composing());
}

#[test]
fn commit_swallow_window_arms_and_disarms() {
    let mut sw = CommitSwallow::new();
    assert!(!sw.is_armed());
    sw.arm("abc");
    assert!(sw.is_armed());
    assert!(sw.offer());
    assert!(sw.offer());
    assert!(sw.offer());
    assert!(!sw.is_armed());
    assert!(!sw.offer());
}

#[test]
fn commit_swallow_counts_code_points_not_utf16() {
    let mut sw = CommitSwallow::new();
    sw.arm("🎉");
    assert!(sw.offer());
    assert!(!sw.is_armed());
}

#[test]
fn commit_swallow_explicit_disarm() {
    let mut sw = CommitSwallow::new();
    sw.arm("abc");
    assert!(sw.is_armed());
    sw.disarm();
    assert!(!sw.is_armed());
    assert!(!sw.offer());
}

#[test]
fn commit_swallow_starts_disarmed() {
    let mut sw = CommitSwallow::default();
    assert!(!sw.offer());
}

#[test]
fn composition_message_commits_before_it_updates() {
    let events = parse_composition(0x0808, "可".to_string(), "き".to_string(), 1);
    assert_eq!(events, vec![commit("可"), update("き", 1)]);
}

#[test]
fn composition_message_reads_what_its_flags_name() {
    let both = || ("r".to_string(), "c".to_string());
    let (r, c) = both();
    assert_eq!(parse_composition(0x0800, r, c, 0), vec![commit("r")]);
    let (r, c) = both();
    assert_eq!(parse_composition(0x0008, r, c, 0), vec![update("c", 0)]);
    let (r, c) = both();
    assert!(parse_composition(0x0010, r, c, 0).is_empty());
    // An empty result is no commit; an empty preview is an update.
    assert!(parse_composition(0x0800, String::new(), String::new(), 0).is_empty());
    assert_eq!(
        parse_composition(0x0008, String::new(), String::new(), -1),
        vec![update("", 0)]
    );
}

#[test]
fn caret_is_counted_in_characters() {
    assert_eq!(caret_chars(0, "🎉你"), 0);
    assert_eq!(caret_chars(1, "🎉你"), 1);
    assert_eq!(caret_chars(2, "🎉你"), 1);
    assert_eq!(caret_chars(3, "🎉你"), 2);
    assert_eq!(caret_chars(9, "🎉你"), 2);
    assert_eq!(caret_chars(-1, "🎉你"), 2);
    assert_eq!(caret_chars(i32::MAX, "ab"), 2);
}

#[test]
fn utf16_pairs_and_lone_halves() {
    assert_eq!(encode_utf16("a🎉"), vec![0x61, 0xd83c, 0xdf89]);
    assert_eq!(utf16_to_string(&[0x61, 0xd83c, 0xdf89]), "a🎉");
    assert_eq!(utf16_to_string(&[0xd83c, 0x61]), "\u{fffd}a");
    assert_eq!(utf16_to_string(&[0xdf89, 0xd83c]), "\u{fffd}\u{fffd}");
    assert_eq!(utf16_to_string(&[]), "");
}

#[test]
fn utf16_agrees_with_std() {
    let samples: [&[u16]; 4] = [
        &[0xd800, 0xd800, 0xdc00],
        &[0xffff, 0xe000, 0xd7ff],
        &[0xdbff, 0xdfff, 0xdc00],
        &[0x41, 0xd83d],
    ];
    for units in samples {
        assert_eq!(utf16_to_string(units), String::from_utf16_lossy(units));
    }
    let text = "aé€𐍈\u{10ffff}";
    assert_eq!(encode_utf16(text), text.encode_utf16().collect::<Vec<u16>>());
    assert_eq!(utf16_to_string(&encode_utf16(text)), text);
}

#[test]
fn candidates_leave_the_cursor_free() {
    let rect = CursorRect {
        x: 10,
        y: 20,
        w: 8,
        h: 16,
    };
    assert_eq!(
        candidate_area(rect),
        ExcludeArea {
            left: 10,
            top: 20,
            right: 18,
            bottom: 36
        }
    );
    assert_eq!(
        candidate_area(CursorRect::default()),
        ExcludeArea {
            left: 0,
            top: 0,
            right: 0,
            bottom: 0
        }
    );
}

#[test]
fn system_composition_window_is_suppressed() {
    assert_eq!(suppress_system_composition_window(0xc000_000f), 0x4000_000f);
    assert_eq!(suppress_system_composition_window(0x0000_000f), 0x0000_000f);
}

#[test]
fn overlay_holds_the_preview() {
    let overlay = CompositionOverlay {
        text: "にほ".to_string(),
        caret_idx: 2,
        origin_col: 4,
        origin_row: 7,
    };
    assert_eq!(overlay.clone(), overlay);
}

// ---- window messages ------------------------------------------------------------

#[test]
fn virtual_keys_without_characters() {
    assert_eq!(vk_to_key(0x21), Some(Key::PageUp));
    assert_eq!(vk_to_key(0x22), Some(Key::PageDown));
    assert_eq!(vk_to_key(0x23), Some(Key::End));
    assert_eq!(vk_to_key(0x24), Some(Key::Home));
    assert_eq!(vk_to_key(0x25), Some(Key::Left));
    assert_eq!(vk_to_key(0x26), Some(Key::Up));
    assert_eq!(vk_to_key(0x27), Some(Key::Right));
    assert_eq!(vk_to_key(0x28), Some(Key::Down));
    assert_eq!(vk_to_key(0x2d), Some(Key::Insert));
    assert_eq!(vk_to_key(0x2e), Some(Key::Delete));
    assert_eq!(vk_to_key(0x70), Some(Key::F(1)));
    assert_eq!(vk_to_key(0x7b), Some(Key::F(12)));
    assert_eq!(vk_to_key(0x7c), None);
    assert_eq!(vk_to_key(0x41), None);
}

#[test]
fn virtual_key_names() {
    assert_eq!(vk_name(0x08), "BACK");
    assert_eq!(vk_name(0x0d), "RETURN");
    assert_eq!(vk_name(0xa5), "RMENU/AltGr");
    assert_eq!(vk_name(0x30), "0-9");
    assert_eq!(vk_name(0x39), "0-9");
    assert_eq!(vk_name(0x41), "A-Z");
    assert_eq!(vk_name(0x5a), "A-Z");
    assert_eq!(vk_name(0x5b), "?");
}

#[test]
fn characters_are_sent_as_utf8() {
    assert_eq!(char_to_bytes(0x61), Some(vec![0x61]));
    assert_eq!(char_to_bytes(0x0d), Some(vec![0x0d]));
    assert_eq!(char_to_bytes(0x03), Some(vec![0x03]));
    assert_eq!(char_to_bytes(0x20ac), Some("€".as_bytes().to_vec()));
    assert_eq!(char_to_bytes(0xd83c), None);
    assert_eq!(char_to_bytes(0x11_0000), None);
    assert_eq!(typed_bytes('é'), "é".as_bytes().to_vec());
    assert_eq!(enter_bytes(), vec![0x0d]);
}

#[test]
fn arrows_are_sent_on_key_down() {
    let mut state = WindowState::default();
    let handled = state.on_message(0x0100, 0x26, 0);
    assert_eq!(
        handled.seen,
        Observation::KeyDown {
            vk: 0x26,
            system: false
        }
    );
    assert_eq!(handled.bytes, Some(b"\x1b[A".to_vec()));
    // Letters wait for their character message, system keys send nothing.
    assert_eq!(state.on_message(0x0100, 0x41, 0).bytes, None);
    assert_eq!(state.on_message(0x0104, 0x26, 0).bytes, None);
    assert_eq!(
        state.on_message(0x0101, 0x26, 0).seen,
        Observation::KeyUp { vk: 0x26 }
    );
    assert_eq!(
        state.on_message(0x0105, 0x26, 0).seen,
        Observation::KeyUp { vk: 0x26 }
    );
    assert_eq!(state, WindowState::default());
}

#[test]
fn character_messages_are_forwarded() {
    let mut state = WindowState::default();
    let handled = state.on_message(0x0102, 0x61, 0);
    assert_eq!(handled.seen, Observation::Character { code: 0x61 });
    assert_eq!(handled.bytes, Some(vec![0x61]));
}

#[test]
fn compositions_and_focus_are_tracked() {
    let mut state = WindowState::default();
    assert_eq!(state.focus.label(), "unknown");
    assert_eq!(state.on_message(0x0007, 0, 0).seen, Observation::FocusGained);
    assert_eq!(state.focus, Focus::Focused);
    assert_eq!(state.focus.label(), "focused");
    assert_eq!(
        state.on_message(0x010d, 0, 0).seen,
        Observation::CompositionStarted
    );
    assert!(state.composing);
    assert_eq!(
        state.on_message(0x010f, 0, 0x0808).seen,
        Observation::CompositionCommitted { flags: 0x0808 }
    );
    assert_eq!(
        state.on_message(0x010f, 0, 0x0008).seen,
        Observation::CompositionUpdated { flags: 0x0008 }
    );
    assert_eq!(
        state.on_message(0x010f, 0, 0x0001).seen,
        Observation::CompositionMessage { flags: 0x0001 }
    );
    assert_eq!(
        state.on_message(0x0008, 0, 0).seen,
        Observation::FocusLost { composing: true }
    );
    assert_eq!(state.focus.label(), "blurred");
    assert_eq!(
        state.on_message(0x010e, 0, 0).seen,
        Observation::CompositionEnded
    );
    assert!(!state.composing);
    assert_eq!(
        state.on_message(0x0008, 0, 0).seen,
        Observation::FocusLost { composing: false }
    );
    assert_eq!(state.on_message(0x000f, 0, 0).seen, Observation::Unrelated);
}

// ---- self-tests -----------------------------------------------------------------

fn args(list: &[&str]) -> Vec<String> {
    list.iter().map(|a| a.to_string()).collect()
}

#[test]
fn run_modes_by_argument() {
    assert_eq!(run_mode(&args(&["banshee"])), RunMode::Interactive);
    assert_eq!(run_mode(&args(&["banshee", "--self-test"])), RunMode::SelfTest);
    assert_eq!(
        run_mode(&args(&["banshee", "--self-test", "--echo-selftest"])),
        RunMode::EchoSelfTest
    );
    assert_eq!(run_mode(&args(&["banshee", "--self-test2"])), RunMode::Interactive);
}

fn cell(codepoint: u32, width: CellWidth) -> Cell {
    Cell {
        codepoint,
        width,
        ..Cell::default()
    }
}

fn row(text: &str) -> RowSnapshot {
    RowSnapshot {
        cells: text
            .chars()
            .map(|c| cell(c as u32, CellWidth::Narrow))
            .collect(),
        dirty: false,
        wrapped: false,
    }
}

fn grid(rows: Vec<RowSnapshot>) -> GridSnapshot {
    let mut snapshot = GridSnapshot::new();
    snapshot.cols = 4;
    snapshot.rows = rows.len() as u16;
    snapshot.rows_data = rows;
    snapshot
}

#[test]
fn echo_test_runs_once() {
    let mut test = EchoTest::new(RunMode::EchoSelfTest);
    let empty = grid(vec![row("> ")]);
    let echoed = grid(vec![row("> "), row("> echo m0-e2e   "), row("m0-e2e")]);
    assert!(!test.inject(2499));
    assert_eq!(test.scan(&echoed), None);
    assert!(test.inject(2500));
    assert!(!test.inject(9000));
    assert_eq!(test.scan(&empty), None);
    assert!(!test.concluded(true));
    assert_eq!(test.scan(&echoed), Some("> echo m0-e2e".to_string()));
    assert_eq!(test.scan(&echoed), None);
    assert!(test.concluded(true));
    assert!(!test.concluded(false));
}

#[test]
fn other_modes_type_nothing() {
    let mut test = EchoTest::new(RunMode::Interactive);
    assert!(!test.inject(9000));
    assert_eq!(test.scan(&grid(vec![row("m0-e2e")])), None);
    assert!(!test.concluded(true));
}

#[test]
fn echo_command_is_typed_key_by_key() {
    let strokes = echo_keystrokes();
    assert_eq!(strokes.len(), 12);
    assert_eq!(strokes.concat(), b"echo m0-e2e\r".to_vec());
    assert_eq!(
        command_keystrokes("é"),
        vec!["é".as_bytes().to_vec(), vec![0x0d]]
    );
}

#[test]
fn row_text_skips_spacers() {
    let cells = vec![
        cell('日' as u32, CellWidth::Wide),
        cell(0, CellWidth::SpacerTail),
        cell(0xd800, CellWidth::Narrow),
        cell('x' as u32, CellWidth::Narrow),
    ];
    assert_eq!(cells_text(&cells), "日 x");
}

#[test]
fn marker_is_found_in_the_first_row_that_shows_it() {
    let snapshot = grid(vec![row("abc"), row("xabcx "), row("abcd")]);
    assert_eq!(find_marked_row(&snapshot, "bcx"), Some("xabcx".to_string()));
    assert_eq!(find_marked_row(&snapshot, "zzz"), None);
    assert_eq!(find_marked_row(&snapshot, ""), Some("abc".to_string()));
    assert!(text_occurs("aab", "ab"));
    assert!(!text_occurs("ab", "abc"));
    assert!(text_occurs("", ""));
}

// ---- paint ----------------------------------------------------------------------

#[test]
fn cells_are_painted_by_content() {
    let red = StyleColor::Rgb(255, 0, 0);
    let mut text = cell('a' as u32, CellWidth::Narrow);
    text.style = StyleSnapshot {
        fg: red,
        ..StyleSnapshot::default()
    };
    let blank = cell(0x20, CellWidth::Narrow);
    let mut snapshot = grid(vec![RowSnapshot {
        cells: vec![text, blank],
        dirty: false,
        wrapped: false,
    }]);
    snapshot.cursor.visible = false;
    let mut paint = Vec::new();
    refresh_paint(&mut paint, &snapshot, 3, 2);
    let bg = StyleColor::Unset;
    let first = Paint::Text { bg, fg: red };
    let second = Paint::Blank { bg };
    assert_eq!(
        paint,
        vec![first, second, Paint::Empty, Paint::Empty, Paint::Empty, Paint::Empty]
    );

    snapshot.cursor.visible = true;
    snapshot.cursor.x = 2;
    snapshot.cursor.y = 1;
    refresh_paint(&mut paint, &snapshot, 3, 2);
    assert_eq!(paint[5], Paint::Cursor);

    // What the snapshot does not cover keeps its paint.
    snapshot.cursor.visible = false;
    refresh_paint(&mut paint, &snapshot, 3, 2);
    assert_eq!(paint[5], Paint::Cursor);
    refresh_paint(&mut paint, &snapshot, 1, 1);
    assert_eq!(paint, vec![first]);
}

#[test]
fn cursor_outside_the_grid_is_not_painted() {
    let mut snapshot = grid(vec![]);
    snapshot.cursor.visible = true;
    snapshot.cursor.x = 2;
    let mut paint = Vec::new();
    refresh_paint(&mut paint, &snapshot, 2, 2);
    assert_eq!(paint, vec![Paint::Empty; 4]);
}

#[test]
fn buffers_follow_the_drawing_area() {
    assert_eq!(drawable_size(0, 720), (1, 720));
    assert_eq!(buffer_resize((1280, 720), 1280, 720), None);
    assert_eq!(buffer_resize((1280, 720), 1281, 720), Some((1281, 720)));
    assert_eq!(buffer_resize((1280, 720), 0, 0), Some((1, 1)));
    assert_eq!(buffer_resize((1, 1), 0, 0), None);
}

#[test]
fn pattern_cells_have_gutters() {
    assert_eq!(
        pattern_cell(1280, 720, 0, 0),
        Some(PixelRect {
            left: 1,
            top: 1,
            right: 79,
            bottom: 79
        })
    );
    assert_eq!(
        pattern_cell(1280, 720, 15, 8),
        Some(PixelRect {
            left: 1201,
            top: 641,
            right: 1279,
            bottom: 719
        })
    );
    assert_eq!(pattern_cell(16, 720, 0, 0), None);
    assert_eq!(pattern_cell(1, 1, 3, 3), None);
}

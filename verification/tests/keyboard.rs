use banshee::input::encoder::Encoder;
use banshee::input::keys::{Key, KeyEvent, Modifiers};
use banshee::input::kitty::{
    encode_with_event, EventType, Outcome, DISAMBIGUATE, REPORT_ALL_KEYS, REPORT_ALTERNATE,
    REPORT_EVENTS, REPORT_TEXT,
};
use banshee::input::legacy::{encode_altgr, sum_modifiers, Mode};
use banshee::input::{kitty, legacy};

fn shift() -> Modifiers {
    Modifiers::shift()
}

fn ctrl() -> Modifiers {
    Modifiers::ctrl()
}

fn alt() -> Modifiers {
    Modifiers::alt()
}

fn alt_gr() -> Modifiers {
    Modifiers::alt_gr()
}

fn none() -> Modifiers {
    Modifiers::none()
}

struct Row {
    desc: &'static str,
    flags: u8,
    event: KeyEvent,
    expected: &'static [u8],
}

fn ev(key: Key, mods: Modifiers) -> KeyEvent {
    KeyEvent::new(key, mods)
}

fn evt(key: Key, mods: Modifiers, text: &str) -> KeyEvent {
    KeyEvent::with_text(key, mods, text)
}

fn rows() -> Vec<Row> {
    let m = |desc, flags, event, expected: &'static [u8]| Row {
        desc,
        flags,
        event,
        expected,
    };
    vec![
        m("legacy_plain_a", 0, evt(Key::Char('a'), none(), "a"), b"a"),
        m("legacy_enter", 0, ev(Key::Enter, none()), b"\r"),
        m("legacy_tab", 0, ev(Key::Tab, none()), b"\t"),
        m("legacy_escape", 0, ev(Key::Escape, none()), b"\x1b"),
        m("legacy_backspace", 0, ev(Key::Backspace, none()), b"\x7f"),
        m("legacy_up", 0, ev(Key::Up, none()), b"\x1b[A"),
        m("legacy_ctrl_a", 0, ev(Key::Char('a'), ctrl()), b"\x01"),
        m(
            "a_flag_disambiguate",
            DISAMBIGUATE,
            evt(Key::Char('a'), none(), "a"),
            b"a",
        ),
        m(
            "a_flag_all_keys",
            REPORT_ALL_KEYS,
            evt(Key::Char('a'), none(), "a"),
            b"\x1b[97u",
        ),
        m(
            "a_flag_all_keys_and_text",
            REPORT_ALL_KEYS | REPORT_TEXT,
            evt(Key::Char('a'), none(), "a"),
            b"\x1b[97;1;97u",
        ),
        m(
            "a_flag_text_only_legacy",
            REPORT_TEXT,
            evt(Key::Char('a'), none(), "a"),
            b"a",
        ),
        m("ctrl_a_legacy", 0, ev(Key::Char('a'), ctrl()), b"\x01"),
        m(
            "ctrl_a_disambiguate",
            DISAMBIGUATE,
            ev(Key::Char('a'), ctrl()),
            b"\x1b[97;5u",
        ),
        m(
            "ctrl_a_all_keys",
            REPORT_ALL_KEYS,
            ev(Key::Char('a'), ctrl()),
            b"\x1b[97;5u",
        ),
        m(
            "ctrl_i_legacy_is_tab_byte",
            0,
            ev(Key::Char('i'), ctrl()),
            b"\x09",
        ),
        m(
            "ctrl_i_disambiguate",
            DISAMBIGUATE,
            ev(Key::Char('i'), ctrl()),
            b"\x1b[105;5u",
        ),
        m(
            "tab_disambiguate_stays_legacy",
            DISAMBIGUATE,
            ev(Key::Tab, none()),
            b"\t",
        ),
        m(
            "tab_all_keys",
            REPORT_ALL_KEYS,
            ev(Key::Tab, none()),
            b"\x1b[9u",
        ),
        m(
            "shift_tab_disambiguate",
            DISAMBIGUATE,
            ev(Key::Tab, shift()),
            b"\x1b[9;2u",
        ),
        m(
            "ctrl_m_disambiguate",
            DISAMBIGUATE,
            ev(Key::Char('m'), ctrl()),
            b"\x1b[109;5u",
        ),
        m(
            "ctrl_bracket_disambiguate",
            DISAMBIGUATE,
            ev(Key::Char('['), ctrl()),
            b"\x1b[91;5u",
        ),
        m(
            "shift_a_alternate_keys",
            REPORT_ALTERNATE | REPORT_ALL_KEYS,
            evt(Key::Char('a'), shift(), "A"),
            b"\x1b[97:65;2u",
        ),
        m(
            "shift_a_alternate_only_legacy",
            REPORT_ALTERNATE,
            evt(Key::Char('a'), shift(), "A"),
            b"A",
        ),
        m(
            "ctrl_shift_a_disambiguate",
            DISAMBIGUATE,
            ev(Key::Char('a'), ctrl() | shift()),
            b"\x1b[97;6u",
        ),
        m(
            "escape_disambiguate",
            DISAMBIGUATE,
            ev(Key::Escape, none()),
            b"\x1b[27u",
        ),
        m(
            "escape_all_keys",
            REPORT_ALL_KEYS,
            ev(Key::Escape, none()),
            b"\x1b[27u",
        ),
        m(
            "shift_escape_disambiguate",
            DISAMBIGUATE,
            ev(Key::Escape, shift()),
            b"\x1b[27;2u",
        ),
        m(
            "enter_all_keys",
            REPORT_ALL_KEYS,
            ev(Key::Enter, none()),
            b"\x1b[13u",
        ),
        m(
            "backspace_all_keys",
            REPORT_ALL_KEYS,
            ev(Key::Backspace, none()),
            b"\x1b[127u",
        ),
        m(
            "enter_disambiguate_stays_legacy",
            DISAMBIGUATE,
            ev(Key::Enter, none()),
            b"\r",
        ),
        m(
            "backspace_disambiguate_stays_legacy",
            DISAMBIGUATE,
            ev(Key::Backspace, none()),
            b"\x7f",
        ),
        m(
            "ctrl_enter_disambiguate",
            DISAMBIGUATE,
            ev(Key::Enter, ctrl()),
            b"\x1b[13;5u",
        ),
        m(
            "up_disambiguate_nomods",
            DISAMBIGUATE,
            ev(Key::Up, none()),
            b"\x1b[1A",
        ),
        m(
            "up_shift_disambiguate",
            DISAMBIGUATE,
            ev(Key::Up, shift()),
            b"\x1b[1;2A",
        ),
        m(
            "up_ctrl_disambiguate",
            DISAMBIGUATE,
            ev(Key::Up, ctrl()),
            b"\x1b[1;5A",
        ),
        m(
            "down_alt_disambiguate",
            DISAMBIGUATE,
            ev(Key::Down, alt()),
            b"\x1b[1;3B",
        ),
        m(
            "right_ctrl_shift_disambiguate",
            DISAMBIGUATE,
            ev(Key::Right, ctrl() | shift()),
            b"\x1b[1;6C",
        ),
        m(
            "left_disambiguate",
            DISAMBIGUATE,
            ev(Key::Left, none()),
            b"\x1b[1D",
        ),
        m(
            "home_disambiguate",
            DISAMBIGUATE,
            ev(Key::Home, none()),
            b"\x1b[1H",
        ),
        m(
            "end_ctrl_disambiguate",
            DISAMBIGUATE,
            ev(Key::End, ctrl()),
            b"\x1b[1;5F",
        ),
        m(
            "up_all_keys",
            REPORT_ALL_KEYS,
            ev(Key::Up, none()),
            b"\x1b[1A",
        ),
        m(
            "pageup_disambiguate",
            DISAMBIGUATE,
            ev(Key::PageUp, none()),
            b"\x1b[5~",
        ),
        m(
            "pagedown_shift_disambiguate",
            DISAMBIGUATE,
            ev(Key::PageDown, shift()),
            b"\x1b[6;2~",
        ),
        m(
            "insert_disambiguate",
            DISAMBIGUATE,
            ev(Key::Insert, none()),
            b"\x1b[2~",
        ),
        m(
            "delete_ctrl_disambiguate",
            DISAMBIGUATE,
            ev(Key::Delete, ctrl()),
            b"\x1b[3;5~",
        ),
        m(
            "f1_disambiguate",
            DISAMBIGUATE,
            ev(Key::F(1), none()),
            b"\x1b[1P",
        ),
        m(
            "f4_shift_disambiguate",
            DISAMBIGUATE,
            ev(Key::F(4), shift()),
            b"\x1b[1;2S",
        ),
        m(
            "f5_disambiguate",
            DISAMBIGUATE,
            ev(Key::F(5), none()),
            b"\x1b[15~",
        ),
        m(
            "f12_ctrl_disambiguate",
            DISAMBIGUATE,
            ev(Key::F(12), ctrl()),
            b"\x1b[24;5~",
        ),
        m(
            "ctrl_a_events_press",
            DISAMBIGUATE | REPORT_EVENTS,
            ev(Key::Char('a'), ctrl()),
            b"\x1b[97;5u",
        ),
        m(
            "alt_a_disambiguate",
            DISAMBIGUATE,
            evt(Key::Char('a'), alt(), "a"),
            b"\x1b[97;3u",
        ),
        m(
            "alt_b_legacy",
            0,
            evt(Key::Char('b'), alt(), "b"),
            b"\x1b\x62",
        ),
        m("altgr_at_legacy", 0, evt(Key::Char('q'), alt_gr(), "@"), b"@"),
        m(
            "altgr_at_disambiguate",
            DISAMBIGUATE,
            evt(Key::Char('q'), alt_gr(), "@"),
            b"@",
        ),
        m(
            "altgr_at_all_keys",
            REPORT_ALL_KEYS,
            evt(Key::Char('q'), alt_gr(), "@"),
            b"@",
        ),
        m(
            "altgr_at_all_flags",
            DISAMBIGUATE | REPORT_EVENTS | REPORT_ALTERNATE | REPORT_ALL_KEYS | REPORT_TEXT,
            evt(Key::Char('q'), alt_gr(), "@"),
            b"@",
        ),
        m(
            "altgr_euro_all_keys",
            REPORT_ALL_KEYS,
            evt(Key::Char('e'), alt_gr(), "\u{20AC}"),
            "\u{20AC}".as_bytes(),
        ),
        m(
            "altgr_at_with_spurious_ctrl_alt",
            DISAMBIGUATE,
            evt(Key::Char('q'), alt_gr() | ctrl() | alt(), "@"),
            b"@",
        ),
        m(
            "deadkey_composed_e_circumflex_legacy",
            0,
            evt(Key::Char('e'), none(), "\u{EA}"),
            "\u{EA}".as_bytes(),
        ),
        m(
            "deadkey_bare_circumflex_noop",
            0,
            ev(Key::Char('^'), none()),
            b"",
        ),
        m(
            "deadkey_bare_circumflex_noop_kitty",
            DISAMBIGUATE,
            ev(Key::Char('^'), none()),
            b"",
        ),
        m(
            "ctrl_space_legacy_nul",
            0,
            ev(Key::Char(' '), ctrl()),
            b"\x00",
        ),
        m(
            "ctrl_space_disambiguate",
            DISAMBIGUATE,
            ev(Key::Char(' '), ctrl()),
            b"\x1b[32;5u",
        ),
        m(
            "ctrl_bracket_legacy_esc",
            0,
            ev(Key::Char('['), ctrl()),
            b"\x1b",
        ),
        m("numpad_enter_legacy", 0, ev(Key::Enter, none()), b"\r"),
        m(
            "numpad_enter_all_keys",
            REPORT_ALL_KEYS,
            ev(Key::Enter, none()),
            b"\x1b[13u",
        ),
        m(
            "shift_a_all_keys_text",
            REPORT_ALL_KEYS | REPORT_TEXT,
            evt(Key::Char('a'), shift(), "A"),
            b"\x1b[97;2;65u",
        ),
        m(
            "shift_a_alternate_and_text",
            REPORT_ALL_KEYS | REPORT_ALTERNATE | REPORT_TEXT,
            evt(Key::Char('a'), shift(), "A"),
            b"\x1b[97:65;2;65u",
        ),
    ]
}

#[test]
fn kitty_golden_matrix() {
    let rows = rows();
    assert!(
        rows.len() >= 40,
        "expected >= 40 golden cases, got {}",
        rows.len()
    );

    let mut seen = std::collections::HashSet::new();
    let mut failures = Vec::new();

    for row in &rows {
        assert!(
            seen.insert(row.desc),
            "duplicate golden case description: {}",
            row.desc
        );

        let mode = Mode {
            kitty_flags: row.flags,
            ..Default::default()
        };
        let actual = Encoder::new(mode).encode(&row.event);
        if actual != row.expected {
            failures.push(format!(
                "case '{}' (flags={:#07b}): expected {} got {}",
                row.desc,
                row.flags,
                hex(row.expected),
                hex(&actual),
            ));
        }
    }

    assert!(
        failures.is_empty(),
        "{} kitty matrix failure(s):\n{}",
        failures.len(),
        failures.join("\n")
    );
}

#[test]
fn event_types_encode_when_flag_set() {
    let ctrl_a = KeyEvent::new(Key::Char('a'), ctrl());
    let flags = DISAMBIGUATE | REPORT_EVENTS;

    let repeat = match encode_with_event(flags, &ctrl_a, EventType::Repeat) {
        Outcome::Handled(b) => b,
        Outcome::Legacy => panic!("expected Handled"),
    };
    assert_eq!(repeat, b"\x1b[97;5:2u".to_vec());

    let release = match encode_with_event(flags, &ctrl_a, EventType::Release) {
        Outcome::Handled(b) => b,
        Outcome::Legacy => panic!("expected Handled"),
    };
    assert_eq!(release, b"\x1b[97;5:3u".to_vec());

    let no_flag = match encode_with_event(DISAMBIGUATE, &ctrl_a, EventType::Release) {
        Outcome::Handled(b) => b,
        Outcome::Legacy => panic!("expected Handled"),
    };
    assert_eq!(no_flag, b"\x1b[97;5u".to_vec());
}

fn hex(bytes: &[u8]) -> String {
    if bytes.is_empty() {
        return "-(empty)".to_string();
    }
    bytes.iter().map(|b| format!("{b:02x}")).collect()
}

fn handled(flags: u8, ev: &KeyEvent) -> Vec<u8> {
    match kitty::encode(flags, ev) {
        Outcome::Handled(b) => b,
        Outcome::Legacy => panic!("expected Handled, got Legacy"),
    }
}

fn is_legacy(flags: u8, ev: &KeyEvent) -> bool {
    matches!(kitty::encode(flags, ev), Outcome::Legacy)
}

#[test]
fn plain_a_defers_to_legacy_unless_all_keys() {
    let ev = KeyEvent::with_text(Key::Char('a'), none(), "a");
    assert!(is_legacy(DISAMBIGUATE, &ev));
    assert_eq!(handled(REPORT_ALL_KEYS, &ev), b"\x1b[97u".to_vec());
}

#[test]
fn ctrl_i_disambiguates_from_tab() {
    let ctrl_i = KeyEvent::new(Key::Char('i'), ctrl());
    assert_eq!(handled(DISAMBIGUATE, &ctrl_i), b"\x1b[105;5u".to_vec());
    let tab = KeyEvent::new(Key::Tab, none());
    assert!(is_legacy(DISAMBIGUATE, &tab));
}

#[test]
fn escape_disambiguates() {
    let esc = KeyEvent::new(Key::Escape, none());
    assert_eq!(handled(DISAMBIGUATE, &esc), b"\x1b[27u".to_vec());
}

#[test]
fn enter_backspace_under_all_keys() {
    let enter = KeyEvent::new(Key::Enter, none());
    assert_eq!(handled(REPORT_ALL_KEYS, &enter), b"\x1b[13u".to_vec());
    let bs = KeyEvent::new(Key::Backspace, none());
    assert_eq!(handled(REPORT_ALL_KEYS, &bs), b"\x1b[127u".to_vec());
}

#[test]
fn application_cursor_keys_flips_arrows_to_ss3() {
    let normal = Mode::default();
    let app = Mode {
        application_cursor_keys: true,
        ..Default::default()
    };
    let event = KeyEvent::new(Key::Up, none());

    assert_eq!(legacy::encode(normal, &event).unwrap(), vec![0x1B, b'[', b'A']);
    assert_eq!(legacy::encode(app, &event).unwrap(), vec![0x1B, b'O', b'A']);
}

#[test]
fn application_cursor_keys_does_not_affect_modified_arrows() {
    let app = Mode {
        application_cursor_keys: true,
        ..Default::default()
    };
    let event = KeyEvent::new(Key::Up, shift());
    assert_eq!(
        legacy::encode(app, &event).unwrap(),
        vec![0x1B, b'[', b'1', b';', b'2', b'A']
    );
}

#[test]
fn altgr_with_text_is_text_only_even_with_ctrl_alt_bits_set() {
    let mut mods = alt_gr();
    mods |= ctrl();
    mods |= alt();
    let event = KeyEvent::with_text(Key::Char('e'), mods, "\u{20AC}");
    assert_eq!(
        legacy::encode(Mode::default(), &event).unwrap(),
        "\u{20AC}".as_bytes().to_vec()
    );
}

#[test]
fn dead_key_with_no_text_produces_none() {
    let event = KeyEvent::new(Key::Char('^'), none());
    assert_eq!(legacy::encode(Mode::default(), &event), None);
}

#[test]
fn ctrl_space_is_nul() {
    let event = KeyEvent::new(Key::Char(' '), ctrl());
    assert_eq!(legacy::encode(Mode::default(), &event).unwrap(), vec![0x00]);
}

#[test]
fn ctrl_bracket_is_esc() {
    let event = KeyEvent::new(Key::Char('['), ctrl());
    assert_eq!(legacy::encode(Mode::default(), &event).unwrap(), vec![0x1B]);
}

#[test]
fn function_and_navigation_keys() {
    let classic = |key, mods| legacy::encode(Mode::default(), &KeyEvent::new(key, mods));
    assert_eq!(classic(Key::F(1), none()), Some(b"\x1bOP".to_vec()));
    assert_eq!(classic(Key::F(1), shift()), Some(b"\x1b[1;2P".to_vec()));
    assert_eq!(classic(Key::F(5), none()), Some(b"\x1b[15~".to_vec()));
    assert_eq!(classic(Key::F(12), ctrl()), Some(b"\x1b[24;5~".to_vec()));
    assert_eq!(classic(Key::F(13), none()), None);
    assert_eq!(classic(Key::F(0), none()), None);
    assert_eq!(classic(Key::PageUp, none()), Some(b"\x1b[5~".to_vec()));
    assert_eq!(classic(Key::Delete, alt()), Some(b"\x1b[3;3~".to_vec()));
}

#[test]
fn modifiers_combine() {
    let both = ctrl().union(shift());
    assert_eq!(both, ctrl() | shift());
    assert!(both.contains(ctrl()) && both.contains(shift()));
    assert!(!both.contains(alt()));
    assert!(Modifiers::empty().is_empty());
    assert!(!both.is_empty());
    assert_eq!(both, shift().union(ctrl()));
    assert_eq!(sum_modifiers(both), 5);
    assert_eq!(sum_modifiers(both.union(alt())), 7);
}

#[test]
fn capital_letters_report_the_small_key() {
    let ev = KeyEvent::with_text(Key::Char('A'), shift(), "A");
    assert_eq!(handled(REPORT_ALL_KEYS, &ev), b"\x1b[97;2u".to_vec());
    let ev = KeyEvent::with_text(Key::Char('É'), shift(), "É");
    assert_eq!(handled(REPORT_ALL_KEYS, &ev), b"\x1b[233;2u".to_vec());
}

#[test]
fn encoder_mode_can_change() {
    let mut encoder = Encoder::default();
    assert_eq!(encoder.mode(), Mode::default());
    let app = Mode {
        application_cursor_keys: true,
        ..Default::default()
    };
    encoder.set_mode(app);
    assert_eq!(encoder.mode(), app);
    assert_eq!(
        encoder.encode(&KeyEvent::new(Key::Up, none())),
        b"\x1bOA".to_vec()
    );
}

#[test]
fn events_carry_their_text() {
    let plain = KeyEvent::new(Key::Enter, none());
    assert_eq!(plain.committed(), "");
    assert_eq!(KeyEvent::with_text(Key::Char('a'), none(), "ä").committed(), "ä");
    assert_eq!(encode_altgr(&plain), None);
}

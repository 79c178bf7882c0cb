//! Window messages: which keys and characters go to the program, and what the
//! window knows of its focus and of a running composition.
use vstd::prelude::*;
use vstd::utf8::*;

use crate::input::encoder::{self, Encoder};
use crate::input::keys::{Key, KeyEvent, KeyModel, Modifiers};
use crate::input::kitty;
use crate::input::legacy::Mode;
use crate::shell::ime::{GCS_COMPSTR, GCS_RESULTSTR};

verus! {

/// The mode of a program that has asked for nothing.
pub open spec fn plain_mode() -> Mode {
    Mode { application_cursor_keys: false, kitty_flags: 0 }
}

/// The key of a virtual-key code that produces no character message: the
/// arrows, the navigation block and the function keys.
pub open spec fn key_of(vk: u32) -> Option<Key> {
    if vk == 0x21 {
        Some(Key::PageUp)
    } else if vk == 0x22 {
        Some(Key::PageDown)
    } else if vk == 0x23 {
        Some(Key::End)
    } else if vk == 0x24 {
        Some(Key::Home)
    } else if vk == 0x25 {
        Some(Key::Left)
    } else if vk == 0x26 {
        Some(Key::Up)
    } else if vk == 0x27 {
        Some(Key::Right)
    } else if vk == 0x28 {
        Some(Key::Down)
    } else if vk == 0x2d {
        Some(Key::Insert)
    } else if vk == 0x2e {
        Some(Key::Delete)
    } else if 0x70 <= vk <= 0x7b {
        Some(Key::F((vk - 0x6f) as u8))
    } else {
        None
    }
}

/// The key of a virtual-key code that produces no character message.
pub fn vk_to_key(vk: u32) -> (r: Option<Key>)
    ensures
        r == key_of(vk),
{
    if vk == 0x21 {
        Some(Key::PageUp)
    } else if vk == 0x22 {
        Some(Key::PageDown)
    } else if vk == 0x23 {
        Some(Key::End)
    } else if vk == 0x24 {
        Some(Key::Home)
    } else if vk == 0x25 {
        Some(Key::Left)
    } else if vk == 0x26 {
        Some(Key::Up)
    } else if vk == 0x27 {
        Some(Key::Right)
    } else if vk == 0x28 {
        Some(Key::Down)
    } else if vk == 0x2d {
        Some(Key::Insert)
    } else if vk == 0x2e {
        Some(Key::Delete)
    } else if 0x70 <= vk && vk <= 0x7b {
        Some(Key::F((vk - 0x6f) as u8))
    } else {
        None
    }
}

/// The name under which a virtual key is logged.
pub open spec fn name_of(vk: u32) -> Seq<char> {
    if vk == 0x08 {
        "BACK"@
    } else if vk == 0x09 {
        "TAB"@
    } else if vk == 0x0d {
        "RETURN"@
    } else if vk == 0x10 {
        "SHIFT"@
    } else if vk == 0x11 {
        "CONTROL"@
    } else if vk == 0x12 {
        "MENU/ALT"@
    } else if vk == 0x1b {
        "ESCAPE"@
    } else if vk == 0x20 {
        "SPACE"@
    } else if vk == 0x25 {
        "LEFT"@
    } else if vk == 0x26 {
        "UP"@
    } else if vk == 0x27 {
        "RIGHT"@
    } else if vk == 0x28 {
        "DOWN"@
    } else if vk == 0xa5 {
        "RMENU/AltGr"@
    } else if 0x30 <= vk <= 0x39 {
        "0-9"@
    } else if 0x41 <= vk <= 0x5a {
        "A-Z"@
    } else {
        "?"@
    }
}

/// The name under which a virtual key is logged.
pub fn vk_name(vk: u32) -> (r: &'static str)
    ensures
        r@ == name_of(vk),
{
    if vk == 0x08 {
        "BACK"
    } else if vk == 0x09 {
        "TAB"
    } else if vk == 0x0d {
        "RETURN"
    } else if vk == 0x10 {
        "SHIFT"
    } else if vk == 0x11 {
        "CONTROL"
    } else if vk == 0x12 {
        "MENU/ALT"
    } else if vk == 0x1b {
        "ESCAPE"
    } else if vk == 0x20 {
        "SPACE"
    } else if vk == 0x25 {
        "LEFT"
    } else if vk == 0x26 {
        "UP"
    } else if vk == 0x27 {
        "RIGHT"
    } else if vk == 0x28 {
        "DOWN"
    } else if vk == 0xa5 {
        "RMENU/AltGr"
    } else if 0x30 <= vk && vk <= 0x39 {
        "0-9"
    } else if 0x41 <= vk && vk <= 0x5a {
        "A-Z"
    } else {
        "?"
    }
}

/// Whether a number is the code of a character.
pub open spec fn is_character(code: u32) -> bool {
    code <= 0x10ffff && !(0xd800 <= code <= 0xdfff)
}

/// What a character message sends: the character in UTF-8, control characters
/// included. Half of a surrogate pair sends nothing.
pub open spec fn char_bytes(code: u32) -> Option<Seq<u8>> {
    if is_character(code) {
        Some(encode_utf8(seq![code as char]))
    } else {
        None
    }
}

/// The bytes that a character sends when it is typed.
pub fn typed_bytes(c: char) -> (r: Vec<u8>)
    ensures
        r@ == encode_utf8(seq![c]),
{
    let mut text = String::new();
    text.push(c);
    assert(text@ =~= seq![c]);
    let event = KeyEvent::with_text(Key::Char(c), Modifiers::none(), text.as_str());
    proof {
        assert(0u8 & 8 == 0) by (bit_vector);
        encoder::plain_text_is_sent(plain_mode(), event@, c, kitty::key_code(event.key));
    }
    Encoder::new(Mode::default()).encode(&event)
}

/// What a character message sends.
pub fn char_to_bytes(code: u32) -> (r: Option<Vec<u8>>)
    ensures
        r is Some <==> char_bytes(code) is Some,
        r matches Some(bytes) ==> char_bytes(code) == Some(bytes@),
{
    match char::from_u32(code) {
        Some(c) => Some(typed_bytes(c)),
        None => None,
    }
}

/// The bytes that a key without a character sends.
pub open spec fn key_bytes(key: Key) -> Seq<u8> {
    encoder::press_bytes(
        plain_mode(),
        KeyModel { key, mods: Modifiers(0), text: None },
        kitty::ascii_key_code(key),
    )
}

/// The bytes of a press of Enter: a carriage return.
pub fn enter_bytes() -> (r: Vec<u8>)
    ensures
        r@ == seq![0x0du8],
{
    let event = KeyEvent::new(Key::Enter, Modifiers::none());
    proof {
        encoder::without_flags_classic(plain_mode(), event@, kitty::ascii_key_code(event.key));
        assert(0u8 & 8 == 0) by (bit_vector);
    }
    let bytes = Encoder::new(Mode::default()).encode(&event);
    assert(bytes@ =~= seq![0x0du8]);
    bytes
}

// ---- messages -------------------------------------------------------------------

pub const WM_SETFOCUS: u32 = 0x0007;

pub const WM_KILLFOCUS: u32 = 0x0008;

pub const WM_KEYDOWN: u32 = 0x0100;

pub const WM_KEYUP: u32 = 0x0101;

pub const WM_CHAR: u32 = 0x0102;

pub const WM_SYSKEYDOWN: u32 = 0x0104;

pub const WM_SYSKEYUP: u32 = 0x0105;

pub const WM_IME_STARTCOMPOSITION: u32 = 0x010d;

pub const WM_IME_ENDCOMPOSITION: u32 = 0x010e;

pub const WM_IME_COMPOSITION: u32 = 0x010f;

/// Whether the window has the keyboard focus, as far as it was told.
#[derive(Debug, Clone, Copy, PartialEq, Eq, Structural)]
pub enum Focus {
    Unknown,
    Focused,
    Blurred,
}

impl Focus {
    /// The name of the state.
    pub open spec fn name(self) -> Seq<char> {
        match self {
            Focus::Unknown => "unknown"@,
            Focus::Focused => "focused"@,
            Focus::Blurred => "blurred"@,
        }
    }

    /// The name of the state.
    pub fn label(self) -> (r: &'static str)
        ensures
            r@ == self.name(),
    {
        match self {
            Focus::Unknown => "unknown",
            Focus::Focused => "focused",
            Focus::Blurred => "blurred",
        }
    }
}

/// What the window knows between messages.
#[derive(Debug, Clone, Copy, PartialEq, Eq, Structural)]
pub struct WindowState {
    pub focus: Focus,
    /// Whether a composition is in flight.
    pub composing: bool,
}

impl Default for WindowState {
    fn default() -> (r: Self)
        ensures
            r == (WindowState { focus: Focus::Unknown, composing: false }),
    {
        WindowState { focus: Focus::Unknown, composing: false }
    }
}

/// What a window message says.
#[derive(Debug, Clone, Copy, PartialEq, Eq, Structural)]
pub enum Observation {
    KeyDown { vk: u32, system: bool },
    KeyUp { vk: u32 },
    Character { code: u32 },
    CompositionStarted,
    /// The message carries committed text.
    CompositionCommitted { flags: u32 },
    /// The message carries a preview.
    CompositionUpdated { flags: u32 },
    /// A composition message with neither.
    CompositionMessage { flags: u32 },
    CompositionEnded,
    FocusGained,
    /// The focus was lost; while composing, the composition is cancelled.
    FocusLost { composing: bool },
    /// A message of no interest here.
    Unrelated,
}

/// What a message says, given what the window knew.
pub open spec fn observation_of(state: WindowState, message: u32, first: u32, second: u32) -> Observation {
    if message == WM_KEYDOWN || message == WM_SYSKEYDOWN {
        Observation::KeyDown { vk: first, system: message == WM_SYSKEYDOWN }
    } else if message == WM_KEYUP || message == WM_SYSKEYUP {
        Observation::KeyUp { vk: first }
    } else if message == WM_CHAR {
        Observation::Character { code: first }
    } else if message == WM_IME_STARTCOMPOSITION {
        Observation::CompositionStarted
    } else if message == WM_IME_COMPOSITION {
        if second & GCS_RESULTSTR != 0 {
            Observation::CompositionCommitted { flags: second }
        } else if second & GCS_COMPSTR != 0 {
            Observation::CompositionUpdated { flags: second }
        } else {
            Observation::CompositionMessage { flags: second }
        }
    } else if message == WM_IME_ENDCOMPOSITION {
        Observation::CompositionEnded
    } else if message == WM_SETFOCUS {
        Observation::FocusGained
    } else if message == WM_KILLFOCUS {
        Observation::FocusLost { composing: state.composing }
    } else {
        Observation::Unrelated
    }
}

/// What the window knows after a message.
pub open spec fn state_after(state: WindowState, seen: Observation) -> WindowState {
    match seen {
        Observation::CompositionStarted => WindowState { composing: true, ..state },
        Observation::CompositionEnded => WindowState { composing: false, ..state },
        Observation::FocusGained => WindowState { focus: Focus::Focused, ..state },
        Observation::FocusLost { .. } => WindowState { focus: Focus::Blurred, ..state },
        _ => state,
    }
}

/// What a message sends to the program. Keys with a character message send
/// nothing on key-down, so that nothing is typed twice; system keys send
/// nothing at all.
pub open spec fn bytes_for(seen: Observation) -> Option<Seq<u8>> {
    match seen {
        Observation::KeyDown { vk, system } => match key_of(vk) {
            Some(key) => if !system && key_bytes(key).len() > 0 {
                Some(key_bytes(key))
            } else {
                None
            },
            None => None,
        },
        Observation::Character { code } => char_bytes(code),
        _ => None,
    }
}

/// The outcome of a window message.
#[derive(Debug, Clone, PartialEq, Eq)]
pub struct Handled {
    pub seen: Observation,
    /// What goes to the program.
    pub bytes: Option<Vec<u8>>,
}

impl WindowState {
    fn observe(&self, message: u32, first: u32, second: u32) -> (r: Observation)
        ensures
            r == observation_of(*self, message, first, second),
    {
        if message == WM_KEYDOWN || message == WM_SYSKEYDOWN {
            Observation::KeyDown { vk: first, system: message == WM_SYSKEYDOWN }
        } else if message == WM_KEYUP || message == WM_SYSKEYUP {
            Observation::KeyUp { vk: first }
        } else if message == WM_CHAR {
            Observation::Character { code: first }
        } else if message == WM_IME_STARTCOMPOSITION {
            Observation::CompositionStarted
        } else if message == WM_IME_COMPOSITION {
            if second & GCS_RESULTSTR != 0 {
                Observation::CompositionCommitted { flags: second }
            } else if second & GCS_COMPSTR != 0 {
                Observation::CompositionUpdated { flags: second }
            } else {
                Observation::CompositionMessage { flags: second }
            }
        } else if message == WM_IME_ENDCOMPOSITION {
            Observation::CompositionEnded
        } else if message == WM_SETFOCUS {
            Observation::FocusGained
        } else if message == WM_KILLFOCUS {
            Observation::FocusLost { composing: self.composing }
        } else {
            Observation::Unrelated
        }
    }

    /// Takes in a window message with its two parameters.
    pub fn on_message(&mut self, message: u32, first: u32, second: u32) -> (r: Handled)
        ensures
            r.seen == observation_of(*old(self), message, first, second),
            *final(self) == state_after(*old(self), r.seen),
            r.bytes is Some <==> bytes_for(r.seen) is Some,
            r.bytes matches Some(bytes) ==> bytes_for(r.seen) == Some(bytes@),
    {
        let seen = self.observe(message, first, second);
        let mut bytes: Option<Vec<u8>> = None;
        match seen {
            Observation::KeyDown { vk, system } => {
                if !system {
                    if let Some(key) = vk_to_key(vk) {
                        let event = KeyEvent::new(key, Modifiers::none());
                        let sent = Encoder::new(Mode::default()).encode(&event);
                        if sent.len() > 0 {
                            bytes = Some(sent);
                        }
                    }
                }
            },
            Observation::Character { code } => {
                bytes = char_to_bytes(code);
            },
            Observation::CompositionStarted => {
                self.composing = true;
            },
            Observation::CompositionEnded => {
                self.composing = false;
            },
            Observation::FocusGained => {
                self.focus = Focus::Focused;
            },
            Observation::FocusLost { .. } => {
                self.focus = Focus::Blurred;
            },
            _ => {},
        }
        Handled { seen, bytes }
    }
}

/// Nothing is typed twice: a virtual key that sends bytes on key-down is none
/// of those with a character message, that is, no letter, no digit, not the
/// space bar, and not Backspace, Tab, Return or Escape.
pub proof fn key_down_types_nothing(vk: u32)
    requires
        vk == 0x08 || vk == 0x09 || vk == 0x0d || vk == 0x1b || vk == 0x20 || 0x30 <= vk <= 0x39
            || 0x41 <= vk <= 0x5a,
    ensures
        bytes_for(Observation::KeyDown { vk, system: false }) is None,
{
}

/// Composition messages and focus changes send nothing.
pub proof fn composition_sends_nothing(
    state: WindowState,
    message: u32,
    first: u32,
    second: u32,
)
    requires
        message == WM_IME_STARTCOMPOSITION || message == WM_IME_COMPOSITION || message
            == WM_IME_ENDCOMPOSITION || message == WM_SETFOCUS || message == WM_KILLFOCUS,
    ensures
        bytes_for(observation_of(state, message, first, second)) is None,
{
}

/// What each window message says, by its number in the system.
pub proof fn messages_by_number(state: WindowState, first: u32, second: u32)
    ensures
        observation_of(state, 0x0100, first, second) == (Observation::KeyDown {
            vk: first,
            system: false,
        }),
        observation_of(state, 0x0104, first, second) == (Observation::KeyDown {
            vk: first,
            system: true,
        }),
        observation_of(state, 0x0101, first, second) == (Observation::KeyUp { vk: first }),
        observation_of(state, 0x0105, first, second) == (Observation::KeyUp { vk: first }),
        observation_of(state, 0x0102, first, second) == (Observation::Character { code: first }),
        observation_of(state, 0x010d, first, second) == Observation::CompositionStarted,
        observation_of(state, 0x010e, first, second) == Observation::CompositionEnded,
        observation_of(state, 0x0007, first, second) == Observation::FocusGained,
        observation_of(state, 0x0008, first, second) == (Observation::FocusLost {
            composing: state.composing,
        }),
        second & 0x800 != 0 ==> observation_of(state, 0x010f, first, second) == (
        Observation::CompositionCommitted { flags: second }),
        second & 0x800 == 0 && second & 0x8 != 0 ==> observation_of(state, 0x010f, first, second)
            == (Observation::CompositionUpdated { flags: second }),
        second & 0x800 == 0 && second & 0x8 == 0 ==> observation_of(state, 0x010f, first, second)
            == (Observation::CompositionMessage { flags: second }),
{
}

/// Any other message says nothing and changes nothing.
pub proof fn other_messages_do_nothing(
    state: WindowState,
    message: u32,
    first: u32,
    second: u32,
)
    requires
        message != 0x0007 && message != 0x0008,
        message != 0x0100 && message != 0x0101 && message != 0x0102,
        message != 0x0104 && message != 0x0105,
        message != 0x010d && message != 0x010e && message != 0x010f,
    ensures
        state_after(state, observation_of(state, message, first, second)) == state,
        bytes_for(observation_of(state, message, first, second)) is None,
{
}

/// What the window knows follows the last message about it: the focus that of
/// the focus messages, the composition that of its start and its end. No
/// message about the one changes the other.
pub proof fn state_follows_messages(state: WindowState, first: u32, second: u32)
    ensures
        state_after(state, observation_of(state, 0x0007, first, second)) == (WindowState {
            focus: Focus::Focused,
            composing: state.composing,
        }),
        state_after(state, observation_of(state, 0x0008, first, second)) == (WindowState {
            focus: Focus::Blurred,
            composing: state.composing,
        }),
        state_after(state, observation_of(state, 0x010d, first, second)) == (WindowState {
            focus: state.focus,
            composing: true,
        }),
        state_after(state, observation_of(state, 0x010e, first, second)) == (WindowState {
            focus: state.focus,
            composing: false,
        }),
        state_after(state, observation_of(state, 0x0100, first, second)) == state,
        state_after(state, observation_of(state, 0x0101, first, second)) == state,
        state_after(state, observation_of(state, 0x0102, first, second)) == state,
        state_after(state, observation_of(state, 0x0104, first, second)) == state,
        state_after(state, observation_of(state, 0x0105, first, second)) == state,
        state_after(state, observation_of(state, 0x010f, first, second)) == state,
{
}

/// A character message sends its character in UTF-8, and half of a surrogate
/// pair nothing. A key pressed together with Alt sends nothing on key-down.
pub proof fn characters_are_sent(state: WindowState, c: char, code: u32, vk: u32, second: u32)
    ensures
        bytes_for(observation_of(state, 0x0102, c as u32, second)) == Some(
            encode_utf8(seq![c]),
        ),
        0xd800 <= code <= 0xdfff || code > 0x10ffff ==> bytes_for(
            observation_of(state, 0x0102, code, second),
        ) is None,
        bytes_for(observation_of(state, 0x0104, vk, second)) is None,
        bytes_for(observation_of(state, 0x0101, vk, second)) is None,
        bytes_for(observation_of(state, 0x0105, vk, second)) is None,
{
    crate::text::lemma_char(c);
}

/// The keys without a character send their sequences on key-down: arrows, Home
/// and End `CSI` and a letter, the rest of the navigation block and F5 to F12
/// `CSI`, a number and a tilde, F1 to F4 `SS3` and a letter.
pub proof fn navigation_keys_are_sent()
    ensures
        bytes_for(Observation::KeyDown { vk: 0x26, system: false }) == Some(
            seq![0x1bu8, 0x5bu8, 0x41u8],
        ),
        bytes_for(Observation::KeyDown { vk: 0x28, system: false }) == Some(
            seq![0x1bu8, 0x5bu8, 0x42u8],
        ),
        bytes_for(Observation::KeyDown { vk: 0x27, system: false }) == Some(
            seq![0x1bu8, 0x5bu8, 0x43u8],
        ),
        bytes_for(Observation::KeyDown { vk: 0x25, system: false }) == Some(
            seq![0x1bu8, 0x5bu8, 0x44u8],
        ),
        bytes_for(Observation::KeyDown { vk: 0x24, system: false }) == Some(
            seq![0x1bu8, 0x5bu8, 0x48u8],
        ),
        bytes_for(Observation::KeyDown { vk: 0x23, system: false }) == Some(
            seq![0x1bu8, 0x5bu8, 0x46u8],
        ),
        bytes_for(Observation::KeyDown { vk: 0x21, system: false }) == Some(
            seq![0x1bu8, 0x5bu8, 0x35u8, 0x7eu8],
        ),
        bytes_for(Observation::KeyDown { vk: 0x22, system: false }) == Some(
            seq![0x1bu8, 0x5bu8, 0x36u8, 0x7eu8],
        ),
        bytes_for(Observation::KeyDown { vk: 0x2d, system: false }) == Some(
            seq![0x1bu8, 0x5bu8, 0x32u8, 0x7eu8],
        ),
        bytes_for(Observation::KeyDown { vk: 0x2e, system: false }) == Some(
            seq![0x1bu8, 0x5bu8, 0x33u8, 0x7eu8],
        ),
{
    lemma_letter_sent(Key::Up);
    lemma_letter_sent(Key::Down);
    lemma_letter_sent(Key::Right);
    lemma_letter_sent(Key::Left);
    lemma_letter_sent(Key::Home);
    lemma_letter_sent(Key::End);
    lemma_tilde_sent(Key::PageUp);
    lemma_tilde_sent(Key::PageDown);
    lemma_tilde_sent(Key::Insert);
    lemma_tilde_sent(Key::Delete);
    assert(seq![0x1bu8, 0x5bu8] + seq![0x35u8] + seq![0x7eu8] =~= seq![
        0x1bu8,
        0x5bu8,
        0x35u8,
        0x7eu8,
    ]);
    assert(seq![0x1bu8, 0x5bu8] + seq![0x36u8] + seq![0x7eu8] =~= seq![
        0x1bu8,
        0x5bu8,
        0x36u8,
        0x7eu8,
    ]);
    assert(seq![0x1bu8, 0x5bu8] + seq![0x32u8] + seq![0x7eu8] =~= seq![
        0x1bu8,
        0x5bu8,
        0x32u8,
        0x7eu8,
    ]);
    assert(seq![0x1bu8, 0x5bu8] + seq![0x33u8] + seq![0x7eu8] =~= seq![
        0x1bu8,
        0x5bu8,
        0x33u8,
        0x7eu8,
    ]);
}

/// The function keys F1 to F12 are virtual keys 0x70 to 0x7b. F1 to F4 send
/// `SS3` and `P` to `S`, the others `CSI`, a number and a tilde.
pub proof fn function_keys_are_sent(vk: u32)
    requires
        0x70 <= vk <= 0x7b,
    ensures
        vk <= 0x73 ==> bytes_for(Observation::KeyDown { vk, system: false }) == Some(
            seq![0x1bu8, 0x4fu8, (0x50 + (vk - 0x70)) as u8],
        ),
        vk >= 0x74 ==> bytes_for(Observation::KeyDown { vk, system: false }) == Some(
            seq![0x1bu8, 0x5bu8] + encoder::tilde_digits(Key::F((vk - 0x6f) as u8))->0 + seq![
                0x7eu8,
            ],
        ),
{
    let key = Key::F((vk - 0x6f) as u8);
    assert(0u8 & 1 != 1 && 0u8 & 2 != 2 && 0u8 & 4 != 4 && 0u8 & 8 != 8) by (bit_vector);
    assert(vk == 0x70 || vk == 0x71 || vk == 0x72 || vk == 0x73 || vk == 0x74 || vk == 0x75 || vk
        == 0x76 || vk == 0x77 || vk == 0x78 || vk == 0x79 || vk == 0x7a || vk == 0x7b);
    if vk <= 0x73 {
        encoder::letter_keys(
            plain_mode(),
            KeyModel { key, mods: Modifiers(0), text: None },
            kitty::ascii_key_code(key),
        );
    } else {
        lemma_tilde_sent(key);
    }
}

proof fn lemma_letter_sent(key: Key)
    requires
        encoder::final_letter(key) is Some,
        !(key is F),
    ensures
        key_bytes(key) == seq![0x1bu8, 0x5bu8, encoder::final_letter(key)->0],
{
    assert(0u8 & 1 != 1 && 0u8 & 2 != 2 && 0u8 & 4 != 4 && 0u8 & 8 != 8) by (bit_vector);
    encoder::letter_keys(
        plain_mode(),
        KeyModel { key, mods: Modifiers(0), text: None },
        kitty::ascii_key_code(key),
    );
}

proof fn lemma_tilde_sent(key: Key)
    requires
        encoder::tilde_digits(key) is Some,
    ensures
        key_bytes(key) == seq![0x1bu8, 0x5bu8] + encoder::tilde_digits(key)->0 + seq![0x7eu8],
{
    assert(0u8 & 1 != 1 && 0u8 & 2 != 2 && 0u8 & 4 != 4 && 0u8 & 8 != 8) by (bit_vector);
    encoder::tilde_keys(
        plain_mode(),
        KeyModel { key, mods: Modifiers(0), text: None },
        kitty::ascii_key_code(key),
    );
    assert(key_bytes(key) =~= seq![0x1bu8, 0x5bu8] + encoder::tilde_digits(key)->0 + seq![0x7eu8]);
}

} // verus!

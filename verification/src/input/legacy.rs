//! The classic xterm key encoding: CSI and SS3 letters for navigation and
//! function keys, with a modifier parameter where modifiers are held.
use vstd::prelude::*;
use vstd::slice::slice_to_vec;
use vstd::utf8::*;

use crate::input::keys::{Key, KeyEvent, KeyModel, Modifiers};
use crate::text::{self, push_decimal_bytes, to_ascii_lower};

verus! {

/// The modes that the program has set, as far as they bear on keys.
#[derive(Debug, Clone, Copy, PartialEq, Eq, Structural)]
pub struct Mode {
    /// Arrow keys, Home and End are sent as SS3 where no modifier is held.
    pub application_cursor_keys: bool,
    /// The Kitty keyboard flags; 0 is the classic encoding.
    pub kitty_flags: u8,
}

impl Default for Mode {
    fn default() -> (r: Self)
        ensures
            r == (Mode { application_cursor_keys: false, kitty_flags: 0 }),
    {
        Mode { application_cursor_keys: false, kitty_flags: 0 }
    }
}

/// Shift counts 1, Alt 2, Control 4; AltGr never counts.
pub open spec fn modifier_sum(mods: Modifiers) -> nat {
    (if mods.has_shift() {
        1nat
    } else {
        0
    }) + (if mods.has_alt() {
        2nat
    } else {
        0
    }) + (if mods.has_ctrl() {
        4nat
    } else {
        0
    })
}

/// `ESC [ 1 ; <parameter> <letter>`.
pub open spec fn modified_letter(letter: u8, mods: Modifiers) -> Seq<u8> {
    seq![0x1bu8, 0x5bu8, 0x31u8, 0x3bu8] + text::decimal_bytes(1 + modifier_sum(mods)) + seq![
        letter,
    ]
}

/// A cursor key: SS3 in application mode, CSI otherwise; always CSI with a
/// parameter where modifiers are held.
pub open spec fn cursor_letter(letter: u8, mode: Mode, mods: Modifiers) -> Seq<u8> {
    if modifier_sum(mods) > 0 {
        modified_letter(letter, mods)
    } else if mode.application_cursor_keys {
        seq![0x1bu8, 0x4fu8, letter]
    } else {
        seq![0x1bu8, 0x5bu8, letter]
    }
}

/// `ESC [ <number> ~`, with a modifier parameter where modifiers are held.
pub open spec fn tilde(number: nat, mods: Modifiers) -> Seq<u8> {
    seq![0x1bu8, 0x5bu8] + text::decimal_bytes(number) + (if modifier_sum(mods) > 0 {
        seq![0x3bu8] + text::decimal_bytes(1 + modifier_sum(mods))
    } else {
        Seq::empty()
    }) + seq![0x7eu8]
}

/// F1 to F4: SS3, or CSI with a parameter where modifiers are held.
pub open spec fn function_letter(letter: u8, mods: Modifiers) -> Seq<u8> {
    if modifier_sum(mods) > 0 {
        modified_letter(letter, mods)
    } else {
        seq![0x1bu8, 0x4fu8, letter]
    }
}

/// The number of F5 to F12.
pub open spec fn function_number(n: u8) -> Option<nat> {
    if n == 5 {
        Some(15)
    } else if 6 <= n <= 10 {
        Some((n + 11) as nat)
    } else if n == 11 || n == 12 {
        Some((n + 12) as nat)
    } else {
        None
    }
}

/// The control byte of a character: 1 to 26 for a letter, NUL for a space, ESC
/// for an opening bracket.
pub open spec fn control_byte(c: char) -> Option<u8> {
    let lower = text::ascii_lower(c);
    if 'a' <= lower <= 'z' {
        Some((lower as u8 - 96) as u8)
    } else if lower == ' ' {
        Some(0)
    } else if lower == '[' {
        Some(0x1b)
    } else {
        None
    }
}

/// The bytes of a printable key. Control makes a control byte, Alt puts ESC in
/// front; without committed text nothing is sent.
pub open spec fn char_bytes(event: KeyModel, c: char) -> Option<Seq<u8>> {
    if event.mods.has_ctrl() && control_byte(c) is Some {
        Some(
            if event.mods.has_alt() {
                seq![0x1bu8, control_byte(c).unwrap()]
            } else {
                seq![control_byte(c).unwrap()]
            },
        )
    } else if event.committed().len() == 0 {
        None
    } else if event.mods.has_alt() {
        Some(seq![0x1bu8] + encode_utf8(event.committed()))
    } else {
        Some(encode_utf8(event.committed()))
    }
}

/// The bytes of an event with AltGr: its committed text, whatever else is held.
pub open spec fn altgr_bytes(event: KeyModel) -> Option<Seq<u8>> {
    if event.committed().len() > 0 {
        Some(encode_utf8(event.committed()))
    } else {
        None
    }
}

/// The bytes of a key event in the classic encoding.
pub open spec fn legacy_bytes(mode: Mode, event: KeyModel) -> Option<Seq<u8>> {
    if event.mods.has_alt_gr() {
        altgr_bytes(event)
    } else {
        match event.key {
            Key::Char(c) => char_bytes(event, c),
            Key::Enter => Some(seq![0x0du8]),
            Key::Tab => Some(seq![0x09u8]),
            Key::Backspace => Some(seq![0x7fu8]),
            Key::Escape => Some(seq![0x1bu8]),
            Key::Up => Some(cursor_letter(0x41, mode, event.mods)),
            Key::Down => Some(cursor_letter(0x42, mode, event.mods)),
            Key::Right => Some(cursor_letter(0x43, mode, event.mods)),
            Key::Left => Some(cursor_letter(0x44, mode, event.mods)),
            Key::Home => Some(cursor_letter(0x48, mode, event.mods)),
            Key::End => Some(cursor_letter(0x46, mode, event.mods)),
            Key::PageUp => Some(tilde(5, event.mods)),
            Key::PageDown => Some(tilde(6, event.mods)),
            Key::Insert => Some(tilde(2, event.mods)),
            Key::Delete => Some(tilde(3, event.mods)),
            Key::F(n) => if 1 <= n <= 4 {
                Some(function_letter((0x4f + n) as u8, event.mods))
            } else {
                match function_number(n) {
                    Some(number) => Some(tilde(number, event.mods)),
                    None => None,
                }
            },
        }
    }
}

/// The contents of optional bytes.
pub open spec fn bytes_model(r: Option<Vec<u8>>) -> Option<Seq<u8>> {
    match r {
        Some(v) => Some(v@),
        None => None,
    }
}

/// Shift counts 1, Alt 2, Control 4.
pub fn sum_modifiers(mods: Modifiers) -> (r: u8)
    ensures
        r == modifier_sum(mods),
        r <= 7,
{
    let mut n: u8 = 0;
    if mods.contains(Modifiers::shift()) {
        n += 1;
    }
    if mods.contains(Modifiers::alt()) {
        n += 2;
    }
    if mods.contains(Modifiers::ctrl()) {
        n += 4;
    }
    n
}

fn encode_modified_letter(letter: u8, sum: u8) -> (r: Vec<u8>)
    requires
        sum <= 7,
    ensures
        r@ == seq![0x1bu8, 0x5bu8, 0x31u8, 0x3bu8] + text::decimal_bytes((1 + sum) as nat) + seq![
            letter,
        ],
{
    let mut out: Vec<u8> = vec![0x1b, 0x5b, 0x31, 0x3b];
    assert(out@ =~= seq![0x1bu8, 0x5bu8, 0x31u8, 0x3bu8]);
    push_decimal_bytes(&mut out, (1 + sum) as u32);
    out.push(letter);
    assert(out@ =~= seq![0x1bu8, 0x5bu8, 0x31u8, 0x3bu8] + text::decimal_bytes((1 + sum) as nat)
        + seq![letter]);
    out
}

fn encode_cursor_letter(letter: u8, mode: Mode, mods: Modifiers) -> (r: Vec<u8>)
    ensures
        r@ == cursor_letter(letter, mode, mods),
{
    let sum = sum_modifiers(mods);
    if sum > 0 {
        encode_modified_letter(letter, sum)
    } else if mode.application_cursor_keys {
        let out: Vec<u8> = vec![0x1b, 0x4f, letter];
        assert(out@ =~= cursor_letter(letter, mode, mods));
        out
    } else {
        let out: Vec<u8> = vec![0x1b, 0x5b, letter];
        assert(out@ =~= cursor_letter(letter, mode, mods));
        out
    }
}

fn encode_tilde(number: u32, mods: Modifiers) -> (r: Vec<u8>)
    ensures
        r@ == tilde(number as nat, mods),
{
    let mut out: Vec<u8> = vec![0x1b, 0x5b];
    assert(out@ =~= seq![0x1bu8, 0x5bu8]);
    push_decimal_bytes(&mut out, number);
    let sum = sum_modifiers(mods);
    if sum > 0 {
        out.push(0x3b);
        push_decimal_bytes(&mut out, (1 + sum) as u32);
    }
    out.push(0x7e);
    assert(out@ =~= tilde(number as nat, mods));
    out
}

fn encode_function_letter(letter: u8, mods: Modifiers) -> (r: Vec<u8>)
    ensures
        r@ == function_letter(letter, mods),
{
    let sum = sum_modifiers(mods);
    if sum > 0 {
        encode_modified_letter(letter, sum)
    } else {
        let out: Vec<u8> = vec![0x1b, 0x4f, letter];
        assert(out@ =~= function_letter(letter, mods));
        out
    }
}

fn function_key_number(n: u8) -> (r: Option<u32>)
    ensures
        match (r, function_number(n)) {
            (Some(a), Some(b)) => a == b,
            (None, None) => true,
            _ => false,
        },
{
    if n == 5 {
        Some(15)
    } else if 6 <= n && n <= 10 {
        Some((n + 11) as u32)
    } else if n == 11 || n == 12 {
        Some((n + 12) as u32)
    } else {
        None
    }
}

fn ctrl_char(c: char) -> (r: Option<u8>)
    ensures
        r == control_byte(c),
{
    let lower = to_ascii_lower(c);
    if 'a' <= lower && lower <= 'z' {
        Some(lower as u8 - 96)
    } else if lower == ' ' {
        Some(0)
    } else if lower == '[' {
        Some(0x1b)
    } else {
        None
    }
}

/// The bytes of an event with AltGr: its committed text alone.
pub fn encode_altgr(event: &KeyEvent) -> (r: Option<Vec<u8>>)
    ensures
        bytes_model(r) == altgr_bytes(event@),
{
    let committed = event.committed();
    if committed.is_empty() {
        None
    } else {
        Some(slice_to_vec(committed.as_bytes()))
    }
}

fn encode_char(event: &KeyEvent, c: char) -> (r: Option<Vec<u8>>)
    ensures
        bytes_model(r) == char_bytes(event@, c),
{
    if event.mods.contains(Modifiers::ctrl()) {
        if let Some(byte) = ctrl_char(c) {
            let mut out: Vec<u8> = Vec::new();
            if event.mods.contains(Modifiers::alt()) {
                out.push(0x1b);
            }
            out.push(byte);
            assert(Some(out@) =~= char_bytes(event@, c));
            return Some(out);
        }
    }
    let committed = event.committed();
    if committed.is_empty() {
        return None;
    }
    if event.mods.contains(Modifiers::alt()) {
        let mut out: Vec<u8> = vec![0x1b];
        let mut tail = slice_to_vec(committed.as_bytes());
        out.append(&mut tail);
        assert(out@ =~= seq![0x1bu8] + encode_utf8(committed@));
        return Some(out);
    }
    Some(slice_to_vec(committed.as_bytes()))
}

fn one(byte: u8) -> (r: Vec<u8>)
    ensures
        r@ == seq![byte],
{
    let out: Vec<u8> = vec![byte];
    assert(out@ =~= seq![byte]);
    out
}

/// The bytes of a key event in the classic encoding; none for an event that
/// sends nothing, such as a dead key on its own.
pub fn encode(mode: Mode, event: &KeyEvent) -> (r: Option<Vec<u8>>)
    ensures
        bytes_model(r) == legacy_bytes(mode, event@),
{
    if event.mods.contains(Modifiers::alt_gr()) {
        return encode_altgr(event);
    }
    match event.key {
        Key::Char(c) => encode_char(event, c),
        Key::Enter => Some(one(0x0d)),
        Key::Tab => Some(one(0x09)),
        Key::Backspace => Some(one(0x7f)),
        Key::Escape => Some(one(0x1b)),
        Key::Up => Some(encode_cursor_letter(0x41, mode, event.mods)),
        Key::Down => Some(encode_cursor_letter(0x42, mode, event.mods)),
        Key::Right => Some(encode_cursor_letter(0x43, mode, event.mods)),
        Key::Left => Some(encode_cursor_letter(0x44, mode, event.mods)),
        Key::Home => Some(encode_cursor_letter(0x48, mode, event.mods)),
        Key::End => Some(encode_cursor_letter(0x46, mode, event.mods)),
        Key::PageUp => Some(encode_tilde(5, event.mods)),
        Key::PageDown => Some(encode_tilde(6, event.mods)),
        Key::Insert => Some(encode_tilde(2, event.mods)),
        Key::Delete => Some(encode_tilde(3, event.mods)),
        Key::F(n) => {
            if 1 <= n && n <= 4 {
                Some(encode_function_letter(0x4f + n, event.mods))
            } else {
                match function_key_number(n) {
                    Some(number) => Some(encode_tilde(number, event.mods)),
                    None => None,
                }
            }
        },
    }
}

/// With AltGr held the committed text is sent alone, and nothing where there
/// is none, whatever the key is and whatever else is held.
pub proof fn altgr_types_text(mode: Mode, event: KeyModel)
    requires
        event.mods.has_alt_gr(),
    ensures
        event.committed().len() > 0 ==> legacy_bytes(mode, event) == Some(
            encode_utf8(event.committed()),
        ),
        event.committed().len() == 0 ==> legacy_bytes(mode, event) is None,
{
}

/// Application mode makes a difference to unmodified cursor keys alone.
pub proof fn application_mode_is_for_cursor_keys(a: Mode, b: Mode, event: KeyModel)
    requires
        modifier_sum(event.mods) > 0 || !(event.key == Key::Up || event.key == Key::Down
            || event.key == Key::Left || event.key == Key::Right || event.key == Key::Home
            || event.key == Key::End),
    ensures
        legacy_bytes(a, event) == legacy_bytes(b, event),
{
}

} // verus!

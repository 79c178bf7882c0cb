//! Mouse events as the bytes that a program reads, by the tracking mode and
//! the coordinate encoding that it has set.
//!
//! Only events that a program has asked for are encoded. Whether a wheel event
//! goes to the program at all or scrolls the viewport is decided elsewhere.
use vstd::prelude::*;
use vstd::utf8::*;

use crate::text::{self, push_decimal_bytes};

verus! {

/// What happened.
#[derive(Debug, Clone, Copy, PartialEq, Eq, Structural)]
pub enum MouseEventKind {
    Press,
    Release,
    Motion,
    Wheel { up: bool },
}

/// The button pressed, released or held.
#[derive(Debug, Clone, Copy, PartialEq, Eq, Structural)]
pub enum MouseButton {
    Left,
    Middle,
    Right,
    NoButton,
}

/// The modifiers held.
#[derive(Debug, Clone, Copy, PartialEq, Eq, Structural)]
pub struct MouseMods {
    pub shift: bool,
    pub alt: bool,
    pub ctrl: bool,
}

impl Default for MouseMods {
    fn default() -> (r: Self)
        ensures
            r == (MouseMods { shift: false, alt: false, ctrl: false }),
    {
        MouseMods { shift: false, alt: false, ctrl: false }
    }
}

/// A mouse event at a cell, counted from 0.
#[derive(Debug, Clone, Copy, PartialEq, Eq, Structural)]
pub struct MouseEvent {
    pub kind: MouseEventKind,
    pub button: MouseButton,
    pub col: u16,
    pub row: u16,
    pub mods: MouseMods,
}

/// Which events a program has asked for.
#[derive(Debug, Clone, Copy, PartialEq, Eq, Structural)]
pub enum MouseProtocol {
    /// No events.
    Off,
    /// Mode 9: presses and the wheel, without modifiers.
    X10,
    /// Mode 1000: presses, releases and the wheel.
    Normal,
    /// Mode 1002: also motion while a button is held.
    ButtonEvent,
    /// Mode 1003: also motion without a button.
    AnyEvent,
}

/// How coordinates are written.
#[derive(Debug, Clone, Copy, PartialEq, Eq, Structural)]
pub enum MouseEncoding {
    /// One byte each.
    Default,
    /// Mode 1005: one UTF-8 character each.
    Utf8,
    /// Mode 1006: decimal, with a release letter of its own.
    Sgr,
    /// Mode 1015: decimal.
    Urxvt,
}

/// Whether a program has asked for an event.
pub open spec fn wanted(event: MouseEvent, protocol: MouseProtocol) -> bool {
    match protocol {
        MouseProtocol::Off => false,
        MouseProtocol::X10 => event.kind is Press || event.kind is Wheel,
        MouseProtocol::Normal => !(event.kind is Motion),
        MouseProtocol::ButtonEvent => !(event.kind is Motion) || event.button
            != MouseButton::NoButton,
        MouseProtocol::AnyEvent => true,
    }
}

/// The number of a button.
pub open spec fn button_number(button: MouseButton) -> nat {
    match button {
        MouseButton::Left => 0,
        MouseButton::Middle => 1,
        MouseButton::Right => 2,
        MouseButton::NoButton => 3,
    }
}

/// Shift counts 4, Alt 8, Control 16.
pub open spec fn mods_number(mods: MouseMods) -> nat {
    (if mods.shift {
        4nat
    } else {
        0
    }) + (if mods.alt {
        8nat
    } else {
        0
    }) + (if mods.ctrl {
        16nat
    } else {
        0
    })
}

/// The code of an event: the button, or 3 for a release that cannot name it,
/// 32 more for motion, 64 and 65 for the wheel; and the modifiers, which X10
/// never reports.
pub open spec fn event_code(
    event: MouseEvent,
    protocol: MouseProtocol,
    encoding: MouseEncoding,
) -> nat {
    (match event.kind {
        MouseEventKind::Press => button_number(event.button),
        MouseEventKind::Release => if encoding == MouseEncoding::Sgr {
            button_number(event.button)
        } else {
            3
        },
        MouseEventKind::Motion => button_number(event.button) + 32,
        MouseEventKind::Wheel { up } => if up {
            64
        } else {
            65
        },
    }) + (if protocol == MouseProtocol::X10 {
        0
    } else {
        mods_number(event.mods)
    })
}

/// A number, but no more than `limit`.
pub open spec fn at_most(n: nat, limit: nat) -> nat {
    if n <= limit {
        n
    } else {
        limit
    }
}

/// The greatest coordinate byte.
pub const BYTE_LIMIT: u32 = 223;

/// The greatest number that two UTF-8 bytes hold.
pub const UTF8_LIMIT: u32 = 2047;

/// The bytes of an event with the given code.
pub open spec fn report(event: MouseEvent, code: nat, encoding: MouseEncoding) -> Seq<u8> {
    match encoding {
        MouseEncoding::Default => seq![
            0x1bu8,
            0x5bu8,
            0x4du8,
            (code + 32) as u8,
            at_most((event.col + 33) as nat, BYTE_LIMIT as nat) as u8,
            at_most((event.row + 33) as nat, BYTE_LIMIT as nat) as u8,
        ],
        MouseEncoding::Utf8 => seq![0x1bu8, 0x5bu8, 0x4du8] + encode_scalar((code + 32) as u32)
            + encode_scalar(at_most((event.col + 33) as nat, UTF8_LIMIT as nat) as u32)
            + encode_scalar(at_most((event.row + 33) as nat, UTF8_LIMIT as nat) as u32),
        MouseEncoding::Sgr => seq![0x1bu8, 0x5bu8, 0x3cu8] + text::decimal_bytes(code) + seq![0x3bu8]
            + text::decimal_bytes((event.col + 1) as nat) + seq![0x3bu8] + text::decimal_bytes(
            (event.row + 1) as nat,
        ) + seq![
            if event.kind is Release {
                0x6du8
            } else {
                0x4du8
            },
        ],
        MouseEncoding::Urxvt => seq![0x1bu8, 0x5bu8] + text::decimal_bytes(code + 32) + seq![0x3bu8]
            + text::decimal_bytes((event.col + 1) as nat) + seq![0x3bu8] + text::decimal_bytes(
            (event.row + 1) as nat,
        ) + seq![0x4du8],
    }
}

/// Whether a program has asked for an event.
pub fn protocol_filter(event: &MouseEvent, protocol: MouseProtocol) -> (r: bool)
    ensures
        r == wanted(*event, protocol),
{
    let motion = match event.kind {
        MouseEventKind::Motion => true,
        _ => false,
    };
    match protocol {
        MouseProtocol::Off => false,
        MouseProtocol::X10 => match event.kind {
            MouseEventKind::Press => true,
            MouseEventKind::Wheel { .. } => true,
            _ => false,
        },
        MouseProtocol::Normal => !motion,
        MouseProtocol::ButtonEvent => !motion || match event.button {
            MouseButton::NoButton => false,
            _ => true,
        },
        MouseProtocol::AnyEvent => true,
    }
}

fn code_of(event: &MouseEvent, protocol: MouseProtocol, encoding: MouseEncoding) -> (r: u32)
    ensures
        r == event_code(*event, protocol, encoding),
        r <= 93,
{
    let button: u32 = match event.button {
        MouseButton::Left => 0,
        MouseButton::Middle => 1,
        MouseButton::Right => 2,
        MouseButton::NoButton => 3,
    };
    let base: u32 = match event.kind {
        MouseEventKind::Press => button,
        MouseEventKind::Release => match encoding {
            MouseEncoding::Sgr => button,
            _ => 3,
        },
        MouseEventKind::Motion => button + 32,
        MouseEventKind::Wheel { up } => if up {
            64
        } else {
            65
        },
    };
    match protocol {
        MouseProtocol::X10 => {
            return base;
        },
        _ => {},
    }
    let mut mods: u32 = 0;
    if event.mods.shift {
        mods += 4;
    }
    if event.mods.alt {
        mods += 8;
    }
    if event.mods.ctrl {
        mods += 16;
    }
    base + mods
}

fn capped(n: u32, limit: u32) -> (r: u32)
    ensures
        r == at_most(n as nat, limit as nat),
        r <= limit,
{
    if n <= limit {
        n
    } else {
        limit
    }
}

fn push_scalar(out: &mut Vec<u8>, v: u32)
    requires
        v <= UTF8_LIMIT,
    ensures
        final(out)@ == old(out)@ + encode_scalar(v),
{
    let ghost before = out@;
    if v <= 0x7f {
        assert((v & 0x7f) as u8 == v as u8) by (bit_vector)
            requires
                v <= 0x7f,
        ;
        out.push(v as u8);
    } else {
        assert(0xc0u8 | ((v >> 6) & 0x1f) as u8 == (0xc0 + v / 64) as u8) by (bit_vector)
            requires
                v <= 2047,
        ;
        assert(0x80u8 | (v & 0x3f) as u8 == (0x80 + v % 64) as u8) by (bit_vector);
        out.push((0xc0 + v / 64) as u8);
        out.push((0x80 + v % 64) as u8);
    }
    assert(out@ =~= before + encode_scalar(v));
}

/// The bytes of a mouse event, if the program has asked for it.
pub fn encode(event: &MouseEvent, protocol: MouseProtocol, encoding: MouseEncoding) -> (r: Option<
    Vec<u8>,
>)
    ensures
        r is Some <==> wanted(*event, protocol),
        r matches Some(bytes) ==> bytes@ == report(
            *event,
            event_code(*event, protocol, encoding),
            encoding,
        ),
{
    if !protocol_filter(event, protocol) {
        return None;
    }
    let code = code_of(event, protocol, encoding);
    let col = event.col as u32;
    let row = event.row as u32;
    let ghost wire = report(*event, code as nat, encoding);
    match encoding {
        MouseEncoding::Default => {
            let out: Vec<u8> = vec![
                0x1b,
                0x5b,
                0x4d,
                (code + 32) as u8,
                capped(col + 33, BYTE_LIMIT) as u8,
                capped(row + 33, BYTE_LIMIT) as u8,
            ];
            assert(out@ =~= wire);
            Some(out)
        },
        MouseEncoding::Utf8 => {
            let mut out: Vec<u8> = vec![0x1b, 0x5b, 0x4d];
            assert(out@ =~= seq![0x1bu8, 0x5bu8, 0x4du8]);
            push_scalar(&mut out, code + 32);
            push_scalar(&mut out, capped(col + 33, UTF8_LIMIT));
            push_scalar(&mut out, capped(row + 33, UTF8_LIMIT));
            assert(out@ =~= wire);
            Some(out)
        },
        MouseEncoding::Sgr => {
            let mut out: Vec<u8> = vec![0x1b, 0x5b, 0x3c];
            assert(out@ =~= seq![0x1bu8, 0x5bu8, 0x3cu8]);
            push_decimal_bytes(&mut out, code);
            out.push(0x3b);
            push_decimal_bytes(&mut out, col + 1);
            out.push(0x3b);
            push_decimal_bytes(&mut out, row + 1);
            out.push(
                match event.kind {
                    MouseEventKind::Release => 0x6d,
                    _ => 0x4d,
                },
            );
            assert(out@ =~= wire);
            Some(out)
        },
        MouseEncoding::Urxvt => {
            let mut out: Vec<u8> = vec![0x1b, 0x5b];
            assert(out@ =~= seq![0x1bu8, 0x5bu8]);
            push_decimal_bytes(&mut out, code + 32);
            out.push(0x3b);
            push_decimal_bytes(&mut out, col + 1);
            out.push(0x3b);
            push_decimal_bytes(&mut out, row + 1);
            out.push(0x4d);
            assert(out@ =~= wire);
            Some(out)
        },
    }
}

/// Each tracking mode reports everything that the one before it does.
pub proof fn modes_widen(event: MouseEvent)
    ensures
        !wanted(event, MouseProtocol::Off),
        wanted(event, MouseProtocol::X10) ==> wanted(event, MouseProtocol::Normal),
        wanted(event, MouseProtocol::Normal) ==> wanted(event, MouseProtocol::ButtonEvent),
        wanted(event, MouseProtocol::ButtonEvent) ==> wanted(event, MouseProtocol::AnyEvent),
{
}

/// Under X10 the modifiers make no difference.
pub proof fn x10_ignores_modifiers(event: MouseEvent, mods: MouseMods, encoding: MouseEncoding)
    ensures
        event_code(event, MouseProtocol::X10, encoding) == event_code(
            MouseEvent { mods, ..event },
            MouseProtocol::X10,
            encoding,
        ),
{
}

/// Which events each tracking mode reports: presses and the wheel under all of
/// them, releases from mode 1000 on, motion with a button under mode 1002, and
/// any motion under mode 1003.
pub proof fn modes_report(event: MouseEvent, protocol: MouseProtocol)
    ensures
        event.kind is Press || event.kind is Wheel ==> (wanted(event, protocol) <==> protocol
            != MouseProtocol::Off),
        event.kind is Release ==> (wanted(event, protocol) <==> protocol == MouseProtocol::Normal
            || protocol == MouseProtocol::ButtonEvent || protocol == MouseProtocol::AnyEvent),
        event.kind is Motion && event.button != MouseButton::NoButton ==> (wanted(event, protocol)
            <==> protocol == MouseProtocol::ButtonEvent || protocol == MouseProtocol::AnyEvent),
        event.kind is Motion && event.button == MouseButton::NoButton ==> (wanted(event, protocol)
            <==> protocol == MouseProtocol::AnyEvent),
{
}

/// The codes of events: without modifiers 0, 1 and 2 for the buttons, 3 for
/// none and for a release that cannot name its button, 32 more for motion, 64
/// and 65 for the wheel up and down. Shift adds 4, Alt 8 and Control 16, but
/// under X10 nothing.
pub proof fn codes_of_events(event: MouseEvent, protocol: MouseProtocol, encoding: MouseEncoding)
    ensures
        ({
            let plain = MouseEvent {
                mods: MouseMods { shift: false, alt: false, ctrl: false },
                ..event
            };
            let code = event_code(plain, protocol, encoding);
            let names_button = event.kind is Press || event.kind is Motion || (event.kind is Release
                && encoding == MouseEncoding::Sgr);
            let moved: int = if event.kind is Motion {
                32
            } else {
                0
            };
            &&& names_button && event.button == MouseButton::Left ==> code == 0 + moved
            &&& names_button && event.button == MouseButton::Middle ==> code == 1 + moved
            &&& names_button && event.button == MouseButton::Right ==> code == 2 + moved
            &&& names_button && event.button == MouseButton::NoButton ==> code == 3 + moved
            &&& event.kind is Release && encoding != MouseEncoding::Sgr ==> code == 3
            &&& event.kind == (MouseEventKind::Wheel { up: true }) ==> code == 64
            &&& event.kind == (MouseEventKind::Wheel { up: false }) ==> code == 65
            &&& protocol == MouseProtocol::X10 ==> event_code(event, protocol, encoding) == code
            &&& protocol != MouseProtocol::X10 ==> event_code(event, protocol, encoding) == code
                + (if event.mods.shift {
                4int
            } else {
                0
            }) + (if event.mods.alt {
                8int
            } else {
                0
            }) + (if event.mods.ctrl {
                16int
            } else {
                0
            })
        }),
{
}

/// In one byte each: `CSI M`, the code and the two coordinates from 1 on, each
/// 32 more, coordinates capped at byte 223.
pub proof fn byte_reports(event: MouseEvent, code: nat)
    requires
        code <= 95,
    ensures
        ({
            let bytes = report(event, code, MouseEncoding::Default);
            &&& bytes.len() == 6
            &&& bytes[0] == 0x1b && bytes[1] == 0x5b && bytes[2] == 0x4d
            &&& bytes[3] == code + 32
            &&& event.col < 190 ==> bytes[4] == event.col + 33
            &&& event.col >= 190 ==> bytes[4] == 223
            &&& event.row < 190 ==> bytes[5] == event.row + 33
            &&& event.row >= 190 ==> bytes[5] == 223
        }),
{
}

/// In decimal: `CSI < <code> ; <column> ; <row>` and `M`, or `m` for a
/// release, counted from 1.
pub proof fn sgr_reports(event: MouseEvent, code: nat)
    ensures
        report(event, code, MouseEncoding::Sgr) == seq![0x1bu8, 0x5bu8, 0x3cu8]
            + text::decimal_bytes(code) + seq![0x3bu8] + text::decimal_bytes(
            (event.col + 1) as nat,
        ) + seq![0x3bu8] + text::decimal_bytes((event.row + 1) as nat) + seq![
            if event.kind == MouseEventKind::Release {
                0x6du8
            } else {
                0x4du8
            },
        ],
{
}

/// The older decimal form: `CSI <code + 32> ; <column> ; <row> M`, whatever
/// happened.
pub proof fn urxvt_reports(event: MouseEvent, code: nat)
    ensures
        report(event, code, MouseEncoding::Urxvt) == seq![0x1bu8, 0x5bu8] + text::decimal_bytes(
            code + 32,
        ) + seq![0x3bu8] + text::decimal_bytes((event.col + 1) as nat) + seq![0x3bu8]
            + text::decimal_bytes((event.row + 1) as nat) + seq![0x4du8],
{
}

proof fn lemma_one_byte(v: u32)
    requires
        v <= 127,
    ensures
        encode_scalar(v) == seq![v as u8],
{
    assert(v <= 127 ==> (v & 0x7f) as u8 == v as u8) by (bit_vector);
    assert(encode_scalar(v) =~= seq![v as u8]);
}

/// In one character each, the report is the one in single bytes as long as
/// every number stays below 128, and coordinates are capped at the greatest
/// number that two bytes hold.
pub proof fn utf8_reports(event: MouseEvent, code: nat)
    requires
        code <= 95,
    ensures
        event.col < 95 && event.row < 95 ==> report(event, code, MouseEncoding::Utf8) == report(
            event,
            code,
            MouseEncoding::Default,
        ),
        report(event, code, MouseEncoding::Utf8) == seq![0x1bu8, 0x5bu8, 0x4du8] + encode_scalar(
            (code + 32) as u32,
        ) + encode_scalar(
            if event.col <= 2014 {
                (event.col + 33) as u32
            } else {
                2047
            },
        ) + encode_scalar(
            if event.row <= 2014 {
                (event.row + 33) as u32
            } else {
                2047
            },
        ),
{
    if event.col < 95 && event.row < 95 {
        let a = (code + 32) as u32;
        let b = (event.col + 33) as u32;
        let c = (event.row + 33) as u32;
        assert(a <= 127 && b <= 127 && c <= 127);
        lemma_one_byte(a);
        lemma_one_byte(b);
        lemma_one_byte(c);
        assert(report(event, code, MouseEncoding::Utf8) =~= report(
            event,
            code,
            MouseEncoding::Default,
        ));
    }
}

} // verus!

//! The Kitty keyboard protocol with its progressive enhancement flags.
//!
//! A key that the active flags leave alone is left to the classic encoding.
//! Events with AltGr never get here.
use vstd::prelude::*;

use crate::input::keys::{Key, KeyEvent, KeyModel, Modifiers};
use crate::input::legacy::{self, sum_modifiers};
use crate::text::{self, chars_of, push_decimal_bytes};

verus! {

/// Keys that collide with control bytes become unambiguous sequences.
pub const DISAMBIGUATE: u8 = 1;

/// Repeats and releases are reported.
pub const REPORT_EVENTS: u8 = 2;

/// The shifted key is reported.
pub const REPORT_ALTERNATE: u8 = 4;

/// Every key becomes an escape sequence.
pub const REPORT_ALL_KEYS: u8 = 8;

/// The committed text is reported.
pub const REPORT_TEXT: u8 = 16;

/// What happened to a key.
#[derive(Debug, Clone, Copy, PartialEq, Eq, Hash, Structural)]
pub enum EventType {
    Press,
    Repeat,
    Release,
}

impl Default for EventType {
    fn default() -> (r: Self)
        ensures
            r == EventType::Press,
    {
        EventType::Press
    }
}

impl EventType {
    /// The number of this event type.
    pub open spec fn number(self) -> nat {
        match self {
            EventType::Press => 1,
            EventType::Repeat => 2,
            EventType::Release => 3,
        }
    }

    fn code(self) -> (r: u32)
        ensures
            r == self.number(),
    {
        match self {
            EventType::Press => 1,
            EventType::Repeat => 2,
            EventType::Release => 3,
        }
    }
}

/// The first character of the lower-case form of a character.
pub uninterp spec fn lowered(c: char) -> char;

/// The first character that `char::to_lowercase` yields, or the character
/// itself should it yield none. An ASCII capital gives the small letter; every
/// other ASCII character gives itself.
#[verifier::external_body]
fn lower_first(c: char) -> (r: char)
    ensures
        r == lowered(c),
        c <= '\u{7f}' ==> r == text::ascii_lower(c),
{
    c.to_lowercase().next().unwrap_or(c)
}

/// Whether a flag is set.
pub open spec fn is_set(flags: u8, flag: u8) -> bool {
    flags & flag != 0
}

fn test_flag(flags: u8, flag: u8) -> (r: bool)
    ensures
        r == is_set(flags, flag),
{
    flags & flag != 0
}

/// Whether the event type is written out: only where it is asked for, and
/// never for a press.
pub open spec fn shows_event(evt: EventType, flags: u8) -> bool {
    is_set(flags, REPORT_EVENTS) && evt != EventType::Press
}

/// The modifier field with its leading semicolon: `1` plus the modifier sum,
/// and the event type. It is left out where it says nothing, unless forced.
pub open spec fn modifier_field(mods: Modifiers, evt: EventType, flags: u8, force: bool) -> Seq<u8> {
    if !force && legacy::modifier_sum(mods) == 0 && !shows_event(evt, flags) {
        Seq::empty()
    } else {
        seq![0x3bu8] + text::decimal_bytes(1 + legacy::modifier_sum(mods)) + (if shows_event(
            evt,
            flags,
        ) {
            seq![0x3au8] + text::decimal_bytes(evt.number())
        } else {
            Seq::empty()
        })
    }
}

/// The code points of a text in decimal, with colons between them.
pub open spec fn code_points(s: Seq<char>) -> Seq<u8>
    decreases s.len(),
{
    if s.len() == 0 {
        Seq::empty()
    } else if s.len() == 1 {
        text::decimal_bytes(s[0] as nat)
    } else {
        code_points(s.drop_last()) + seq![0x3au8] + text::decimal_bytes(s.last() as nat)
    }
}

/// Whether the committed text is reported.
pub open spec fn shows_text(committed: Seq<char>, flags: u8) -> bool {
    is_set(flags, REPORT_TEXT) && committed.len() > 0
}

/// The text field with its leading semicolon, where the text is reported.
pub open spec fn text_field(committed: Seq<char>, flags: u8) -> Seq<u8> {
    if shows_text(committed, flags) {
        seq![0x3bu8] + code_points(committed)
    } else {
        Seq::empty()
    }
}

/// The shifted key with its leading colon, where alternates are reported.
pub open spec fn alternate_field(shifted: Option<u32>, flags: u8) -> Seq<u8> {
    match shifted {
        Some(v) => if is_set(flags, REPORT_ALTERNATE) {
            seq![0x3au8] + text::decimal_bytes(v as nat)
        } else {
            Seq::empty()
        },
        None => Seq::empty(),
    }
}

/// `CSI <code>[:<shifted>][;<modifiers>[:<event>]][;<text>] u`. The modifier
/// field is forced where a text field follows.
pub open spec fn csi_u(
    code: u32,
    shifted: Option<u32>,
    mods: Modifiers,
    evt: EventType,
    committed: Seq<char>,
    flags: u8,
) -> Seq<u8> {
    seq![0x1bu8, 0x5bu8] + text::decimal_bytes(code as nat) + alternate_field(shifted, flags)
        + modifier_field(mods, evt, flags, shows_text(committed, flags)) + text_field(
        committed,
        flags,
    ) + seq![0x75u8]
}

/// `CSI <number>[;<modifiers>[:<event>]] <final>`.
pub open spec fn csi_functional(
    number: nat,
    last: u8,
    mods: Modifiers,
    evt: EventType,
    flags: u8,
) -> Seq<u8> {
    seq![0x1bu8, 0x5bu8] + text::decimal_bytes(number) + modifier_field(mods, evt, flags, false)
        + seq![last]
}

/// The number and final byte of a navigation or function key.
pub open spec fn functional(key: Key) -> Option<(nat, u8)> {
    match key {
        Key::Up => Some((1, 0x41)),
        Key::Down => Some((1, 0x42)),
        Key::Right => Some((1, 0x43)),
        Key::Left => Some((1, 0x44)),
        Key::Home => Some((1, 0x48)),
        Key::End => Some((1, 0x46)),
        Key::PageUp => Some((5, 0x7e)),
        Key::PageDown => Some((6, 0x7e)),
        Key::Insert => Some((2, 0x7e)),
        Key::Delete => Some((3, 0x7e)),
        Key::F(n) => if 1 <= n <= 4 {
            Some((1, (0x4f + n) as u8))
        } else {
            match legacy::function_number(n) {
                Some(number) => Some((number, 0x7e)),
                None => None,
            }
        },
        _ => None,
    }
}

/// The code of Escape, Enter, Tab and Backspace.
pub open spec fn special(key: Key) -> Option<u32> {
    match key {
        Key::Escape => Some(27),
        Key::Enter => Some(13),
        Key::Tab => Some(9),
        Key::Backspace => Some(127),
        _ => None,
    }
}

/// The shifted key of a printable key: the first character committed with
/// Shift held, where it differs from the key itself.
pub open spec fn shifted_key(event: KeyModel, code: u32, flags: u8) -> Option<u32> {
    if is_set(flags, REPORT_ALTERNATE) && event.mods.has_shift() && event.committed().len() > 0
        && event.committed()[0] as u32 != code {
        Some(event.committed()[0] as u32)
    } else {
        None
    }
}

/// The bytes of a printable key with the given code, where the flags claim it:
/// every such key where all keys are reported, else one with Control or Alt
/// where disambiguation is on.
pub open spec fn char_outcome(flags: u8, event: KeyModel, evt: EventType, code: u32) -> Option<
    Seq<u8>,
> {
    if is_set(flags, REPORT_ALL_KEYS) || (is_set(flags, DISAMBIGUATE) && (event.mods.has_ctrl()
        || event.mods.has_alt())) {
        Some(
            csi_u(
                code,
                shifted_key(event, code, flags),
                event.mods,
                evt,
                event.committed(),
                flags,
            ),
        )
    } else {
        None
    }
}

/// The bytes of a key event, where the flags claim it. `code` is the code of a
/// printable key.
pub open spec fn kitty_bytes(flags: u8, event: KeyModel, evt: EventType, code: u32) -> Option<
    Seq<u8>,
> {
    if flags == 0 {
        None
    } else {
        match (special(event.key), functional(event.key), event.key) {
            (Some(code), _, _) => if is_set(flags, REPORT_ALL_KEYS) || event.mods.0 != 0 || (is_set(
                flags,
                DISAMBIGUATE,
            ) && event.key == Key::Escape) {
                Some(csi_u(code, None, event.mods, evt, event.committed(), flags))
            } else {
                None
            },
            (None, Some((number, last)), _) => Some(
                csi_functional(number, last, event.mods, evt, flags),
            ),
            (None, None, Key::Char(_)) => char_outcome(flags, event, evt, code),
            (None, None, _) => None,
        }
    }
}

/// The code of a printable key: its lower-case form. Other keys have none.
pub open spec fn key_code(key: Key) -> u32 {
    match key {
        Key::Char(c) => lowered(c) as u32,
        _ => 0,
    }
}

/// The code of a printable ASCII key.
pub open spec fn ascii_key_code(key: Key) -> u32 {
    match key {
        Key::Char(c) => text::ascii_lower(c) as u32,
        _ => 0,
    }
}

/// What the protocol makes of an event.
#[derive(Debug, Clone, PartialEq, Eq)]
pub enum Outcome {
    /// The event is encoded as these bytes.
    Handled(Vec<u8>),
    /// The event is left to the classic encoding.
    Legacy,
}

/// The bytes of an outcome, none where the classic encoding decides.
pub open spec fn outcome_model(o: Outcome) -> Option<Seq<u8>> {
    match o {
        Outcome::Handled(bytes) => Some(bytes@),
        Outcome::Legacy => None,
    }
}

fn push_modifier_field(
    out: &mut Vec<u8>,
    mods: Modifiers,
    evt: EventType,
    flags: u8,
    force: bool,
)
    ensures
        final(out)@ == old(out)@ + modifier_field(mods, evt, flags, force),
{
    let ghost before = out@;
    let sum = sum_modifiers(mods);
    let is_press = match evt {
        EventType::Press => true,
        _ => false,
    };
    let shows = test_flag(flags, REPORT_EVENTS) && !is_press;
    if !force && sum == 0 && !shows {
        assert(out@ =~= before + modifier_field(mods, evt, flags, force));
        return;
    }
    out.push(0x3b);
    push_decimal_bytes(out, (1 + sum) as u32);
    if shows {
        out.push(0x3a);
        push_decimal_bytes(out, evt.code());
    }
    assert(out@ =~= before + modifier_field(mods, evt, flags, force));
}

fn push_text_codepoints(out: &mut Vec<u8>, committed: &str, flags: u8)
    ensures
        final(out)@ == old(out)@ + text_field(committed@, flags),
{
    let ghost before = out@;
    if !test_flag(flags, REPORT_TEXT) || committed.is_empty() {
        assert(out@ =~= before + text_field(committed@, flags));
        return;
    }
    let chars = chars_of(committed);
    out.push(0x3b);
    let ghost head = out@;
    let mut i: usize = 0;
    assert(chars@.take(0) =~= Seq::<char>::empty());
    assert(out@ =~= head + code_points(chars@.take(0)));
    while i < chars.len()
        invariant
            i <= chars.len(),
            out@ == head + code_points(chars@.take(i as int)),
        decreases chars.len() - i,
    {
        let c = chars[i];
        if i > 0 {
            out.push(0x3a);
        }
        push_decimal_bytes(out, c as u32);
        proof {
            let next = chars@.take(i + 1);
            assert(next.drop_last() =~= chars@.take(i as int));
            assert(next.last() == c);
            text::lemma_char(c);
            if i == 0 {
                assert(next =~= seq![c]);
            }
            assert(out@ =~= head + code_points(next));
        }
        i += 1;
    }
    assert(chars@.take(i as int) =~= committed@);
    assert(out@ =~= before + text_field(committed@, flags));
}

fn encode_csi_u(
    code: u32,
    shifted: Option<u32>,
    mods: Modifiers,
    evt: EventType,
    committed: &str,
    flags: u8,
) -> (r: Vec<u8>)
    ensures
        r@ == csi_u(code, shifted, mods, evt, committed@, flags),
{
    let mut out: Vec<u8> = vec![0x1b, 0x5b];
    assert(out@ =~= seq![0x1bu8, 0x5bu8]);
    push_decimal_bytes(&mut out, code);
    let ghost head = out@;
    if let Some(v) = shifted {
        if test_flag(flags, REPORT_ALTERNATE) {
            out.push(0x3a);
            push_decimal_bytes(&mut out, v);
        }
    }
    assert(out@ =~= head + alternate_field(shifted, flags));
    let force = test_flag(flags, REPORT_TEXT) && !committed.is_empty();
    push_modifier_field(&mut out, mods, evt, flags, force);
    push_text_codepoints(&mut out, committed, flags);
    out.push(0x75);
    assert(out@ =~= csi_u(code, shifted, mods, evt, committed@, flags));
    out
}

fn encode_functional(number: u32, last: u8, mods: Modifiers, evt: EventType, flags: u8) -> (r: Vec<
    u8,
>)
    ensures
        r@ == csi_functional(number as nat, last, mods, evt, flags),
{
    let mut out: Vec<u8> = vec![0x1b, 0x5b];
    assert(out@ =~= seq![0x1bu8, 0x5bu8]);
    push_decimal_bytes(&mut out, number);
    push_modifier_field(&mut out, mods, evt, flags, false);
    out.push(last);
    assert(out@ =~= csi_functional(number as nat, last, mods, evt, flags));
    out
}

fn functional_of(key: Key) -> (r: Option<(u32, u8)>)
    ensures
        match (r, functional(key)) {
            (Some(a), Some(b)) => a.0 == b.0 && a.1 == b.1,
            (None, None) => true,
            _ => false,
        },
{
    match key {
        Key::Up => Some((1, 0x41)),
        Key::Down => Some((1, 0x42)),
        Key::Right => Some((1, 0x43)),
        Key::Left => Some((1, 0x44)),
        Key::Home => Some((1, 0x48)),
        Key::End => Some((1, 0x46)),
        Key::PageUp => Some((5, 0x7e)),
        Key::PageDown => Some((6, 0x7e)),
        Key::Insert => Some((2, 0x7e)),
        Key::Delete => Some((3, 0x7e)),
        Key::F(n) => {
            if 1 <= n && n <= 4 {
                Some((1, 0x4f + n))
            } else if n == 5 {
                Some((15, 0x7e))
            } else if 6 <= n && n <= 10 {
                Some(((n + 11) as u32, 0x7e))
            } else if n == 11 || n == 12 {
                Some(((n + 12) as u32, 0x7e))
            } else {
                None
            }
        },
        _ => None,
    }
}

fn special_key_code(key: Key) -> (r: Option<u32>)
    ensures
        r == special(key),
{
    match key {
        Key::Escape => Some(27),
        Key::Enter => Some(13),
        Key::Tab => Some(9),
        Key::Backspace => Some(127),
        _ => None,
    }
}

fn encode_char(flags: u8, event: &KeyEvent, evt: EventType, code: u32) -> (r: Outcome)
    ensures
        outcome_model(r) == char_outcome(flags, event@, evt, code),
{
    let chord = event.mods.contains(Modifiers::ctrl()) || event.mods.contains(Modifiers::alt());
    if !(test_flag(flags, REPORT_ALL_KEYS) || (test_flag(flags, DISAMBIGUATE) && chord)) {
        return Outcome::Legacy;
    }
    let committed = event.committed();
    let mut shifted: Option<u32> = None;
    if test_flag(flags, REPORT_ALTERNATE) && event.mods.contains(Modifiers::shift()) {
        let chars = chars_of(committed);
        if chars.len() > 0 && chars[0] as u32 != code {
            shifted = Some(chars[0] as u32);
        }
    }
    Outcome::Handled(encode_csi_u(code, shifted, event.mods, evt, committed, flags))
}

/// Encodes an event whose printable key, if it is one, has the given code.
pub fn encode_with_code(flags: u8, event: &KeyEvent, evt: EventType, code: u32) -> (r: Outcome)
    ensures
        outcome_model(r) == kitty_bytes(flags, event@, evt, code),
{
    if flags == 0 {
        return Outcome::Legacy;
    }
    if let Some(code) = special_key_code(event.key) {
        let is_escape = match event.key {
            Key::Escape => true,
            _ => false,
        };
        if test_flag(flags, REPORT_ALL_KEYS) || !event.mods.is_empty() || (test_flag(
            flags,
            DISAMBIGUATE,
        ) && is_escape) {
            return Outcome::Handled(
                encode_csi_u(code, None, event.mods, evt, event.committed(), flags),
            );
        }
        return Outcome::Legacy;
    }
    if let Some((number, last)) = functional_of(event.key) {
        return Outcome::Handled(encode_functional(number, last, event.mods, evt, flags));
    }
    match event.key {
        Key::Char(_) => encode_char(flags, event, evt, code),
        _ => Outcome::Legacy,
    }
}

/// Encodes an event of the given type.
pub fn encode_with_event(flags: u8, event: &KeyEvent, evt: EventType) -> (r: Outcome)
    ensures
        outcome_model(r) == kitty_bytes(flags, event@, evt, key_code(event.key)),
        (event.key matches Key::Char(c) ==> c <= '\u{7f}') ==> outcome_model(r) == kitty_bytes(
            flags,
            event@,
            evt,
            ascii_key_code(event.key),
        ),
{
    let code: u32 = match event.key {
        Key::Char(c) => lower_first(c) as u32,
        _ => 0,
    };
    encode_with_code(flags, event, evt, code)
}

/// Encodes a press.
pub fn encode(flags: u8, event: &KeyEvent) -> (r: Outcome)
    ensures
        outcome_model(r) == kitty_bytes(flags, event@, EventType::Press, key_code(event.key)),
        (event.key matches Key::Char(c) ==> c <= '\u{7f}') ==> outcome_model(r) == kitty_bytes(
            flags,
            event@,
            EventType::Press,
            ascii_key_code(event.key),
        ),
{
    encode_with_event(flags, event, EventType::Press)
}

/// Without flags every key is left to the classic encoding.
pub proof fn no_flags_is_classic(event: KeyModel, evt: EventType, code: u32)
    ensures
        kitty_bytes(0, event, evt, code) is None,
{
}

/// Without the flag for it, repeats and releases are encoded like presses.
pub proof fn event_type_needs_flag(flags: u8, event: KeyModel, evt: EventType, code: u32)
    requires
        !is_set(flags, REPORT_EVENTS),
    ensures
        kitty_bytes(flags, event, evt, code) == kitty_bytes(flags, event, EventType::Press, code),
{
}

/// Where all keys are reported, every key but an unknown function key becomes
/// an escape sequence.
pub proof fn all_keys_are_reported(flags: u8, event: KeyModel, evt: EventType, code: u32)
    requires
        is_set(flags, REPORT_ALL_KEYS),
        event.key matches Key::F(n) ==> 1 <= n <= 12,
    ensures
        kitty_bytes(flags, event, evt, code) matches Some(bytes) && bytes.len() > 2 && bytes[0]
            == 0x1b && bytes[1] == 0x5b,
{
    assert(0u8 & 8 == 0) by (bit_vector);
}

/// The code points of a text are listed with a colon between each two.
pub proof fn code_points_are_listed(s: Seq<char>, c: char)
    ensures
        code_points(seq![c]) == text::decimal_bytes(c as nat),
        s.len() > 0 ==> code_points(s.push(c)) == code_points(s) + seq![0x3au8]
            + text::decimal_bytes(c as nat),
{
    assert(s.push(c).drop_last() =~= s);
}

} // verus!

//! The keyboard encoder: AltGr first, then the Kitty protocol where the
//! program has asked for it, then the classic encoding.
use vstd::prelude::*;

use crate::input::keys::{Key, KeyEvent, KeyModel, Modifiers};
use crate::input::kitty::{self, EventType, Outcome};
use crate::input::legacy::{self, Mode};
use crate::text;

verus! {

/// Encodes key events under a mode.
#[derive(Debug, Clone, Copy)]
pub struct Encoder {
    pub mode: Mode,
}

impl Default for Encoder {
    fn default() -> (r: Self)
        ensures
            r.mode == (Mode { application_cursor_keys: false, kitty_flags: 0 }),
    {
        Encoder { mode: Mode::default() }
    }
}

/// Bytes that are sent, none sending nothing.
pub open spec fn sent(bytes: Option<Seq<u8>>) -> Seq<u8> {
    match bytes {
        Some(b) => b,
        None => Seq::empty(),
    }
}

/// The bytes that a press sends, given the code of its printable key.
pub open spec fn press_bytes(mode: Mode, event: KeyModel, code: u32) -> Seq<u8> {
    if event.mods.has_alt_gr() {
        sent(legacy::altgr_bytes(event))
    } else {
        match kitty::kitty_bytes(mode.kitty_flags, event, EventType::Press, code) {
            Some(bytes) => bytes,
            None => sent(legacy::legacy_bytes(mode, event)),
        }
    }
}

fn or_nothing(bytes: Option<Vec<u8>>) -> (r: Vec<u8>)
    ensures
        r@ == sent(legacy::bytes_model(bytes)),
{
    match bytes {
        Some(b) => b,
        None => {
            let none: Vec<u8> = Vec::new();
            assert(none@ =~= Seq::<u8>::empty());
            none
        },
    }
}

impl Encoder {
    pub fn new(mode: Mode) -> (r: Encoder)
        ensures
            r.mode == mode,
    {
        Encoder { mode }
    }

    pub fn mode(&self) -> (r: Mode)
        ensures
            r == self.mode,
    {
        self.mode
    }

    pub fn set_mode(&mut self, mode: Mode)
        ensures
            final(self).mode == mode,
    {
        self.mode = mode;
    }

    /// The bytes that a press sends; empty where it sends nothing.
    pub fn encode(&self, event: &KeyEvent) -> (r: Vec<u8>)
        ensures
            r@ == press_bytes(self.mode, event@, kitty::key_code(event.key)),
            (event.key matches Key::Char(c) ==> c <= '\u{7f}') ==> r@ == press_bytes(
                self.mode,
                event@,
                kitty::ascii_key_code(event.key),
            ),
    {
        if event.mods.contains(Modifiers::alt_gr()) {
            return or_nothing(legacy::encode_altgr(event));
        }
        match kitty::encode(self.mode.kitty_flags, event) {
            Outcome::Handled(bytes) => bytes,
            Outcome::Legacy => or_nothing(legacy::encode(self.mode, event)),
        }
    }
}

/// AltGr types text: with AltGr held the committed text is sent verbatim, under
/// every mode and whatever other modifiers are held.
pub proof fn altgr_sends_text_alone(mode: Mode, event: KeyModel, code: u32)
    requires
        event.mods.has_alt_gr(),
        event.committed().len() > 0,
    ensures
        press_bytes(mode, event, code) == vstd::utf8::encode_utf8(event.committed()),
{
}

/// A dead key sends nothing: without committed text and without Control or Alt
/// a printable key is silent, unless all keys are reported.
pub proof fn dead_key_is_silent(mode: Mode, event: KeyModel, c: char, code: u32)
    requires
        event.key == Key::Char(c),
        event.committed().len() == 0,
        !event.mods.has_ctrl(),
        !event.mods.has_alt(),
        !kitty::is_set(mode.kitty_flags, kitty::REPORT_ALL_KEYS),
    ensures
        press_bytes(mode, event, code).len() == 0,
{
}

/// Without Kitty flags the encoder is the classic one.
pub proof fn without_flags_classic(mode: Mode, event: KeyModel, code: u32)
    requires
        mode.kitty_flags == 0,
    ensures
        press_bytes(mode, event, code) == sent(legacy::legacy_bytes(mode, event)),
{
}

/// Typed text arrives as it is: a printable key without modifiers sends its
/// committed text, unless all keys are reported.
pub proof fn plain_text_is_sent(mode: Mode, event: KeyModel, c: char, code: u32)
    requires
        event.key == Key::Char(c),
        event.mods.0 == 0,
        event.committed().len() > 0,
        !kitty::is_set(mode.kitty_flags, kitty::REPORT_ALL_KEYS),
    ensures
        press_bytes(mode, event, code) == vstd::utf8::encode_utf8(event.committed()),
{
    assert(0u8 & 2 != 2 && 0u8 & 4 != 4 && 0u8 & 8 != 8) by (bit_vector);
}

// ---- the sequences that programs see --------------------------------------------------

/// Whether Shift, Alt or Control is held.
pub open spec fn is_held(mods: Modifiers) -> bool {
    mods.has_shift() || mods.has_alt() || mods.has_ctrl()
}

/// The digit that tells which modifiers are held: `1`, and 1 more for Shift, 2
/// for Alt and 4 for Control.
pub open spec fn modifier_digit(mods: Modifiers) -> u8 {
    (0x31 + (if mods.has_shift() {
        1int
    } else {
        0
    }) + (if mods.has_alt() {
        2int
    } else {
        0
    }) + (if mods.has_ctrl() {
        4int
    } else {
        0
    })) as u8
}

/// The digits of the code of Escape, Enter, Tab and Backspace: 27, 13, 9, 127.
pub open spec fn special_digits(key: Key) -> Option<Seq<u8>> {
    match key {
        Key::Escape => Some(seq![0x32u8, 0x37u8]),
        Key::Enter => Some(seq![0x31u8, 0x33u8]),
        Key::Tab => Some(seq![0x39u8]),
        Key::Backspace => Some(seq![0x31u8, 0x32u8, 0x37u8]),
        _ => None,
    }
}

/// The text field of a report, where the program has asked for text and there
/// is some.
pub open spec fn reported_text(mode: Mode, event: KeyModel) -> Seq<u8> {
    if mode.kitty_flags & 16 != 0 && event.committed().len() > 0 {
        seq![0x3bu8] + kitty::code_points(event.committed())
    } else {
        Seq::empty()
    }
}

proof fn lemma_special_digits(key: Key)
    requires
        special_digits(key) is Some,
    ensures
        kitty::special(key) matches Some(code) && text::decimal_bytes(code as nat)
            == special_digits(key)->0,
{
    reveal_with_fuel(text::decimal_bytes, 4);
    assert(text::decimal_bytes(27) =~= seq![0x32u8, 0x37u8]);
    assert(text::decimal_bytes(13) =~= seq![0x31u8, 0x33u8]);
    assert(text::decimal_bytes(9) =~= seq![0x39u8]);
    assert(text::decimal_bytes(127) =~= seq![0x31u8, 0x32u8, 0x37u8]);
}

proof fn lemma_modifier_digit(mods: Modifiers)
    ensures
        text::decimal_bytes(1 + legacy::modifier_sum(mods)) == seq![modifier_digit(mods)],
        legacy::modifier_sum(mods) == 0 <==> !is_held(mods),
        0x31 <= modifier_digit(mods) <= 0x38,
{
    assert(text::decimal_bytes(1 + legacy::modifier_sum(mods)) =~= seq![modifier_digit(mods)]);
}

proof fn lemma_held(mods: Modifiers)
    requires
        is_held(mods),
    ensures
        mods.0 != 0,
{
    assert(0u8 & 1 != 1 && 0u8 & 2 != 2 && 0u8 & 4 != 4) by (bit_vector);
}

/// Escape, Enter, Tab and Backspace with Shift, Alt or Control held: with any
/// Kitty flag set the key is reported as `CSI <code> ; <modifiers> u`, so that
/// no modifier is lost.
pub proof fn modified_special_key_is_reported(mode: Mode, event: KeyModel, code: u32)
    requires
        mode.kitty_flags != 0,
        !event.mods.has_alt_gr(),
        is_held(event.mods),
        special_digits(event.key) is Some,
    ensures
        press_bytes(mode, event, code) == seq![0x1bu8, 0x5bu8] + special_digits(event.key)->0
            + seq![0x3bu8, modifier_digit(event.mods)] + reported_text(mode, event) + seq![0x75u8],
{
    lemma_special_digits(event.key);
    lemma_modifier_digit(event.mods);
    lemma_held(event.mods);
    assert(press_bytes(mode, event, code) =~= seq![0x1bu8, 0x5bu8] + special_digits(event.key)->0
        + seq![0x3bu8, modifier_digit(event.mods)] + reported_text(mode, event) + seq![0x75u8]);
}

/// Under disambiguation no two different sets of modifiers on Escape, Enter,
/// Tab or Backspace send the same bytes.
pub proof fn special_modifiers_are_told_apart(
    mode: Mode,
    a: KeyModel,
    b: KeyModel,
    code: u32,
    other: u32,
)
    requires
        mode.kitty_flags & 1 != 0,
        !a.mods.has_alt_gr(),
        !b.mods.has_alt_gr(),
        special_digits(a.key) is Some,
        a.key == b.key,
        a.mods.has_shift() != b.mods.has_shift() || a.mods.has_alt() != b.mods.has_alt()
            || a.mods.has_ctrl() != b.mods.has_ctrl(),
    ensures
        press_bytes(mode, a, code) != press_bytes(mode, b, other),
{
    assert(0u8 & 1 == 0) by (bit_vector);
    if is_held(a.mods) {
        lemma_told_apart(mode, a, b, code, other);
    } else {
        lemma_told_apart(mode, b, a, other, code);
    }
}

proof fn lemma_told_apart(mode: Mode, a: KeyModel, b: KeyModel, code: u32, other: u32)
    requires
        mode.kitty_flags != 0,
        !a.mods.has_alt_gr(),
        !b.mods.has_alt_gr(),
        special_digits(a.key) is Some,
        a.key == b.key,
        is_held(a.mods),
        a.mods.has_shift() != b.mods.has_shift() || a.mods.has_alt() != b.mods.has_alt()
            || a.mods.has_ctrl() != b.mods.has_ctrl(),
    ensures
        press_bytes(mode, a, code) != press_bytes(mode, b, other),
{
    let x = press_bytes(mode, a, code);
    let y = press_bytes(mode, b, other);
    let digits = special_digits(a.key)->0;
    let n = digits.len() as int;
    modified_special_key_is_reported(mode, a, code);
    lemma_modifier_digit(a.mods);
    lemma_modifier_digit(b.mods);
    assert(x[2 + n] == 0x3b);
    assert(x[3 + n] == modifier_digit(a.mods));
    assert(x.len() >= 5 + n);
    if is_held(b.mods) {
        modified_special_key_is_reported(mode, b, other);
        assert(y[3 + n] == modifier_digit(b.mods));
    } else {
        lemma_special_digits(b.key);
        match kitty::kitty_bytes(mode.kitty_flags, b, EventType::Press, other) {
            Some(bytes) => {
                if kitty::shows_text(b.committed(), mode.kitty_flags) {
                    assert(y =~= seq![0x1bu8, 0x5bu8] + digits + seq![
                        0x3bu8,
                        modifier_digit(b.mods),
                    ] + kitty::text_field(b.committed(), mode.kitty_flags) + seq![0x75u8]);
                    assert(y[3 + n] == modifier_digit(b.mods));
                } else {
                    assert(y =~= seq![0x1bu8, 0x5bu8] + digits + seq![0x75u8]);
                    assert(y.len() == 3 + n);
                }
            },
            None => {
                assert(y.len() == 1);
            },
        }
    }
}

/// Without modifiers and unless all keys are reported, Enter sends CR, Tab HT
/// and Backspace DEL. Escape sends ESC, or `CSI 27 u` under disambiguation.
pub proof fn plain_special_keys(mode: Mode, event: KeyModel, code: u32)
    requires
        event.mods.0 == 0,
        mode.kitty_flags & 8 == 0,
    ensures
        event.key == Key::Enter ==> press_bytes(mode, event, code) == seq![0x0du8],
        event.key == Key::Tab ==> press_bytes(mode, event, code) == seq![0x09u8],
        event.key == Key::Backspace ==> press_bytes(mode, event, code) == seq![0x7fu8],
        event.key == Key::Escape && mode.kitty_flags & 1 == 0 ==> press_bytes(mode, event, code)
            == seq![0x1bu8],
        event.key == Key::Escape && mode.kitty_flags & 1 != 0 && event.committed().len() == 0
            ==> press_bytes(mode, event, code) == seq![0x1bu8, 0x5bu8, 0x32u8, 0x37u8, 0x75u8],
{
    assert(0u8 & 1 != 1 && 0u8 & 2 != 2 && 0u8 & 4 != 4 && 0u8 & 8 != 8 && 0u8 & 1 == 0)
        by (bit_vector);
    if event.key == Key::Escape {
        lemma_special_digits(event.key);
        lemma_modifier_digit(event.mods);
        if mode.kitty_flags & 1 != 0 && event.committed().len() == 0 {
            assert(press_bytes(mode, event, code) =~= seq![
                0x1bu8,
                0x5bu8,
                0x32u8,
                0x37u8,
                0x75u8,
            ]);
        }
    }
}

/// The final letter of the arrow keys, Home, End and F1 to F4: `A` up, `B`
/// down, `C` right, `D` left, `H` home, `F` end, `P` to `S`.
pub open spec fn final_letter(key: Key) -> Option<u8> {
    match key {
        Key::Up => Some(0x41),
        Key::Down => Some(0x42),
        Key::Right => Some(0x43),
        Key::Left => Some(0x44),
        Key::Home => Some(0x48),
        Key::End => Some(0x46),
        Key::F(1) => Some(0x50),
        Key::F(2) => Some(0x51),
        Key::F(3) => Some(0x52),
        Key::F(4) => Some(0x53),
        _ => None,
    }
}

/// The digits of the number of the keys that end in a tilde: Insert 2, Delete
/// 3, Page Up 5, Page Down 6, F5 to F12 15, 17 to 21, 23 and 24.
pub open spec fn tilde_digits(key: Key) -> Option<Seq<u8>> {
    match key {
        Key::Insert => Some(seq![0x32u8]),
        Key::Delete => Some(seq![0x33u8]),
        Key::PageUp => Some(seq![0x35u8]),
        Key::PageDown => Some(seq![0x36u8]),
        Key::F(5) => Some(seq![0x31u8, 0x35u8]),
        Key::F(6) => Some(seq![0x31u8, 0x37u8]),
        Key::F(7) => Some(seq![0x31u8, 0x38u8]),
        Key::F(8) => Some(seq![0x31u8, 0x39u8]),
        Key::F(9) => Some(seq![0x32u8, 0x30u8]),
        Key::F(10) => Some(seq![0x32u8, 0x31u8]),
        Key::F(11) => Some(seq![0x32u8, 0x33u8]),
        Key::F(12) => Some(seq![0x32u8, 0x34u8]),
        _ => None,
    }
}

/// Arrow keys, Home, End and F1 to F4. With a modifier held they send
/// `CSI 1 ; <modifiers> <letter>` under every mode. Without one they send
/// `CSI 1 <letter>` where a Kitty flag is set; else `SS3 <letter>` for a
/// function key and in application mode, and `CSI <letter>` otherwise.
pub proof fn letter_keys(mode: Mode, event: KeyModel, code: u32)
    requires
        final_letter(event.key) is Some,
        !event.mods.has_alt_gr(),
    ensures
        is_held(event.mods) ==> press_bytes(mode, event, code) == seq![
            0x1bu8,
            0x5bu8,
            0x31u8,
            0x3bu8,
            modifier_digit(event.mods),
            final_letter(event.key)->0,
        ],
        !is_held(event.mods) && mode.kitty_flags != 0 ==> press_bytes(mode, event, code) == seq![
            0x1bu8,
            0x5bu8,
            0x31u8,
            final_letter(event.key)->0,
        ],
        !is_held(event.mods) && mode.kitty_flags == 0 && (event.key is F
            || mode.application_cursor_keys) ==> press_bytes(mode, event, code) == seq![
            0x1bu8,
            0x4fu8,
            final_letter(event.key)->0,
        ],
        !is_held(event.mods) && mode.kitty_flags == 0 && !(event.key is F)
            && !mode.application_cursor_keys ==> press_bytes(mode, event, code) == seq![
            0x1bu8,
            0x5bu8,
            final_letter(event.key)->0,
        ],
{
    lemma_modifier_digit(event.mods);
    let letter = final_letter(event.key)->0;
    let bytes = press_bytes(mode, event, code);
    assert(text::decimal_bytes(1) =~= seq![0x31u8]);
    if is_held(event.mods) {
        assert(bytes =~= seq![
            0x1bu8,
            0x5bu8,
            0x31u8,
            0x3bu8,
            modifier_digit(event.mods),
            letter,
        ]);
    } else if mode.kitty_flags != 0 {
        assert(bytes =~= seq![0x1bu8, 0x5bu8, 0x31u8, letter]);
    }
}

/// Insert, Delete, Page Up, Page Down and F5 to F12 send
/// `CSI <number> ~`, with the modifiers before the tilde where one is held,
/// under every mode.
pub proof fn tilde_keys(mode: Mode, event: KeyModel, code: u32)
    requires
        tilde_digits(event.key) is Some,
        !event.mods.has_alt_gr(),
    ensures
        press_bytes(mode, event, code) == seq![0x1bu8, 0x5bu8] + tilde_digits(event.key)->0 + (
        if is_held(event.mods) {
            seq![0x3bu8, modifier_digit(event.mods)]
        } else {
            Seq::empty()
        }) + seq![0x7eu8],
{
    lemma_modifier_digit(event.mods);
    reveal_with_fuel(text::decimal_bytes, 3);
    let digits = tilde_digits(event.key)->0;
    let number: nat = match event.key {
        Key::Insert => 2,
        Key::Delete => 3,
        Key::PageUp => 5,
        Key::PageDown => 6,
        Key::F(n) => legacy::function_number(n)->0,
        _ => 0,
    };
    assert(text::decimal_bytes(number) =~= digits);
    assert(press_bytes(mode, event, code) =~= seq![0x1bu8, 0x5bu8] + digits + (if is_held(
        event.mods,
    ) {
        seq![0x3bu8, modifier_digit(event.mods)]
    } else {
        Seq::empty()
    }) + seq![0x7eu8]);
}

/// Control and a letter of either case send the low five bits of the letter,
/// with ESC before them where Alt is held too, as long as the Kitty protocol
/// leaves the key alone.
pub proof fn control_letters(mode: Mode, event: KeyModel, c: char, code: u32)
    requires
        event.key == Key::Char(c),
        'a' <= c <= 'z' || 'A' <= c <= 'Z',
        event.mods.has_ctrl(),
        !event.mods.has_alt_gr(),
        mode.kitty_flags & 9 == 0,
    ensures
        press_bytes(mode, event, code) == (if event.mods.has_alt() {
            seq![0x1bu8]
        } else {
            Seq::empty()
        }) + seq![(c as u8 % 32) as u8],
{
    let flags = mode.kitty_flags;
    assert(flags & 9 == 0 ==> flags & 1 == 0 && flags & 8 == 0) by (bit_vector);
    text::lemma_char(c);
    assert(legacy::control_byte(c) == Some((c as u8 % 32) as u8));
    assert(press_bytes(mode, event, code) =~= (if event.mods.has_alt() {
        seq![0x1bu8]
    } else {
        Seq::empty()
    }) + seq![(c as u8 % 32) as u8]);
}

/// Alt puts ESC before what a printable key sends, as long as the Kitty
/// protocol leaves the key alone.
pub proof fn alt_puts_escape_in_front(mode: Mode, event: KeyModel, c: char, code: u32)
    requires
        event.key == Key::Char(c),
        event.committed().len() > 0,
        event.mods.has_alt(),
        !event.mods.has_ctrl(),
        !event.mods.has_alt_gr(),
        mode.kitty_flags & 9 == 0,
    ensures
        press_bytes(mode, event, code) == seq![0x1bu8] + vstd::utf8::encode_utf8(
            event.committed(),
        ),
{
    let flags = mode.kitty_flags;
    assert(flags & 9 == 0 ==> flags & 1 == 0 && flags & 8 == 0) by (bit_vector);
}

/// A printable key with Control or Alt held under disambiguation, or any
/// printable key where all keys are reported, is reported by its code:
/// `CSI <code> ; <modifiers> u`, where neither the shifted key nor the text
/// has been asked for.
pub proof fn chords_are_reported(mode: Mode, event: KeyModel, c: char, code: u32)
    requires
        event.key == Key::Char(c),
        !event.mods.has_alt_gr(),
        mode.kitty_flags & 8 != 0 || (mode.kitty_flags & 1 != 0 && (event.mods.has_ctrl()
            || event.mods.has_alt())),
        mode.kitty_flags & 20 == 0,
    ensures
        press_bytes(mode, event, code) == seq![0x1bu8, 0x5bu8] + text::decimal_bytes(code as nat)
            + (if is_held(event.mods) {
            seq![0x3bu8, modifier_digit(event.mods)]
        } else {
            Seq::empty()
        }) + seq![0x75u8],
{
    let flags = mode.kitty_flags;
    assert(flags & 20 == 0 ==> flags & 4 == 0 && flags & 16 == 0) by (bit_vector);
    assert(0u8 & 8 == 0 && 0u8 & 1 == 0) by (bit_vector);
    lemma_modifier_digit(event.mods);
    assert(press_bytes(mode, event, code) =~= seq![0x1bu8, 0x5bu8] + text::decimal_bytes(
        code as nat,
    ) + (if is_held(event.mods) {
        seq![0x3bu8, modifier_digit(event.mods)]
    } else {
        Seq::empty()
    }) + seq![0x75u8]);
}

/// A chord reported with everything that a program can ask for: the shifted
/// key behind a colon where Shift has changed the character, and the code
/// points of the text behind the modifiers.
pub proof fn full_reports(mode: Mode, event: KeyModel, c: char, code: u32)
    requires
        event.key == Key::Char(c),
        !event.mods.has_alt_gr(),
        mode.kitty_flags & 8 != 0,
        mode.kitty_flags & 4 != 0,
        mode.kitty_flags & 16 != 0,
        event.committed().len() > 0,
    ensures
        press_bytes(mode, event, code) == seq![0x1bu8, 0x5bu8] + text::decimal_bytes(code as nat)
            + (if event.mods.has_shift() && event.committed()[0] as u32 != code {
            seq![0x3au8] + text::decimal_bytes(event.committed()[0] as nat)
        } else {
            Seq::empty()
        }) + seq![0x3bu8, modifier_digit(event.mods), 0x3bu8] + kitty::code_points(
            event.committed(),
        ) + seq![0x75u8],
{
    assert(0u8 & 8 == 0) by (bit_vector);
    lemma_modifier_digit(event.mods);
    text::lemma_char(event.committed()[0]);
    assert(press_bytes(mode, event, code) =~= seq![0x1bu8, 0x5bu8] + text::decimal_bytes(
        code as nat,
    ) + (if event.mods.has_shift() && event.committed()[0] as u32 != code {
        seq![0x3au8] + text::decimal_bytes(event.committed()[0] as nat)
    } else {
        Seq::empty()
    }) + seq![0x3bu8, modifier_digit(event.mods), 0x3bu8] + kitty::code_points(event.committed())
        + seq![0x75u8]);
}

/// Where repeats and releases are asked for, a letter key reports them as
/// `CSI 1 ; <modifiers> : <2 or 3> <letter>`.
pub proof fn repeats_and_releases_are_reported(
    flags: u8,
    event: KeyModel,
    evt: EventType,
    code: u32,
)
    requires
        flags & 2 != 0,
        evt != EventType::Press,
    ensures
        final_letter(event.key) matches Some(letter) ==> kitty::kitty_bytes(
            flags,
            event,
            evt,
            code,
        ) == Some(
            seq![
                0x1bu8,
                0x5bu8,
                0x31u8,
                0x3bu8,
                modifier_digit(event.mods),
                0x3au8,
                if evt == EventType::Repeat {
                    0x32u8
                } else {
                    0x33u8
                },
                letter,
            ],
        ),
        tilde_digits(event.key) matches Some(digits) ==> kitty::kitty_bytes(flags, event, evt, code)
            == Some(
            seq![0x1bu8, 0x5bu8] + digits + seq![
                0x3bu8,
                modifier_digit(event.mods),
                0x3au8,
                if evt == EventType::Repeat {
                    0x32u8
                } else {
                    0x33u8
                },
                0x7eu8,
            ],
        ),
        special_digits(event.key) matches Some(digits) && is_held(event.mods) && flags & 16 == 0
            ==> kitty::kitty_bytes(flags, event, evt, code) == Some(
            seq![0x1bu8, 0x5bu8] + special_digits(event.key)->0 + seq![
                0x3bu8,
                modifier_digit(event.mods),
                0x3au8,
                if evt == EventType::Repeat {
                    0x32u8
                } else {
                    0x33u8
                },
                0x75u8,
            ],
        ),
{
    assert(0u8 & 2 == 0) by (bit_vector);
    lemma_modifier_digit(event.mods);
    reveal_with_fuel(text::decimal_bytes, 3);
    let kind: u8 = if evt == EventType::Repeat {
        0x32
    } else {
        0x33
    };
    assert(text::decimal_bytes(evt.number()) =~= seq![kind]);
    let got = kitty::kitty_bytes(flags, event, evt, code);
    if let Some(letter) = final_letter(event.key) {
        assert(got->0 =~= seq![
            0x1bu8,
            0x5bu8,
            0x31u8,
            0x3bu8,
            modifier_digit(event.mods),
            0x3au8,
            kind,
            letter,
        ]);
    }
    if let Some(digits) = tilde_digits(event.key) {
        let number: nat = match event.key {
            Key::Insert => 2,
            Key::Delete => 3,
            Key::PageUp => 5,
            Key::PageDown => 6,
            Key::F(n) => legacy::function_number(n)->0,
            _ => 0,
        };
        assert(text::decimal_bytes(number) =~= digits);
        assert(got->0 =~= seq![0x1bu8, 0x5bu8] + digits + seq![
            0x3bu8,
            modifier_digit(event.mods),
            0x3au8,
            kind,
            0x7eu8,
        ]);
    }
    if special_digits(event.key) is Some && is_held(event.mods) && flags & 16 == 0 {
        lemma_special_digits(event.key);
        lemma_held(event.mods);
        assert(got->0 =~= seq![0x1bu8, 0x5bu8] + special_digits(event.key)->0 + seq![
            0x3bu8,
            modifier_digit(event.mods),
            0x3au8,
            kind,
            0x75u8,
        ]);
    }
}

/// Without Control or Alt a printable key sends its committed text, Shift or
/// not, unless all keys are reported.
pub proof fn typed_text_is_sent(mode: Mode, event: KeyModel, c: char, code: u32)
    requires
        event.key == Key::Char(c),
        !event.mods.has_ctrl(),
        !event.mods.has_alt(),
        event.committed().len() > 0,
        !kitty::is_set(mode.kitty_flags, kitty::REPORT_ALL_KEYS),
    ensures
        press_bytes(mode, event, code) == vstd::utf8::encode_utf8(event.committed()),
{
}

/// Control with the space bar sends NUL and with an opening bracket ESC. With
/// any other character that is no letter it sends the committed text.
pub proof fn control_with_other_characters(mode: Mode, event: KeyModel, c: char, code: u32)
    requires
        event.key == Key::Char(c),
        event.mods.has_ctrl(),
        !event.mods.has_alt(),
        !event.mods.has_alt_gr(),
        mode.kitty_flags == 0,
    ensures
        c == ' ' ==> press_bytes(mode, event, code) == seq![0x00u8],
        c == '[' ==> press_bytes(mode, event, code) == seq![0x1bu8],
        c != ' ' && c != '[' && !('a' <= c <= 'z') && !('A' <= c <= 'Z') && event.committed().len()
            > 0 ==> press_bytes(mode, event, code) == vstd::utf8::encode_utf8(event.committed()),
        c != ' ' && c != '[' && !('a' <= c <= 'z') && !('A' <= c <= 'Z') && event.committed().len()
            == 0 ==> press_bytes(mode, event, code).len() == 0,
{
    text::lemma_char(c);
}

/// Function keys beyond F12 send nothing, and neither does AltGr without text.
pub proof fn unknown_keys_send_nothing(mode: Mode, event: KeyModel, code: u32)
    ensures
        !event.mods.has_alt_gr() && (event.key matches Key::F(n) && (n == 0 || n > 12))
            ==> press_bytes(mode, event, code).len() == 0,
        event.mods.has_alt_gr() && event.committed().len() == 0 ==> press_bytes(
            mode,
            event,
            code,
        ).len() == 0,
{
}

/// A reported printable key in full: its code; behind a colon the shifted key,
/// where that is asked for and Shift has changed the character; behind a
/// semicolon the modifiers, where one is held or text follows; and behind
/// another the text, where that is asked for.
pub proof fn reports_in_full(mode: Mode, event: KeyModel, c: char, code: u32)
    requires
        event.key == Key::Char(c),
        !event.mods.has_alt_gr(),
        mode.kitty_flags & 8 != 0 || (mode.kitty_flags & 1 != 0 && (event.mods.has_ctrl()
            || event.mods.has_alt())),
    ensures
        press_bytes(mode, event, code) == seq![0x1bu8, 0x5bu8] + text::decimal_bytes(code as nat)
            + (if mode.kitty_flags & 4 != 0 && event.mods.has_shift() && event.committed().len() > 0
            && event.committed()[0] as u32 != code {
            seq![0x3au8] + text::decimal_bytes(event.committed()[0] as nat)
        } else {
            Seq::empty()
        }) + (if is_held(event.mods) || (mode.kitty_flags & 16 != 0 && event.committed().len()
            > 0) {
            seq![0x3bu8, modifier_digit(event.mods)]
        } else {
            Seq::empty()
        }) + reported_text(mode, event) + seq![0x75u8],
{
    assert(0u8 & 8 == 0 && 0u8 & 1 == 0) by (bit_vector);
    lemma_modifier_digit(event.mods);
    if event.committed().len() > 0 {
        text::lemma_char(event.committed()[0]);
    }
    assert(press_bytes(mode, event, code) =~= seq![0x1bu8, 0x5bu8] + text::decimal_bytes(
        code as nat,
    ) + (if mode.kitty_flags & 4 != 0 && event.mods.has_shift() && event.committed().len() > 0
        && event.committed()[0] as u32 != code {
        seq![0x3au8] + text::decimal_bytes(event.committed()[0] as nat)
    } else {
        Seq::empty()
    }) + (if is_held(event.mods) || (mode.kitty_flags & 16 != 0 && event.committed().len() > 0) {
        seq![0x3bu8, modifier_digit(event.mods)]
    } else {
        Seq::empty()
    }) + reported_text(mode, event) + seq![0x75u8]);
}

/// Where all keys are reported, Enter, Tab, Backspace and Escape are too, even
/// without modifiers: `CSI <code> u`.
pub proof fn plain_special_keys_are_reported(mode: Mode, event: KeyModel, code: u32)
    requires
        mode.kitty_flags & 8 != 0,
        !event.mods.has_alt_gr(),
        !is_held(event.mods),
        special_digits(event.key) is Some,
        event.committed().len() == 0,
    ensures
        press_bytes(mode, event, code) == seq![0x1bu8, 0x5bu8] + special_digits(event.key)->0
            + seq![0x75u8],
{
    assert(0u8 & 8 == 0) by (bit_vector);
    lemma_special_digits(event.key);
    lemma_modifier_digit(event.mods);
    assert(press_bytes(mode, event, code) =~= seq![0x1bu8, 0x5bu8] + special_digits(event.key)->0
        + seq![0x75u8]);
}

} // verus!

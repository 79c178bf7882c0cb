//! Copy and paste: the key chords, and the text format of the system
//! clipboard.
use vstd::prelude::*;
use vstd::slice::slice_subrange;

use crate::shell::utf16::{self, encode_utf16, utf16_to_string};

verus! {

/// A copy or paste chord.
#[derive(Debug, Clone, Copy, PartialEq, Eq, Structural)]
pub enum CopyPasteKey {
    /// Control, Shift and C.
    Copy,
    /// Control, Shift and V.
    Paste,
}

/// Virtual-key code of C.
pub const VK_C: u32 = 0x43;

/// Virtual-key code of V.
pub const VK_V: u32 = 0x56;

/// The chord that a key press is, if it is one. Control alone belongs to the
/// program, so Control and Shift are both needed, and Alt must not be held.
pub fn detect_copy_paste(vk: u32, ctrl: bool, shift: bool, alt: bool) -> (r: Option<CopyPasteKey>)
    ensures
        r == Some(CopyPasteKey::Copy) <==> ctrl && shift && !alt && vk == VK_C,
        r == Some(CopyPasteKey::Paste) <==> ctrl && shift && !alt && vk == VK_V,
        r == Some(CopyPasteKey::Copy) <==> ctrl && shift && !alt && vk == 0x43,
        r == Some(CopyPasteKey::Paste) <==> ctrl && shift && !alt && vk == 0x56,
{
    if !ctrl || !shift || alt {
        return None;
    }
    if vk == VK_C {
        Some(CopyPasteKey::Copy)
    } else if vk == VK_V {
        Some(CopyPasteKey::Paste)
    } else {
        None
    }
}

/// A text as the clipboard holds it: UTF-16 with a terminating zero.
pub open spec fn clipboard_form(s: Seq<char>) -> Seq<u16> {
    utf16::utf16_units(s).push(0)
}

/// The position of the first zero, or the length.
pub open spec fn zero_position(units: Seq<u16>) -> int
    decreases units.len(),
{
    if units.len() == 0 || units[0] == 0 {
        0
    } else {
        1 + zero_position(units.skip(1))
    }
}

/// The text that the clipboard holds: what stands before the first zero.
pub open spec fn clipboard_text(units: Seq<u16>) -> Seq<char> {
    utf16::utf16_text(units.take(zero_position(units)))
}

/// The units to place on the clipboard for a text.
pub fn clipboard_units(s: &str) -> (r: Vec<u16>)
    ensures
        r@ == clipboard_form(s@),
{
    let mut units = encode_utf16(s);
    units.push(0);
    units
}

proof fn lemma_zero_position(units: Seq<u16>, at: int)
    requires
        0 <= at <= units.len(),
        forall|i: int| 0 <= i < at ==> #[trigger] units[i] != 0,
        at < units.len() ==> units[at] == 0,
    ensures
        zero_position(units) == at,
    decreases units.len(),
{
    if at > 0 {
        assert(units[0] != 0);
        let rest = units.skip(1);
        assert forall|i: int| 0 <= i < at - 1 implies #[trigger] rest[i] != 0 by {
            assert(rest[i] == units[i + 1]);
        }
        lemma_zero_position(rest, at - 1);
    }
}

/// The text of units taken from the clipboard.
pub fn text_from_clipboard(units: &[u16]) -> (r: String)
    ensures
        r@ == clipboard_text(units@),
{
    let mut n: usize = 0;
    while n < units.len() && units[n] != 0
        invariant
            n <= units@.len(),
            forall|i: int| 0 <= i < n ==> #[trigger] units@[i] != 0,
        decreases units.len() - n,
    {
        n += 1;
    }
    proof {
        lemma_zero_position(units@, n as int);
    }
    let text = slice_subrange(units, 0, n);
    assert(text@ =~= units@.take(n as int));
    utf16_to_string(text)
}

proof fn lemma_not_nul(c: char)
    requires
        c != '\0',
    ensures
        0 < c as int <= 0x10ffff,
{
}

proof fn lemma_units_nonzero(s: Seq<char>)
    requires
        forall|i: int| 0 <= i < s.len() ==> #[trigger] s[i] != '\0',
    ensures
        forall|i: int|
            0 <= i < utf16::utf16_units(s).len() ==> #[trigger] utf16::utf16_units(s)[i] != 0,
    decreases s.len(),
{
    if s.len() > 0 {
        let head = s.drop_last();
        assert forall|i: int| 0 <= i < head.len() implies #[trigger] head[i] != '\0' by {
            assert(head[i] == s[i]);
        }
        lemma_units_nonzero(head);
        let c = s.last();
        assert(s[s.len() - 1] != '\0');
        lemma_not_nul(c);
        let units = utf16::utf16_units(s);
        let first = utf16::utf16_units(head);
        assert forall|i: int| 0 <= i < units.len() implies #[trigger] units[i] != 0 by {
            if i < first.len() {
                assert(units[i] == first[i]);
            } else {
                assert(units[i] == utf16::char_units(c)[i - first.len()]);
            }
        }
    }
}

/// Copying is lossless: text without zeros comes back from the clipboard as it
/// was placed there.
pub proof fn clipboard_round_trip(s: Seq<char>)
    requires
        forall|i: int| 0 <= i < s.len() ==> #[trigger] s[i] != '\0',
    ensures
        clipboard_text(clipboard_form(s)) == s,
{
    let units = utf16::utf16_units(s);
    let form = clipboard_form(s);
    lemma_units_nonzero(s);
    assert forall|i: int| 0 <= i < units.len() implies #[trigger] form[i] != 0 by {
        assert(form[i] == units[i]);
    }
    lemma_zero_position(form, units.len() as int);
    assert(form.take(units.len() as int) =~= units);
    utf16::utf16_round_trip(s);
}


/// What stands behind the first zero is no part of the text.
pub proof fn text_ends_at_the_first_zero(s: Seq<char>, behind: Seq<u16>)
    requires
        forall|i: int| 0 <= i < s.len() ==> #[trigger] s[i] != '\0',
    ensures
        clipboard_text(utf16::utf16_units(s) + seq![0u16] + behind) == s,
        clipboard_text(utf16::utf16_units(s)) == s,
        clipboard_form(s).last() == 0,
{
    let units = utf16::utf16_units(s);
    let n = units.len() as int;
    let all = units + seq![0u16] + behind;
    lemma_units_nonzero(s);
    assert forall|i: int| 0 <= i < n implies #[trigger] all[i] != 0 by {
        assert(all[i] == units[i]);
    }
    assert(all[n] == 0);
    lemma_zero_position(all, n);
    lemma_zero_position(units, n);
    assert(all.take(n) =~= units);
    assert(units.take(n) =~= units);
    utf16::utf16_round_trip(s);
}

} // verus!

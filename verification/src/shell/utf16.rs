//! UTF-16 text, as the window system and its clipboard hold it.
use vstd::prelude::*;

use crate::text;

verus! {

/// Whether a unit is half of a surrogate pair.
pub open spec fn is_surrogate(u: u16) -> bool {
    0xd800 <= u <= 0xdfff
}

/// Whether two units are a surrogate pair.
pub open spec fn is_pair(high: u16, low: u16) -> bool {
    0xd800 <= high <= 0xdbff && 0xdc00 <= low <= 0xdfff
}

/// The code point of a surrogate pair.
pub open spec fn pair_value(high: u16, low: u16) -> u32 {
    (0x10000 + (high - 0xd800) * 0x400 + (low - 0xdc00)) as u32
}

/// The text that units spell. A surrogate without its other half reads as the
/// replacement character.
pub open spec fn utf16_text(units: Seq<u16>) -> Seq<char>
    decreases units.len(),
{
    if units.len() == 0 {
        Seq::empty()
    } else if !is_surrogate(units[0]) {
        seq![units[0] as char] + utf16_text(units.skip(1))
    } else if units.len() > 1 && is_pair(units[0], units[1]) {
        seq![pair_value(units[0], units[1]) as char] + utf16_text(units.skip(2))
    } else {
        seq!['\u{fffd}'] + utf16_text(units.skip(1))
    }
}

/// The units of one character.
pub open spec fn char_units(c: char) -> Seq<u16> {
    let v = c as int;
    if v < 0x10000 {
        seq![v as u16]
    } else {
        seq![(0xd800 + (v - 0x10000) / 0x400) as u16, (0xdc00 + (v - 0x10000) % 0x400) as u16]
    }
}

/// The units of a text.
pub open spec fn utf16_units(s: Seq<char>) -> Seq<u16>
    decreases s.len(),
{
    if s.len() == 0 {
        Seq::empty()
    } else {
        utf16_units(s.drop_last()) + char_units(s.last())
    }
}

/// The text that units spell, with replacement characters for lone
/// surrogates.
pub fn utf16_to_string(units: &[u16]) -> (r: String)
    ensures
        r@ == utf16_text(units@),
{
    let mut s = String::new();
    let mut i: usize = 0;
    assert(units@.skip(0) =~= units@);
    while i < units.len()
        invariant
            i <= units@.len(),
            s@ + utf16_text(units@.skip(i as int)) == utf16_text(units@),
        decreases units.len() - i,
    {
        let ghost rest = units@.skip(i as int);
        let ghost before = s@;
        let u = units[i];
        let mut step: usize = 1;
        let mut value: u32 = 0xfffd;
        if u < 0xd800 || u > 0xdfff {
            value = u as u32;
        } else if u <= 0xdbff && i + 1 < units.len() && 0xdc00 <= units[i + 1] && units[i + 1]
            <= 0xdfff {
            value = 0x10000 + (u as u32 - 0xd800) * 0x400 + (units[i + 1] as u32 - 0xdc00);
            step = 2;
        }
        let c = char::from_u32(value).unwrap();
        s.push(c);
        proof {
            assert(rest.skip(step as int) =~= units@.skip(i + step));
            assert(utf16_text(rest) == seq![c] + utf16_text(rest.skip(step as int)));
            assert(s@ + utf16_text(units@.skip(i + step)) =~= before + utf16_text(rest));
        }
        i += step;
    }
    assert(units@.skip(i as int) =~= Seq::<u16>::empty());
    assert(s@ =~= s@ + utf16_text(units@.skip(i as int)));
    s
}

/// The units of a text.
pub fn encode_utf16(s: &str) -> (r: Vec<u16>)
    ensures
        r@ == utf16_units(s@),
{
    let mut out: Vec<u16> = Vec::new();
    let ghost all = s@;
    assert(all.take(0) =~= Seq::<char>::empty());
    for c in it: s.chars()
        invariant
            it.seq() == all,
            out@ == utf16_units(all.take(it.index() as int)),
    {
        proof {
            text::lemma_char(c);
            assert(all.take(it.index() + 1).drop_last() =~= all.take(it.index() as int));
            assert(all.take(it.index() + 1).last() == c);
        }
        let ghost before = out@;
        let v: u32 = c as u32;
        if v < 0x10000 {
            out.push(v as u16);
        } else {
            out.push((0xd800 + (v - 0x10000) / 0x400) as u16);
            out.push((0xdc00 + (v - 0x10000) % 0x400) as u16);
        }
        assert(out@ =~= before + char_units(c));
    }
    assert(all.take(all.len() as int) =~= all);
    out
}

proof fn lemma_units_first(s: Seq<char>)
    requires
        s.len() > 0,
    ensures
        utf16_units(s) == char_units(s[0]) + utf16_units(s.drop_first()),
    decreases s.len(),
{
    if s.len() == 1 {
        assert(s.drop_last() =~= Seq::<char>::empty());
        assert(s.drop_first() =~= Seq::<char>::empty());
        assert(utf16_units(Seq::<char>::empty()) =~= Seq::<u16>::empty());
        assert(utf16_units(s) =~= Seq::<u16>::empty() + char_units(s[0]));
        assert(char_units(s[0]) + utf16_units(s.drop_first()) =~= char_units(s[0]));
    } else {
        lemma_units_first(s.drop_last());
        assert(s.drop_last().drop_first() =~= s.drop_first().drop_last());
        assert(utf16_units(s) =~= char_units(s[0]) + utf16_units(s.drop_first()));
    }
}

/// Text survives the way through UTF-16 unchanged.
pub proof fn utf16_round_trip(s: Seq<char>)
    ensures
        utf16_text(utf16_units(s)) == s,
    decreases s.len(),
{
    if s.len() == 0 {
        assert(utf16_text(utf16_units(s)) =~= s);
    } else {
        let c = s[0];
        let rest = s.drop_first();
        let units = utf16_units(s);
        lemma_units_first(s);
        utf16_round_trip(rest);
        text::lemma_char(c);
        lemma_char_ranges(c);
        let v = c as int;
        let n = char_units(c).len() as int;
        assert(units.skip(n) =~= utf16_units(rest));
        if v < 0x10000 {
            assert(units[0] == v as u16);
            assert(units[0] as char == c);
        } else {
            let high = (0xd800 + (v - 0x10000) / 0x400) as u16;
            let low = (0xdc00 + (v - 0x10000) % 0x400) as u16;
            assert(units[0] == high && units[1] == low);
            assert(is_pair(high, low));
            assert(pair_value(high, low) == v);
        }
        assert(s =~= seq![c] + rest);
    }
}

proof fn lemma_char_ranges(c: char)
    ensures
        !(0xd800 <= c as int <= 0xdfff),
        (c as u32) as char == c,
{
}

/// The number of units of a text.
pub open spec fn utf16_len(s: Seq<char>) -> nat {
    utf16_units(s).len()
}

/// The character position at a unit offset: the first one with at least that
/// many units before it, or the end.
pub open spec fn char_position(s: Seq<char>, units: int, from: int) -> int
    decreases s.len() - from,
{
    if from >= s.len() || utf16_len(s.take(from)) >= units {
        from
    } else {
        char_position(s, units, from + 1)
    }
}

/// The caret of a composition as a character position. It is given in UTF-16
/// units; a negative number stands for the end of the text.
pub fn caret_chars(units: i32, comp_text: &str) -> (r: usize)
    ensures
        r as int == (if units < 0 {
            comp_text@.len() as int
        } else {
            char_position(comp_text@, units as int, 0)
        }),
        r <= comp_text@.len(),
{
    let chars = text::chars_of(comp_text);
    if units < 0 {
        return chars.len();
    }
    let wanted = units as u64;
    let mut seen: u64 = 0;
    let mut i: usize = 0;
    let ghost all = comp_text@;
    assert(all.take(0) =~= Seq::<char>::empty());
    while i < chars.len() && seen < wanted
        invariant
            i <= chars.len(),
            chars@ == all,
            wanted == units,
            seen == utf16_len(all.take(i as int)),
            seen < wanted + 2,
            char_position(all, units as int, i as int) == char_position(all, units as int, 0),
        decreases chars.len() - i,
    {
        let c = chars[i];
        proof {
            text::lemma_char(c);
            assert(all.take(i + 1).drop_last() =~= all.take(i as int));
            assert(all.take(i + 1).last() == c);
        }
        seen = seen + (if c as u32 >= 0x10000 {
            2
        } else {
            1
        });
        i += 1;
    }
    i
}

/// A character below 0x10000 is one unit of its own number. Any other is a
/// high and a low surrogate, which hold the upper and the lower ten bits of
/// what it exceeds 0x10000 by.
pub proof fn characters_are_one_or_two_units(c: char)
    ensures
        (c as int) < 0x10000 ==> char_units(c).len() == 1 && char_units(c)[0] == c as int,
        (c as int) >= 0x10000 ==> {
            &&& char_units(c).len() == 2
            &&& 0xd800 <= char_units(c)[0] <= 0xdbff
            &&& 0xdc00 <= char_units(c)[1] <= 0xdfff
            &&& 0x10000 + (char_units(c)[0] - 0xd800) * 0x400 + (char_units(c)[1] - 0xdc00)
                == c as int
        },
        utf16_units(seq![c]) == char_units(c),
{
    text::lemma_char(c);
    reveal_with_fuel(utf16_units, 2);
    assert(seq![c].drop_last() =~= Seq::<char>::empty());
    assert(utf16_units(seq![c]) =~= char_units(c));
}

/// The units of two texts are those of the one followed by those of the other.
pub proof fn units_are_joined(a: Seq<char>, b: Seq<char>)
    ensures
        utf16_units(a + b) == utf16_units(a) + utf16_units(b),
    decreases b.len(),
{
    if b.len() == 0 {
        assert(a + b =~= a);
        assert(utf16_units(a) + utf16_units(b) =~= utf16_units(a));
    } else {
        units_are_joined(a, b.drop_last());
        assert((a + b).drop_last() =~= a + b.drop_last());
        assert(utf16_units(a + b) =~= utf16_units(a) + utf16_units(b));
    }
}

/// What units spell is read one character at a time: a text at their start
/// reads as itself, whatever follows it. A surrogate alone reads as the
/// replacement character.
pub proof fn units_are_read_in_order(s: Seq<char>, rest: Seq<u16>, u: u16)
    requires
        0xd800 <= u <= 0xdfff,
    ensures
        utf16_text(utf16_units(s) + rest) == s + utf16_text(rest),
        utf16_text(seq![u]) == seq!['\u{fffd}'],
    decreases s.len(),
{
    reveal_with_fuel(utf16_text, 2);
    assert(seq![u].skip(1) =~= Seq::<u16>::empty());
    assert(utf16_text(seq![u]) =~= seq!['\u{fffd}']);
    if s.len() == 0 {
        assert(utf16_units(s) + rest =~= rest);
        assert(s + utf16_text(rest) =~= utf16_text(rest));
    } else {
        let c = s[0];
        let tail = s.drop_first();
        lemma_units_first(s);
        units_are_read_in_order(tail, rest, u);
        text::lemma_char(c);
        lemma_char_ranges(c);
        characters_are_one_or_two_units(c);
        let units = utf16_units(s) + rest;
        let n = char_units(c).len() as int;
        assert(units.skip(n) =~= utf16_units(tail) + rest);
        assert(units[0] == char_units(c)[0]);
        if (c as int) < 0x10000 {
            assert(units[0] as char == c);
        } else {
            assert(units[1] == char_units(c)[1]);
            assert(is_pair(units[0], units[1]));
            assert(pair_value(units[0], units[1]) == c as int);
        }
        assert(s + utf16_text(rest) =~= seq![c] + (tail + utf16_text(rest)));
    }
}

proof fn lemma_prefix_grows(s: Seq<char>, j: int, k: int)
    requires
        0 <= j < k <= s.len(),
    ensures
        utf16_len(s.take(j)) < utf16_len(s.take(k)),
    decreases k - j,
{
    assert(s.take(k).drop_last() =~= s.take(k - 1));
    if j < k - 1 {
        lemma_prefix_grows(s, j, k - 1);
    }
}

proof fn lemma_caret(s: Seq<char>, k: int, from: int)
    requires
        0 <= from <= k <= s.len(),
    ensures
        char_position(s, utf16_len(s.take(k)) as int, from) == k,
    decreases k - from,
{
    if from < k {
        lemma_prefix_grows(s, from, k);
        lemma_caret(s, k, from + 1);
    }
}

/// A caret that stands behind the units of the first `k` characters stands
/// behind `k` characters.
pub proof fn carets_count_characters(s: Seq<char>, k: int)
    requires
        0 <= k <= s.len(),
    ensures
        char_position(s, utf16_len(s.take(k)) as int, 0) == k,
        char_position(s, 0, 0) == 0,
{
    lemma_caret(s, k, 0);
}

} // verus!

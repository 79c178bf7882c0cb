//! Characters, strings and decimal numbers.
//!
//! Strings are reasoned about as sequences of characters. The helpers here
//! build, compare and trim them; their contracts are stated over `Seq<char>`.
use vstd::prelude::*;
use vstd::utf8::*;

verus! {

/// `String::push` appends one character.
pub assume_specification[ String::push ](s: &mut String, c: char)
    ensures
        final(s)@ == old(s)@.push(c),
;

/// `char::from_u32` gives the character with a code point; none exists for a
/// surrogate or for a value past the last code point.
pub assume_specification[ char::from_u32 ](v: u32) -> (r: Option<char>)
    ensures
        r == (if is_scalar(v) {
            Some(v as char)
        } else {
            None
        }),
;

/// A character is a code point, and a cast to `u32` keeps it.
pub proof fn lemma_char(c: char)
    ensures
        0 <= c as int <= 0x10ffff,
        (c as u32) as int == c as int,
{
}

/// The decimal digit for `d`.
pub open spec fn digit(d: nat) -> char {
    ((48 + d) as u8) as char
}

/// The decimal notation of `n`, without leading zeros.
pub open spec fn decimal(n: nat) -> Seq<char>
    decreases n,
{
    if n < 10 {
        seq![digit(n)]
    } else {
        decimal(n / 10).push(digit(n % 10))
    }
}

/// The decimal notation of `n` as ASCII bytes.
pub open spec fn decimal_bytes(n: nat) -> Seq<u8>
    decreases n,
{
    if n < 10 {
        seq![(48 + n) as u8]
    } else {
        decimal_bytes(n / 10).push((48 + n % 10) as u8)
    }
}

/// Appends the decimal notation of `n`.
pub fn push_decimal(s: &mut String, n: u64)
    ensures
        final(s)@ == old(s)@ + decimal(n as nat),
    decreases n,
{
    if n >= 10 {
        push_decimal(s, n / 10);
    }
    let d: u8 = 48 + (n % 10) as u8;
    s.push(d as char);
}

/// Appends the decimal notation of `n` as ASCII bytes.
pub fn push_decimal_bytes(out: &mut Vec<u8>, n: u32)
    ensures
        final(out)@ == old(out)@ + decimal_bytes(n as nat),
    decreases n,
{
    if n >= 10 {
        push_decimal_bytes(out, n / 10);
    }
    let d: u8 = 48 + (n % 10) as u8;
    out.push(d);
}

/// The characters of `s`, in order.
pub fn chars_of(s: &str) -> (r: Vec<char>)
    ensures
        r@ == s@,
{
    let mut out: Vec<char> = Vec::new();
    for c in it: s.chars()
        invariant
            it.seq() == s@,
            out@ == s@.take(it.index() as int),
    {
        out.push(c);
    }
    assert(s@.take(s@.len() as int) == s@);
    out
}

/// The string made of `chars[from..to]`.
pub fn string_of(chars: &Vec<char>, from: usize, to: usize) -> (r: String)
    requires
        from <= to <= chars.len(),
    ensures
        r@ == chars@.subrange(from as int, to as int),
{
    let mut s = String::new();
    let mut i: usize = from;
    while i < to
        invariant
            from <= i <= to <= chars.len(),
            s@ == chars@.subrange(from as int, i as int),
        decreases to - i,
    {
        s.push(chars[i]);
        i += 1;
    }
    s
}

/// `a` followed by `b`.
pub fn join2(a: &str, b: &str) -> (r: String)
    ensures
        r@ == a@ + b@,
{
    let mut s = a.to_owned();
    s.append(b);
    s
}

/// `a`, `b` and `c`, one after another.
pub fn join3(a: &str, b: &str, c: &str) -> (r: String)
    ensures
        r@ == a@ + b@ + c@,
{
    let mut s = join2(a, b);
    s.append(c);
    s
}

/// Whether `c` has the Unicode property `White_Space`.
pub open spec fn white_space(c: char) -> bool {
    let v = c as u32;
    ||| 0x09 <= v <= 0x0d
    ||| v == 0x20
    ||| v == 0x85
    ||| v == 0xa0
    ||| v == 0x1680
    ||| 0x2000 <= v <= 0x200a
    ||| v == 0x2028
    ||| v == 0x2029
    ||| v == 0x202f
    ||| v == 0x205f
    ||| v == 0x3000
}

/// Tests for the Unicode property `White_Space`.
pub fn is_white_space(c: char) -> (r: bool)
    ensures
        r == white_space(c),
{
    let v: u32 = c as u32;
    (0x09 <= v && v <= 0x0d) || v == 0x20 || v == 0x85 || v == 0xa0 || v == 0x1680 || (0x2000 <= v
        && v <= 0x200a) || v == 0x2028 || v == 0x2029 || v == 0x202f || v == 0x205f || v == 0x3000
}

/// `s` without its leading white space.
pub open spec fn trimmed_start(s: Seq<char>) -> Seq<char>
    decreases s.len(),
{
    if s.len() > 0 && white_space(s[0]) {
        trimmed_start(s.drop_first())
    } else {
        s
    }
}

/// `s` without its trailing white space.
pub open spec fn trimmed_end(s: Seq<char>) -> Seq<char>
    decreases s.len(),
{
    if s.len() > 0 && white_space(s.last()) {
        trimmed_end(s.drop_last())
    } else {
        s
    }
}

/// `s` without leading and trailing white space.
pub open spec fn trimmed(s: Seq<char>) -> Seq<char> {
    trimmed_end(trimmed_start(s))
}

/// Where the text starts after the leading white space of `chars[from..to]`.
fn skip_white_space(chars: &Vec<char>, from: usize, to: usize) -> (r: usize)
    requires
        from <= to <= chars.len(),
    ensures
        from <= r <= to,
        chars@.subrange(r as int, to as int) == trimmed_start(
            chars@.subrange(from as int, to as int),
        ),
{
    let mut i: usize = from;
    while i < to && is_white_space(chars[i])
        invariant
            from <= i <= to <= chars.len(),
            trimmed_start(chars@.subrange(i as int, to as int)) == trimmed_start(
                chars@.subrange(from as int, to as int),
            ),
        decreases to - i,
    {
        assert(chars@.subrange(i as int, to as int).drop_first() == chars@.subrange(
            i + 1,
            to as int,
        ));
        i += 1;
    }
    i
}

/// Where the text ends before the trailing white space of `chars[from..to]`.
fn drop_white_space(chars: &Vec<char>, from: usize, to: usize) -> (r: usize)
    requires
        from <= to <= chars.len(),
    ensures
        from <= r <= to,
        chars@.subrange(from as int, r as int) == trimmed_end(
            chars@.subrange(from as int, to as int),
        ),
{
    let mut i: usize = to;
    while i > from && is_white_space(chars[i - 1])
        invariant
            from <= i <= to <= chars.len(),
            trimmed_end(chars@.subrange(from as int, i as int)) == trimmed_end(
                chars@.subrange(from as int, to as int),
            ),
        decreases i,
    {
        assert(chars@.subrange(from as int, i as int).drop_last() == chars@.subrange(
            from as int,
            i - 1,
        ));
        i -= 1;
    }
    i
}

/// The trimmed text of `chars[from..to]`.
pub fn trim_range(chars: &Vec<char>, from: usize, to: usize) -> (r: String)
    requires
        from <= to <= chars.len(),
    ensures
        r@ == trimmed(chars@.subrange(from as int, to as int)),
{
    let start = skip_white_space(chars, from, to);
    let end = drop_white_space(chars, start, to);
    string_of(chars, start, end)
}

/// `s` without leading and trailing white space.
pub fn trim(s: &str) -> (r: String)
    ensures
        r@ == trimmed(s@),
{
    let chars = chars_of(s);
    assert(chars@.subrange(0, chars.len() as int) == s@);
    trim_range(&chars, 0, chars.len())
}

/// `s` without trailing white space.
pub fn trim_end(s: &str) -> (r: String)
    ensures
        r@ == trimmed_end(s@),
{
    let chars = chars_of(s);
    assert(chars@.subrange(0, chars.len() as int) == s@);
    let end = drop_white_space(&chars, 0, chars.len());
    string_of(&chars, 0, end)
}

/// The ASCII lower-case form of `c`; other characters stay as they are.
pub open spec fn ascii_lower(c: char) -> char {
    if 'A' <= c <= 'Z' {
        ((c as u8 + 32) as u8) as char
    } else {
        c
    }
}

/// The ASCII lower-case form of every character of `s`.
pub open spec fn ascii_lowered(s: Seq<char>) -> Seq<char> {
    s.map_values(|c: char| ascii_lower(c))
}

/// The ASCII lower-case form of `c`.
pub fn to_ascii_lower(c: char) -> (r: char)
    ensures
        r == ascii_lower(c),
{
    if 'A' <= c && c <= 'Z' {
        (c as u8 + 32) as char
    } else {
        c
    }
}

/// `s` with its ASCII letters in lower case.
pub fn to_ascii_lowered(s: &str) -> (r: String)
    ensures
        r@ == ascii_lowered(s@),
{
    let mut out = String::new();
    for c in it: s.chars()
        invariant
            it.seq() == s@,
            out@ == ascii_lowered(s@.take(it.index() as int)),
    {
        out.push(to_ascii_lower(c));
        assert(s@.take(it.index() + 1) == s@.take(it.index() as int).push(c));
    }
    assert(s@.take(s@.len() as int) == s@);
    out
}

/// Whether two strings hold the same characters.
pub fn same(a: &str, b: &str) -> (r: bool)
    ensures
        r == (a@ == b@),
{
    broadcast use encode_utf8_decode_utf8;

    let x = a.as_bytes();
    let y = b.as_bytes();
    assert(decode_utf8(x@) == a@);
    assert(decode_utf8(y@) == b@);
    if x.len() != y.len() {
        return false;
    }
    let mut i: usize = 0;
    while i < x.len()
        invariant
            x@.len() == y@.len(),
            i <= x@.len(),
            x@.take(i as int) == y@.take(i as int),
            decode_utf8(x@) == a@,
            decode_utf8(y@) == b@,
            x@ == encode_utf8(a@),
            y@ == encode_utf8(b@),
        decreases x.len() - i,
    {
        if x[i] != y[i] {
            return false;
        }
        assert(x@.take(i + 1) == x@.take(i as int).push(x@[i as int]));
        assert(y@.take(i + 1) == y@.take(i as int).push(y@[i as int]));
        i += 1;
    }
    assert(x@.take(i as int) == x@);
    assert(y@.take(i as int) == y@);
    true
}

/// Lexicographic order of character sequences.
pub open spec fn text_before(a: Seq<char>, b: Seq<char>) -> bool
    decreases a.len(),
{
    if b.len() == 0 {
        false
    } else if a.len() == 0 {
        true
    } else if a[0] == b[0] {
        text_before(a.drop_first(), b.drop_first())
    } else {
        a[0] < b[0]
    }
}

/// The lexicographic order is a strict total order.
pub proof fn text_order(a: Seq<char>, b: Seq<char>, c: Seq<char>)
    ensures
        !text_before(a, a),
        text_before(a, b) && text_before(b, c) ==> text_before(a, c),
        text_before(a, b) || a == b || text_before(b, a),
    decreases a.len() + b.len() + c.len(),
{
    if a.len() > 0 && b.len() > 0 {
        if c.len() > 0 {
            text_order(a.drop_first(), b.drop_first(), c.drop_first());
        } else {
            text_order(a.drop_first(), b.drop_first(), c);
        }
        assert(a =~= seq![a[0]] + a.drop_first());
        assert(b =~= seq![b[0]] + b.drop_first());
    } else if a.len() > 0 {
        text_order(a.drop_first(), b, c);
    } else if b.len() == 0 {
        assert(a =~= b);
    }
}

/// Whether `a` comes before `b` in lexicographic order.
pub fn text_precedes(a: &str, b: &str) -> (r: bool)
    ensures
        r == text_before(a@, b@),
{
    let x = chars_of(a);
    let y = chars_of(b);
    let mut i: usize = 0;
    assert(x@.skip(0) == x@);
    assert(y@.skip(0) == y@);
    while i < x.len() && i < y.len() && x[i] == y[i]
        invariant
            i <= x@.len(),
            i <= y@.len(),
            text_before(x@.skip(i as int), y@.skip(i as int)) == text_before(x@, y@),
        decreases x.len() - i,
    {
        assert(x@.skip(i as int).drop_first() == x@.skip(i + 1));
        assert(y@.skip(i as int).drop_first() == y@.skip(i + 1));
        i += 1;
    }
    if i >= y.len() {
        false
    } else if i >= x.len() {
        true
    } else {
        x[i] < y[i]
    }
}

/// The contents of a list of byte strings.
pub open spec fn contents(list: Seq<Vec<u8>>) -> Seq<Seq<u8>> {
    list.map_values(|v: Vec<u8>| v@)
}

/// An ASCII byte occurs in the encoding of a text only where its character
/// occurs in the text.
pub proof fn lemma_ascii_byte_absent(s: Seq<char>, b: u8)
    requires
        b < 0x80,
        forall|i: int| 0 <= i < s.len() ==> (#[trigger] s[i]) as int != b,
    ensures
        forall|i: int| 0 <= i < encode_utf8(s).len() ==> #[trigger] encode_utf8(s)[i] != b,
    decreases s.len(),
{
    if s.len() > 0 {
        let first = s[0] as u32;
        let rest = s.drop_first();
        assert forall|i: int| 0 <= i < rest.len() implies (#[trigger] rest[i]) as int != b by {
            assert(rest[i] == s[i + 1]);
        }
        lemma_ascii_byte_absent(rest, b);
        lemma_char(s[0]);
        assert(first != b);
        assert(first <= 0x7f ==> (first & 0x7f) as u8 == first) by (bit_vector);
        assert(forall|v: u8| #[trigger] (0x80u8 | v) >= 0x80) by (bit_vector);
        assert(forall|v: u8| #[trigger] (0xc0u8 | v) >= 0x80) by (bit_vector);
        assert(forall|v: u8| #[trigger] (0xe0u8 | v) >= 0x80) by (bit_vector);
        assert(forall|v: u8| #[trigger] (0xf0u8 | v) >= 0x80) by (bit_vector);
        let head = encode_scalar(first);
        assert(encode_utf8(s) == head + encode_utf8(rest));
        assert forall|i: int| 0 <= i < head.len() implies #[trigger] head[i] != b by {}
    }
}

// ---- what the notations mean ------------------------------------------------------

/// The number that ASCII digits stand for.
pub open spec fn digits_value(s: Seq<u8>) -> int
    decreases s.len(),
{
    if s.len() == 0 {
        0
    } else {
        10 * digits_value(s.drop_last()) + (s.last() - 0x30)
    }
}

/// The decimal notation of a number reads back as that number. It is made of
/// ASCII digits and has no leading zero.
pub proof fn decimal_bytes_read_back(n: nat)
    ensures
        digits_value(decimal_bytes(n)) == n,
        decimal_bytes(n).len() > 0,
        n > 0 ==> decimal_bytes(n)[0] != 0x30,
        forall|i: int|
            0 <= i < decimal_bytes(n).len() ==> 0x30 <= #[trigger] decimal_bytes(n)[i] <= 0x39,
    decreases n,
{
    reveal_with_fuel(digits_value, 2);
    let s = decimal_bytes(n);
    if n >= 10 {
        decimal_bytes_read_back(n / 10);
        assert(s.drop_last() =~= decimal_bytes(n / 10));
        assert(s[0] == decimal_bytes(n / 10)[0]);
        assert forall|i: int| 0 <= i < s.len() implies 0x30 <= #[trigger] s[i] <= 0x39 by {
            if i < s.len() - 1 {
                assert(s[i] == decimal_bytes(n / 10)[i]);
            }
        }
    } else {
        assert(s.drop_last() =~= Seq::<u8>::empty());
    }
}

/// The notation in characters is the one in bytes.
pub proof fn decimal_is_its_bytes(n: nat)
    ensures
        decimal(n) == decimal_bytes(n).map_values(|b: u8| b as char),
    decreases n,
{
    if n >= 10 {
        decimal_is_its_bytes(n / 10);
    }
    assert(decimal(n) =~= decimal_bytes(n).map_values(|b: u8| b as char));
}

/// Trimming takes white space off both ends and nothing else: what is left is
/// a piece of the text that neither starts nor ends with white space, and all
/// that was around it is white space.
pub proof fn trimming_takes_white_space_alone(s: Seq<char>)
    ensures
        exists|a: int, b: int|
            {
                &&& 0 <= a <= b <= s.len()
                &&& trimmed(s) == #[trigger] s.subrange(a, b)
                &&& forall|i: int| 0 <= i < a || b <= i < s.len() ==> white_space(#[trigger] s[i])
            },
        trimmed(s).len() > 0 ==> !white_space(trimmed(s)[0]) && !white_space(trimmed(s).last()),
{
    let a = lemma_trimmed_start(s);
    let t = trimmed_start(s);
    let n = lemma_trimmed_end(t);
    let b = a + n;
    assert(trimmed(s) =~= s.subrange(a, b));
    assert forall|i: int| 0 <= i < a || b <= i < s.len() implies white_space(#[trigger] s[i]) by {
        if i >= b {
            assert(t[i - a] == s[i]);
        }
    }
    if trimmed(s).len() > 0 {
        assert(trimmed(s)[0] == t[0]);
    }
}

proof fn lemma_trimmed_start(s: Seq<char>) -> (a: int)
    ensures
        0 <= a <= s.len(),
        trimmed_start(s) == s.skip(a),
        forall|i: int| 0 <= i < a ==> white_space(#[trigger] s[i]),
        a < s.len() ==> !white_space(s[a]),
    decreases s.len(),
{
    if s.len() > 0 && white_space(s[0]) {
        let rest = s.drop_first();
        let a = lemma_trimmed_start(rest);
        assert(rest.skip(a) =~= s.skip(a + 1));
        assert forall|i: int| 0 <= i < a + 1 implies white_space(#[trigger] s[i]) by {
            if i > 0 {
                assert(rest[i - 1] == s[i]);
            }
        }
        if a < rest.len() {
            assert(rest[a] == s[a + 1]);
        }
        a + 1
    } else {
        assert(s.skip(0) =~= s);
        0
    }
}

proof fn lemma_trimmed_end(s: Seq<char>) -> (n: int)
    ensures
        0 <= n <= s.len(),
        trimmed_end(s) == s.take(n),
        forall|i: int| n <= i < s.len() ==> white_space(#[trigger] s[i]),
        n > 0 ==> !white_space(s[n - 1]),
    decreases s.len(),
{
    if s.len() > 0 && white_space(s.last()) {
        let front = s.drop_last();
        let n = lemma_trimmed_end(front);
        assert(front.take(n) =~= s.take(n));
        assert forall|i: int| n <= i < s.len() implies white_space(#[trigger] s[i]) by {
            if i < front.len() {
                assert(front[i] == s[i]);
            }
        }
        if n > 0 {
            assert(front[n - 1] == s[n - 1]);
        }
        n
    } else {
        assert(s.take(s.len() as int) =~= s);
        s.len() as int
    }
}

/// Trimming the end leaves a text that starts as it did and takes white space
/// alone.
pub proof fn end_trimming_takes_white_space_alone(s: Seq<char>)
    ensures
        trimmed_end(s).is_prefix_of(s),
        trimmed_end(s).len() > 0 ==> !white_space(trimmed_end(s).last()),
        forall|i: int| trimmed_end(s).len() <= i < s.len() ==> white_space(#[trigger] s[i]),
{
    let n = lemma_trimmed_end(s);
    assert(s.take(n) =~= s.subrange(0, n));
}

/// The order of texts is that of a dictionary by code points: after what two
/// texts have in common the lesser character decides, and a text comes before
/// any longer one that starts with it.
pub proof fn texts_are_ordered_as_in_a_dictionary(
    common: Seq<char>,
    a: Seq<char>,
    b: Seq<char>,
)
    ensures
        a.len() > 0 && b.len() > 0 && a[0] != b[0] ==> (text_before(common + a, common + b) <==> (
        a[0] as u32) < (b[0] as u32)),
        b.len() > 0 ==> text_before(common, common + b),
    decreases common.len(),
{
    if common.len() == 0 {
        assert(common + a =~= a);
        assert(common + b =~= b);
        if a.len() > 0 && b.len() > 0 {
            lemma_char(a[0]);
            lemma_char(b[0]);
        }
    } else {
        texts_are_ordered_as_in_a_dictionary(common.drop_first(), a, b);
        assert((common + a).drop_first() =~= common.drop_first() + a);
        assert((common + b).drop_first() =~= common.drop_first() + b);
    }
}

/// ASCII capitals become the small letters that are 32 higher; every other
/// character stays as it is.
pub proof fn only_ascii_capitals_are_lowered(c: char)
    ensures
        0x41 <= c as u32 <= 0x5a ==> ascii_lower(c) as u32 == c as u32 + 32,
        !(0x41 <= c as u32 <= 0x5a) ==> ascii_lower(c) == c,
{
    lemma_char(c);
}

/// Which characters are white space.
pub proof fn white_space_is_this(c: char)
    ensures
        (c as u32) < 0x80 ==> (white_space(c) <==> 9 <= c as u32 <= 13 || c as u32 == 32),
        (c as u32) >= 0x80 ==> (white_space(c) <==> seq![
            0x85u32,
            0xa0,
            0x1680,
            0x2000,
            0x2001,
            0x2002,
            0x2003,
            0x2004,
            0x2005,
            0x2006,
            0x2007,
            0x2008,
            0x2009,
            0x200a,
            0x2028,
            0x2029,
            0x202f,
            0x205f,
            0x3000,
        ].contains(c as u32)),
{
    let list = seq![
        0x85u32,
        0xa0,
        0x1680,
        0x2000,
        0x2001,
        0x2002,
        0x2003,
        0x2004,
        0x2005,
        0x2006,
        0x2007,
        0x2008,
        0x2009,
        0x200a,
        0x2028,
        0x2029,
        0x202f,
        0x205f,
        0x3000,
    ];
    assert(list[0] == 0x85 && list[1] == 0xa0 && list[2] == 0x1680 && list[3] == 0x2000 && list[4]
        == 0x2001 && list[5] == 0x2002 && list[6] == 0x2003 && list[7] == 0x2004 && list[8]
        == 0x2005 && list[9] == 0x2006 && list[10] == 0x2007 && list[11] == 0x2008 && list[12]
        == 0x2009 && list[13] == 0x200a && list[14] == 0x2028 && list[15] == 0x2029 && list[16]
        == 0x202f && list[17] == 0x205f && list[18] == 0x3000);
}

} // verus!

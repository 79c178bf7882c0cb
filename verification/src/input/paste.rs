//! The paste pipeline: bracketing, newline normalization and chunking.
//!
//! A bracketed paste is wrapped in `ESC[200~` and `ESC[201~`. The pasted text
//! must not be able to end the bracket early, so every end marker in it is
//! deleted first, those that come about by a deletion included. A plain paste
//! has its line ends turned into the carriage return that the Enter key sends.
//!
//! The payload is handed out in chunks. No chunk ends within a character, and
//! as long as the chunk size has room for a marker, none ends within a marker.
use vstd::prelude::*;
use vstd::slice::slice_to_vec;
use vstd::utf8::*;

use crate::text;

verus! {

/// The bytes that open a bracketed paste: `ESC [ 2 0 0 ~`.
pub open spec fn start_marker() -> Seq<u8> {
    seq![0x1bu8, 0x5bu8, 0x32u8, 0x30u8, 0x30u8, 0x7eu8]
}

/// The bytes that close a bracketed paste: `ESC [ 2 0 1 ~`.
pub open spec fn end_marker() -> Seq<u8> {
    seq![0x1bu8, 0x5bu8, 0x32u8, 0x30u8, 0x31u8, 0x7eu8]
}

/// Whether an end marker stands at position `i`.
pub open spec fn marker_at(s: Seq<u8>, i: int) -> bool {
    0 <= i && i + 6 <= s.len() && s.subrange(i, i + 6) == end_marker()
}

/// Whether there is no end marker anywhere.
pub open spec fn unmarked(s: Seq<u8>) -> bool {
    forall|i: int| !#[trigger] marker_at(s, i)
}

/// One more byte, without the end marker that it may complete.
pub open spec fn absorb(s: Seq<u8>, b: u8) -> Seq<u8> {
    let t = s.push(b);
    if marker_at(t, t.len() - 6) {
        t.take(t.len() - 6)
    } else {
        t
    }
}

/// The bytes without end markers: read from left to right, each marker is
/// dropped as soon as it is complete.
pub open spec fn sanitized(s: Seq<u8>) -> Seq<u8>
    decreases s.len(),
{
    if s.len() == 0 {
        Seq::empty()
    } else {
        absorb(sanitized(s.drop_last()), s.last())
    }
}

/// The text with CR LF and lone LF turned into CR.
pub open spec fn normalized(s: Seq<char>) -> Seq<char>
    decreases s.len(),
{
    if s.len() == 0 {
        Seq::empty()
    } else if s[0] == '\r' {
        if s.len() > 1 && s[1] == '\n' {
            seq!['\r'] + normalized(s.skip(2))
        } else {
            seq!['\r'] + normalized(s.skip(1))
        }
    } else if s[0] == '\n' {
        seq!['\r'] + normalized(s.skip(1))
    } else {
        seq![s[0]] + normalized(s.skip(1))
    }
}

/// The bytes that a paste sends.
pub open spec fn payload_of(pasted: Seq<char>, bracketed: bool) -> Seq<u8> {
    if bracketed {
        start_marker() + sanitized(encode_utf8(pasted)) + end_marker()
    } else {
        encode_utf8(normalized(pasted))
    }
}

/// Whether a chunk may end at position `p`: between two characters, and not
/// within the end marker where that is protected.
pub open spec fn may_cut(payload: Seq<u8>, protected: bool, p: int) -> bool {
    &&& 0 <= p <= payload.len()
    &&& is_char_boundary(payload, p)
    &&& !(protected && payload.len() - 6 < p < payload.len())
}

/// Whether `c` is where the chunk that starts at `cursor` ends: as far on as
/// the chunk size lets it, or at the next place at all where the chunk size is
/// too small for a single character.
pub open spec fn is_cut(
    payload: Seq<u8>,
    protected: bool,
    chunk_size: int,
    cursor: int,
    c: int,
) -> bool {
    &&& cursor < c
    &&& may_cut(payload, protected, c)
    &&& forall|p: int|
        cursor < p <= cursor + chunk_size && #[trigger] may_cut(payload, protected, p) ==> p <= c
    &&& c > cursor + chunk_size ==> forall|p: int|
        cursor < p < c ==> !#[trigger] may_cut(payload, protected, p)
}

/// A paste that is being handed out in chunks.
pub struct PastePlan {
    payload: Vec<u8>,
    cursor: usize,
    chunk_size: usize,
    protected: bool,
}

/// What a [`PastePlan`] holds.
#[verifier::ext_equal]
pub struct PlanModel {
    pub payload: Seq<u8>,
    pub cursor: int,
    pub chunk_size: int,
    pub protected: bool,
}

impl PlanModel {
    /// What has not been handed out yet.
    pub open spec fn remaining(self) -> Seq<u8> {
        self.payload.skip(self.cursor)
    }

    /// The payload is UTF-8, and the cursor stands where a chunk may start.
    pub open spec fn wf(self) -> bool {
        &&& valid_utf8(self.payload)
        &&& self.chunk_size >= 1
        &&& may_cut(self.payload, self.protected, self.cursor)
        &&& self.protected ==> self.chunk_size >= 6 && self.payload.len() >= 12 && marker_at(
            self.payload,
            self.payload.len() - 6,
        )
    }
}

// ---- sanitizing --------------------------------------------------------------

proof fn lemma_absorb_unmarked(s: Seq<u8>, b: u8)
    requires
        unmarked(s),
    ensures
        unmarked(absorb(s, b)),
{
    let t = s.push(b);
    let r = absorb(s, b);
    assert forall|i: int| !#[trigger] marker_at(r, i) by {
        if marker_at(r, i) {
            if i + 6 <= s.len() {
                assert(r.subrange(i, i + 6) =~= s.subrange(i, i + 6));
                assert(marker_at(s, i));
            } else {
                assert(r == t && i == t.len() - 6);
            }
        }
    }
}

/// Sanitized bytes hold no end marker.
pub proof fn sanitized_is_unmarked(s: Seq<u8>)
    ensures
        unmarked(sanitized(s)),
    decreases s.len(),
{
    if s.len() > 0 {
        sanitized_is_unmarked(s.drop_last());
        lemma_absorb_unmarked(sanitized(s.drop_last()), s.last());
    } else {
        assert forall|i: int| !#[trigger] marker_at(sanitized(s), i) by {}
    }
}

/// Bytes without an end marker are left as they are.
pub proof fn unmarked_is_kept(s: Seq<u8>)
    requires
        unmarked(s),
    ensures
        sanitized(s) == s,
    decreases s.len(),
{
    if s.len() > 0 {
        let t = s.drop_last();
        assert forall|i: int| !#[trigger] marker_at(t, i) by {
            if marker_at(t, i) {
                assert(t.subrange(i, i + 6) =~= s.subrange(i, i + 6));
                assert(marker_at(s, i));
            }
        }
        unmarked_is_kept(t);
        assert(t.push(s.last()) =~= s);
        assert(!marker_at(s, s.len() - 6));
    }
}

proof fn lemma_sanitized_push(s: Seq<u8>, b: u8)
    ensures
        sanitized(s.push(b)) == absorb(sanitized(s), b),
{
    assert(s.push(b).drop_last() =~= s);
}

proof fn lemma_absorb_plain(s: Seq<u8>, b: u8)
    requires
        b != 0x7e,
    ensures
        absorb(s, b) == s.push(b),
{
    let t = s.push(b);
    if marker_at(t, t.len() - 6) {
        assert(t.subrange(t.len() - 6, t.len() as int)[5] == t.last());
        assert(end_marker()[5] == 0x7e);
    }
}

proof fn lemma_sanitized_marker(s: Seq<u8>)
    ensures
        sanitized(s + end_marker()) == sanitized(s),
{
    let m = end_marker();
    let o = sanitized(s);
    let s1 = s.push(0x1b);
    let s2 = s1.push(0x5b);
    let s3 = s2.push(0x32);
    let s4 = s3.push(0x30);
    let s5 = s4.push(0x31);
    lemma_sanitized_push(s, 0x1b);
    lemma_absorb_plain(o, 0x1b);
    lemma_sanitized_push(s1, 0x5b);
    lemma_absorb_plain(o.push(0x1b), 0x5b);
    lemma_sanitized_push(s2, 0x32);
    lemma_absorb_plain(o.push(0x1b).push(0x5b), 0x32);
    lemma_sanitized_push(s3, 0x30);
    lemma_absorb_plain(o.push(0x1b).push(0x5b).push(0x32), 0x30);
    lemma_sanitized_push(s4, 0x31);
    lemma_absorb_plain(o.push(0x1b).push(0x5b).push(0x32).push(0x30), 0x31);
    lemma_sanitized_push(s5, 0x7e);
    let t = sanitized(s5).push(0x7e);
    assert(t =~= o + m);
    assert(t.subrange(t.len() - 6, t.len() as int) =~= m);
    assert(t.take(t.len() - 6) =~= o);
    assert(s5.push(0x7e) =~= s + m);
}

/// Deleting an end marker, wherever it stands, does not change the sanitized
/// bytes: what is left is what repeated deletion leaves.
pub proof fn deletion_changes_nothing(a: Seq<u8>, b: Seq<u8>)
    ensures
        sanitized(a + end_marker() + b) == sanitized(a + b),
    decreases b.len(),
{
    if b.len() == 0 {
        assert(a + end_marker() + b =~= a + end_marker());
        assert(a + b =~= a);
        lemma_sanitized_marker(a);
    } else {
        deletion_changes_nothing(a, b.drop_last());
        assert((a + end_marker() + b).drop_last() =~= a + end_marker() + b.drop_last());
        assert((a + b).drop_last() =~= a + b.drop_last());
    }
}

proof fn lemma_ascii_head(s: Seq<u8>)
    requires
        valid_utf8(s),
        s.len() > 0,
        s[0] < 0x80,
    ensures
        valid_utf8(s.skip(1)),
{
    assert(pop_first_scalar(s) =~= s.skip(1));
}

proof fn lemma_marker_head(s: Seq<u8>)
    requires
        valid_utf8(s),
        marker_at(s, 0),
    ensures
        valid_utf8(s.skip(6)),
{
    let head = s.subrange(0, 6);
    assert(head[0] == 0x1b && head[1] == 0x5b && head[2] == 0x32 && head[3] == 0x30 && head[4]
        == 0x31 && head[5] == 0x7e);
    let s1 = s.skip(1);
    lemma_ascii_head(s);
    let s2 = s1.skip(1);
    assert(s1[0] == head[1]);
    lemma_ascii_head(s1);
    let s3 = s2.skip(1);
    assert(s2[0] == head[2]);
    lemma_ascii_head(s2);
    let s4 = s3.skip(1);
    assert(s3[0] == head[3]);
    lemma_ascii_head(s3);
    let s5 = s4.skip(1);
    assert(s4[0] == head[4]);
    lemma_ascii_head(s4);
    assert(s5[0] == head[5]);
    lemma_ascii_head(s5);
    assert(s5.skip(1) =~= s.skip(6));
}

/// A prefix that ends right before a marker is UTF-8 where the whole is.
proof fn lemma_before_marker(s: Seq<u8>, i: int)
    requires
        valid_utf8(s),
        marker_at(s, i),
    ensures
        valid_utf8(s.take(i)),
        valid_utf8(s.skip(i + 6)),
{
    assert(s[i] == s.subrange(i, i + 6)[0]);
    is_char_boundary_iff_not_is_continuation_byte(s, i);
    valid_utf8_split(s, i);
    assert(s.take(i) =~= s.subrange(0, i));
    let tail = s.subrange(i, s.len() as int);
    assert(tail.subrange(0, 6) =~= s.subrange(i, i + 6));
    lemma_marker_head(tail);
    assert(tail.skip(6) =~= s.skip(i + 6));
}

/// Sanitizing keeps UTF-8: the sanitized prefix and the rest together stay
/// UTF-8 all along.
proof fn lemma_sanitized_valid(s: Seq<u8>, n: int)
    requires
        valid_utf8(s),
        0 <= n <= s.len(),
    ensures
        valid_utf8(sanitized(s.take(n)) + s.skip(n)),
    decreases n,
{
    if n == 0 {
        assert(sanitized(s.take(0)) + s.skip(0) =~= s);
    } else {
        lemma_sanitized_valid(s, n - 1);
        let o = sanitized(s.take(n - 1));
        let b = s[n - 1];
        assert(s.take(n).drop_last() =~= s.take(n - 1));
        let whole = o + s.skip(n - 1);
        let t = o.push(b);
        assert(whole =~= t + s.skip(n));
        if marker_at(t, t.len() - 6) {
            let i = t.len() - 6;
            assert(whole.subrange(i, i + 6) =~= t.subrange(i, i + 6));
            lemma_before_marker(whole, i);
            assert(whole.take(i) =~= t.take(i));
            assert(whole.skip(i + 6) =~= s.skip(n));
            valid_utf8_concat(t.take(i), s.skip(n));
        }
    }
}

fn is_end_marker(v: &Vec<u8>) -> (r: bool)
    ensures
        r == marker_at(v@, v.len() - 6),
{
    let n = v.len();
    if n < 6 {
        return false;
    }
    let r = v[n - 6] == 0x1b && v[n - 5] == 0x5b && v[n - 4] == 0x32 && v[n - 3] == 0x30 && v[n - 2]
        == 0x31 && v[n - 1] == 0x7e;
    proof {
        let tail = v@.subrange(n - 6, n as int);
        if r {
            assert(tail =~= end_marker());
        } else if tail == end_marker() {
            assert(tail[0] == 0x1b && tail[1] == 0x5b && tail[2] == 0x32 && tail[3] == 0x30
                && tail[4] == 0x31 && tail[5] == 0x7e);
        }
    }
    r
}

/// The bytes of a text without end markers.
fn sanitize_embedded_terminator(pasted: &str) -> (r: Vec<u8>)
    ensures
        r@ == sanitized(encode_utf8(pasted@)),
        valid_utf8(r@),
{
    let bytes = pasted.as_bytes();
    let mut out: Vec<u8> = Vec::new();
    let mut i: usize = 0;
    assert(bytes@.take(0) =~= Seq::<u8>::empty());
    while i < bytes.len()
        invariant
            i <= bytes@.len(),
            out@ == sanitized(bytes@.take(i as int)),
        decreases bytes.len() - i,
    {
        let ghost before = out@;
        assert(bytes@.take(i + 1).drop_last() =~= bytes@.take(i as int));
        out.push(bytes[i]);
        if is_end_marker(&out) {
            let n = out.len();
            out.truncate(n - 6);
            assert(out@ =~= before.push(bytes@[i as int]).take(n - 6));
        }
        i += 1;
    }
    proof {
        assert(bytes@.take(i as int) =~= bytes@);
        encode_utf8_valid_utf8(pasted@);
        lemma_sanitized_valid(bytes@, bytes@.len() as int);
        assert(sanitized(bytes@.take(bytes@.len() as int)) + bytes@.skip(bytes@.len() as int)
            =~= sanitized(bytes@));
    }
    out
}

// ---- newlines ------------------------------------------------------------------

/// The text with CR LF and lone LF turned into CR.
fn normalize_newlines(pasted: &str) -> (r: String)
    ensures
        r@ == normalized(pasted@),
{
    let chars = text::chars_of(pasted);
    let mut out = String::new();
    let mut i: usize = 0;
    assert(chars@.skip(0) =~= chars@);
    while i < chars.len()
        invariant
            i <= chars.len(),
            out@ + normalized(chars@.skip(i as int)) == normalized(chars@),
        decreases chars.len() - i,
    {
        let ghost rest = chars@.skip(i as int);
        let ghost before = out@;
        let c = chars[i];
        let mut step: usize = 1;
        if c == '\r' {
            if i + 1 < chars.len() && chars[i + 1] == '\n' {
                step = 2;
            }
            out.push('\r');
        } else if c == '\n' {
            out.push('\r');
        } else {
            out.push(c);
        }
        proof {
            assert(rest.skip(step as int) =~= chars@.skip(i + step));
            assert(out@ + normalized(chars@.skip(i + step)) =~= before + normalized(rest));
        }
        i += step;
    }
    assert(chars@.skip(i as int) =~= Seq::<char>::empty());
    assert(out@ =~= out@ + normalized(chars@.skip(i as int)));
    out
}

/// Normalized text holds no line feed.
pub proof fn normalized_has_no_line_feed(s: Seq<char>)
    ensures
        forall|i: int| 0 <= i < normalized(s).len() ==> #[trigger] normalized(s)[i] != '\n',
    decreases s.len(),
{
    if s.len() > 0 {
        let pair = s[0] == '\r' && s.len() > 1 && s[1] == '\n';
        let rest = if pair {
            s.skip(2)
        } else {
            s.skip(1)
        };
        normalized_has_no_line_feed(rest);
        assert forall|i: int| 0 <= i < normalized(s).len() implies #[trigger] normalized(s)[i]
            != '\n' by {
            if i > 0 {
                assert(normalized(s)[i] == normalized(rest)[i - 1]);
            }
        }
    }
}

/// No byte of a plain paste is a line feed.
pub proof fn plain_paste_has_no_line_feed(pasted: Seq<char>)
    ensures
        forall|i: int|
            0 <= i < payload_of(pasted, false).len() ==> #[trigger] payload_of(pasted, false)[i]
                != 0x0a,
{
    normalized_has_no_line_feed(pasted);
    text::lemma_ascii_byte_absent(normalized(pasted), 0x0a);
}

/// Text without line ends is pasted as it is.
pub proof fn single_line_is_kept(s: Seq<char>)
    requires
        forall|i: int| 0 <= i < s.len() ==> #[trigger] s[i] != '\n',
    ensures
        normalized(s) == s,
    decreases s.len(),
{
    if s.len() > 0 {
        let rest = s.skip(1);
        assert forall|i: int| 0 <= i < rest.len() implies #[trigger] rest[i] != '\n' by {
            assert(rest[i] == s[i + 1]);
        }
        single_line_is_kept(rest);
        assert(s =~= seq![s[0]] + rest);
    } else {
        assert(normalized(s) =~= s);
    }
}

/// How often a character occurs.
pub open spec fn occurrences(s: Seq<char>, c: char) -> nat
    decreases s.len(),
{
    if s.len() == 0 {
        0
    } else {
        occurrences(s.drop_last(), c) + (if s.last() == c {
            1nat
        } else {
            0
        })
    }
}

/// How many line feeds there are that no carriage return stands directly
/// before.
pub open spec fn lone_feeds(s: Seq<char>) -> nat
    decreases s.len(),
{
    if s.len() == 0 {
        0
    } else {
        lone_feeds(s.drop_last()) + (if s.last() == '\n' && !(s.len() > 1 && s[s.len() - 2]
            == '\r') {
            1nat
        } else {
            0
        })
    }
}

/// The text without its line ends.
pub open spec fn without_line_ends(s: Seq<char>) -> Seq<char>
    decreases s.len(),
{
    if s.len() == 0 {
        Seq::empty()
    } else if s.last() == '\r' || s.last() == '\n' {
        without_line_ends(s.drop_last())
    } else {
        without_line_ends(s.drop_last()).push(s.last())
    }
}

/// One more character: a line feed directly behind a carriage return adds
/// nothing, any other one a carriage return, and any other character itself.
proof fn lemma_normalized_push(t: Seq<char>, c: char)
    ensures
        normalized(t.push(c)) == (if c == '\n' && t.len() > 0 && t.last() == '\r' {
            normalized(t)
        } else if c == '\n' {
            normalized(t).push('\r')
        } else {
            normalized(t).push(c)
        }),
    decreases t.len(),
{
    reveal_with_fuel(normalized, 3);
    let s = t.push(c);
    let end = if c == '\n' {
        '\r'
    } else {
        c
    };
    assert(normalized(seq![c]) =~= seq![end]) by {
        assert(seq![c].skip(1) =~= Seq::<char>::empty());
    }
    if t.len() == 0 {
        assert(s =~= seq![c]);
        assert(normalized(t) =~= Seq::<char>::empty());
    } else {
        let pair = t[0] == '\r' && t.len() > 1 && t[1] == '\n';
        let step: int = if pair {
            2
        } else {
            1
        };
        let rest = t.skip(step);
        assert(s[0] == t[0]);
        if t.len() > 1 {
            assert(s[1] == t[1]);
        }
        if rest.len() > 0 {
            lemma_normalized_push(rest, c);
            assert(s.skip(step) =~= rest.push(c));
            assert(rest.last() == t.last());
        } else if t.len() == 1 && t[0] == '\r' && c == '\n' {
            assert(s.skip(2) =~= Seq::<char>::empty());
            assert(t.skip(1) =~= Seq::<char>::empty());
        } else {
            assert(s.skip(step) =~= seq![c]);
            assert(rest =~= Seq::<char>::empty());
        }
        assert(normalized(s) =~= (if c == '\n' && t.last() == '\r' {
            normalized(t)
        } else {
            normalized(t).push(end)
        }));
    }
}

/// Line ends are kept one for one: there is a carriage return for each one
/// that was pasted and one for each line feed that does not belong to one.
/// What is no line end is not touched.
pub proof fn line_ends_are_kept(s: Seq<char>)
    ensures
        occurrences(normalized(s), '\r') == occurrences(s, '\r') + lone_feeds(s),
        without_line_ends(normalized(s)) == without_line_ends(s),
        normalized(s).len() + occurrences(s, '\n') == s.len() + lone_feeds(s),
    decreases s.len(),
{
    if s.len() > 0 {
        let t = s.drop_last();
        line_ends_are_kept(t);
        lemma_normalized_push(t, s.last());
        assert(s =~= t.push(s.last()));
        let n = normalized(s);
        if n.len() > normalized(t).len() {
            assert(n.drop_last() =~= normalized(t));
        }
    }
}

/// Without carriage returns, every line feed becomes one where it stands and
/// nothing else changes: blank lines stay blank lines.
pub proof fn feeds_become_returns_in_place(s: Seq<char>)
    requires
        forall|i: int| 0 <= i < s.len() ==> #[trigger] s[i] != '\r',
    ensures
        normalized(s) == s.map_values(
            |c: char|
                if c == '\n' {
                    '\r'
                } else {
                    c
                },
        ),
    decreases s.len(),
{
    let returned = |c: char|
        if c == '\n' {
            '\r'
        } else {
            c
        };
    if s.len() > 0 {
        let t = s.drop_last();
        assert forall|i: int| 0 <= i < t.len() implies #[trigger] t[i] != '\r' by {
            assert(t[i] == s[i]);
        }
        feeds_become_returns_in_place(t);
        lemma_normalized_push(t, s.last());
        assert(s =~= t.push(s.last()));
        if t.len() > 0 {
            assert(t.last() == s[t.len() - 1]);
        }
        assert(s.map_values(returned) =~= t.map_values(returned).push(returned(s.last())));
    } else {
        assert(normalized(s) =~= s.map_values(returned));
    }
}

/// A text is normalized piece by piece, wherever it is parted but within CR
/// LF; that pair is one line end.
pub proof fn normalized_piecewise(a: Seq<char>, b: Seq<char>)
    requires
        !(a.len() > 0 && a.last() == '\r' && b.len() > 0 && b[0] == '\n'),
    ensures
        normalized(a + b) == normalized(a) + normalized(b),
        normalized(a + seq!['\r', '\n'] + b) == normalized(a) + seq!['\r'] + normalized(b),
    decreases b.len(),
{
    let pair = a + seq!['\r', '\n'];
    assert(pair =~= a.push('\r').push('\n'));
    lemma_normalized_push(a, '\r');
    lemma_normalized_push(a.push('\r'), '\n');
    assert(normalized(pair) =~= normalized(a) + seq!['\r']);
    if b.len() == 0 {
        assert(a + b =~= a);
        assert(pair + b =~= pair);
        assert(normalized(b) =~= Seq::<char>::empty());
        assert(normalized(a) + normalized(b) =~= normalized(a));
        assert(normalized(a) + seq!['\r'] + normalized(b) =~= normalized(pair));
    } else {
        let c = b.drop_last();
        let last = b.last();
        normalized_piecewise(a, c);
        assert(b =~= c.push(last));
        assert(a + b =~= (a + c).push(last));
        assert(pair + b =~= (pair + c).push(last));
        lemma_normalized_push(c, last);
        lemma_normalized_push(a + c, last);
        lemma_normalized_push(pair + c, last);
        if c.len() > 0 {
            assert((a + c).last() == c.last());
            assert((pair + c).last() == c.last());
            assert(c[0] == b[0]);
        } else {
            assert(a + c =~= a);
            assert(pair + c =~= pair);
            assert(pair.last() == '\n');
            assert(b[0] == last);
        }
        assert(normalized(a + b) =~= normalized(a) + normalized(b));
        assert(normalized(pair + b) =~= normalized(a) + seq!['\r'] + normalized(b));
    }
}

// ---- the bracket -----------------------------------------------------------------

proof fn lemma_marker_bytes(s: Seq<u8>, i: int)
    requires
        marker_at(s, i),
    ensures
        s[i] == 0x1b,
        s[i + 1] == 0x5b,
        s[i + 2] == 0x32,
        s[i + 3] == 0x30,
        s[i + 4] == 0x31,
        s[i + 5] == 0x7e,
{
    let m = s.subrange(i, i + 6);
    assert(m[0] == s[i] && m[1] == s[i + 1] && m[2] == s[i + 2]);
    assert(m[3] == s[i + 3] && m[4] == s[i + 4] && m[5] == s[i + 5]);
}

#[verifier::spinoff_prover]
#[verifier::rlimit(40)]
proof fn lemma_bracket(body: Seq<u8>, payload: Seq<u8>, i: int)
    requires
        unmarked(body),
        payload == start_marker() + body + end_marker(),
        marker_at(payload, i),
    ensures
        i == payload.len() - 6,
{
    let n = body.len() as int;
    let st = start_marker();
    assert(st.len() == 6);
    assert(end_marker().len() == 6);
    lemma_marker_bytes(payload, i);
    if i < 6 {
        assert(payload[i] == st[i]);
        if i == 0 {
            assert(payload[4] == st[4]);
            assert(st[4] == 0x30);
        } else {
            assert(st[1] == 0x5b && st[2] == 0x32 && st[3] == 0x30 && st[4] == 0x30 && st[5]
                == 0x7e);
        }
        assert(false);
    } else if i + 6 <= 6 + n {
        let x = payload.subrange(i, i + 6);
        let y = body.subrange(i - 6, i);
        assert forall|k: int| 0 <= k < 6 implies #[trigger] x[k] == y[k] by {
            assert(payload[i + k] == body[i - 6 + k]);
        }
        assert(x =~= y);
        assert(marker_at(body, i - 6));
        assert(false);
    } else if i < 6 + n {
        let at = 6 + n;
        assert(payload[at] == end_marker()[0]);
        assert(end_marker()[0] == 0x1b);
        assert(at == i + 1 || at == i + 2 || at == i + 3 || at == i + 4 || at == i + 5);
        assert(false);
    }
}

/// The end marker occurs once in a bracketed paste, at its very end, whatever
/// was pasted.
pub proof fn bracket_ends_once(pasted: Seq<char>, i: int)
    ensures
        marker_at(payload_of(pasted, true), i) <==> i == payload_of(pasted, true).len() - 6,
{
    let body = sanitized(encode_utf8(pasted));
    let payload = payload_of(pasted, true);
    let n = body.len() as int;
    sanitized_is_unmarked(encode_utf8(pasted));
    assert(payload.subrange(6 + n, 12 + n) =~= end_marker());
    if marker_at(payload, i) {
        lemma_bracket(body, payload, i);
    }
}

proof fn lemma_start_marker_valid(rest: Seq<u8>)
    requires
        valid_utf8(rest),
    ensures
        valid_utf8(start_marker() + rest),
        valid_utf8(end_marker()),
{
    let chars = seq!['\u{1b}', '[', '2', '0', '0', '~'];
    let ends = seq!['\u{1b}', '[', '2', '0', '1', '~'];
    assert(is_ascii_chars(chars));
    assert(is_ascii_chars(ends));
    is_ascii_chars_encode_utf8(chars);
    is_ascii_chars_encode_utf8(ends);
    assert forall|i: int| 0 <= i < 6 implies encode_utf8(chars)[i] == start_marker()[i] by {
        assert(chars[i] as u8 == encode_utf8(chars)[i]);
    }
    assert forall|i: int| 0 <= i < 6 implies encode_utf8(ends)[i] == end_marker()[i] by {
        assert(ends[i] as u8 == encode_utf8(ends)[i]);
    }
    assert(encode_utf8(chars) =~= start_marker());
    assert(encode_utf8(ends) =~= end_marker());
    encode_utf8_valid_utf8(chars);
    encode_utf8_valid_utf8(ends);
    valid_utf8_concat(start_marker(), rest);
}

// ---- chunks ----------------------------------------------------------------------

fn is_utf8_continuation(byte: u8) -> (r: bool)
    ensures
        r == is_continuation_byte(byte),
{
    0x80 <= byte && byte <= 0xbf
}

/// The length of the character that starts with `lead`.
fn utf8_char_len(lead: u8) -> (r: usize)
    ensures
        r == length_of_first_scalar(seq![lead]),
        1 <= r <= 4,
{
    if lead <= 0x7f {
        1
    } else if 0xc0 <= lead && lead <= 0xdf {
        2
    } else if 0xe0 <= lead && lead <= 0xef {
        3
    } else {
        4
    }
}

/// From one boundary to the next there is one character.
proof fn lemma_next_boundary(payload: Seq<u8>, cursor: int)
    requires
        valid_utf8(payload),
        0 <= cursor < payload.len(),
        is_char_boundary(payload, cursor),
    ensures
        ({
            let len = length_of_first_scalar(seq![payload[cursor]]);
            &&& cursor + len <= payload.len()
            &&& is_char_boundary(payload, cursor + len)
            &&& forall|p: int|
                cursor < p < cursor + len ==> !#[trigger] is_char_boundary(payload, p)
        }),
{
    let tail = payload.subrange(cursor, payload.len() as int);
    valid_utf8_split(payload, cursor);
    let len = length_of_first_scalar(tail);
    assert(tail[0] == payload[cursor]);
    assert(len == length_of_first_scalar(seq![payload[cursor]]));
    assert forall|p: int| cursor < p < cursor + len implies !#[trigger] is_char_boundary(
        payload,
        p,
    ) by {
        is_char_boundary_iff_not_is_continuation_byte(payload, p);
        assert(tail[p - cursor] == payload[p]);
    }
    if cursor + len < payload.len() {
        let rest = pop_first_scalar(tail);
        assert(valid_utf8(rest));
        assert(rest[0] == payload[cursor + len]);
        is_char_boundary_iff_not_is_continuation_byte(payload, cursor + len);
    } else {
        is_char_boundary_start_end_of_seq(payload);
    }
}

/// What lies between two boundaries is UTF-8.
proof fn lemma_between_boundaries(payload: Seq<u8>, a: int, b: int)
    requires
        valid_utf8(payload),
        0 <= a <= b <= payload.len(),
        is_char_boundary(payload, a),
        is_char_boundary(payload, b),
    ensures
        valid_utf8(payload.subrange(a, b)),
{
    valid_utf8_split(payload, b);
    let head = payload.subrange(0, b);
    if a < b {
        is_char_boundary_iff_not_is_continuation_byte(payload, a);
        assert(head[a] == payload[a]);
        is_char_boundary_iff_not_is_continuation_byte(head, a);
        valid_utf8_split(head, a);
        assert(head.subrange(a, head.len() as int) =~= payload.subrange(a, b));
    } else {
        assert(payload.subrange(a, b) =~= Seq::<u8>::empty());
    }
}

/// Whether handing out `chunk` takes a plan from `before` to `after`: it ends
/// where [`is_cut`] says.
pub open spec fn chunk_matches(before: PlanModel, after: PlanModel, chunk: Seq<u8>) -> bool {
    &&& is_cut(before.payload, before.protected, before.chunk_size, before.cursor, after.cursor)
    &&& after == (PlanModel { cursor: after.cursor, ..before })
    &&& chunk == before.payload.subrange(before.cursor, after.cursor)
}

/// Whether `list` holds the chunks that a plan hands out from `before` on, one
/// after the other, until nothing remains.
pub open spec fn is_chunking(before: PlanModel, list: Seq<Seq<u8>>) -> bool
    decreases list.len(),
{
    if list.len() == 0 {
        before.remaining().len() == 0
    } else {
        let after = PlanModel { cursor: before.cursor + list[0].len(), ..before };
        chunk_matches(before, after, list[0]) && is_chunking(after, list.drop_first())
    }
}

impl PastePlan {
    pub closed spec fn view(&self) -> PlanModel {
        PlanModel {
            payload: self.payload@,
            cursor: self.cursor as int,
            chunk_size: self.chunk_size as int,
            protected: self.protected,
        }
    }

    /// A plan for pasting a text. A chunk size of 0 counts as 1.
    pub fn new(pasted: &str, bracketed: bool, chunk_size: usize) -> (r: PastePlan)
        ensures
            r@ == (PlanModel {
                payload: payload_of(pasted@, bracketed),
                cursor: 0,
                chunk_size: if chunk_size == 0 {
                    1
                } else {
                    chunk_size as int
                },
                protected: bracketed && chunk_size >= 6,
            }),
            r@.wf(),
    {
        let chunk_size: usize = if chunk_size == 0 {
            1
        } else {
            chunk_size
        };
        let payload: Vec<u8> = if bracketed {
            let mut body = sanitize_embedded_terminator(pasted);
            let ghost inner = body@;
            let mut out: Vec<u8> = vec![0x1b, 0x5b, 0x32, 0x30, 0x30, 0x7e];
            assert(out@ =~= start_marker());
            out.append(&mut body);
            let mut end: Vec<u8> = vec![0x1b, 0x5b, 0x32, 0x30, 0x31, 0x7e];
            assert(end@ =~= end_marker());
            out.append(&mut end);
            proof {
                lemma_start_marker_valid(inner);
                valid_utf8_concat(start_marker() + inner, end_marker());
                bracket_ends_once(pasted@, out.len() - 6);
            }
            out
        } else {
            let s = normalize_newlines(pasted);
            proof {
                encode_utf8_valid_utf8(s@);
            }
            slice_to_vec(s.as_str().as_bytes())
        };
        assert(payload@ =~= payload_of(pasted@, bracketed));
        proof {
            is_char_boundary_start_end_of_seq(payload@);
        }
        PastePlan { payload, cursor: 0, chunk_size, protected: bracketed && chunk_size >= 6 }
    }

    /// The length of the payload in bytes.
    pub fn total_len(&self) -> (r: usize)
        ensures
            r == self@.payload.len(),
    {
        self.payload.len()
    }

    /// The next chunk; none when everything has been handed out.
    pub fn next(&mut self) -> (r: Option<Vec<u8>>)
        requires
            old(self)@.wf(),
        ensures
            final(self)@.wf(),
            match r {
                None => old(self)@.remaining().len() == 0 && final(self)@ == old(self)@,
                Some(chunk) => old(self)@.remaining().len() > 0 && chunk_matches(
                    old(self)@,
                    final(self)@,
                    chunk@,
                ),
            },
    {
        let len = self.payload.len();
        let cursor = self.cursor;
        if cursor >= len {
            return None;
        }
        let ghost payload = self.payload@;
        let ghost protected = self.protected;
        let remaining = len - cursor;
        let mut end: usize = if self.chunk_size <= remaining {
            self.chunk_size
        } else {
            remaining
        };
        proof {
            is_char_boundary_start_end_of_seq(payload);
            lemma_next_boundary(payload, cursor as int);
        }
        if end < remaining {
            while end > 0 && is_utf8_continuation(self.payload[cursor + end])
                invariant
                    self.payload@ == payload,
                    valid_utf8(payload),
                    self.payload.len() == len,
                    cursor < len,
                    cursor + end < len,
                    end <= self.chunk_size,
                    forall|p: int|
                        cursor + end < p <= cursor + self.chunk_size && p < len
                            ==> !#[trigger] is_char_boundary(payload, p),
                decreases end,
            {
                proof {
                    is_char_boundary_iff_not_is_continuation_byte(payload, cursor + end);
                }
                end -= 1;
            }
            if end == 0 {
                end = utf8_char_len(self.payload[cursor]);
            } else {
                proof {
                    is_char_boundary_iff_not_is_continuation_byte(payload, cursor + end);
                }
            }
        }
        let mut to: usize = cursor + end;
        assert(is_char_boundary(payload, to as int));
        if self.protected && to < len && to > len - 6 && cursor < len - 6 {
            proof {
                assert(payload[len - 6] == payload.subrange(len - 6, len as int)[0]);
                is_char_boundary_iff_not_is_continuation_byte(payload, len - 6);
            }
            to = len - 6;
        }
        proof {
            assert(may_cut(payload, protected, to as int));
            assert(is_cut(payload, protected, self.chunk_size as int, cursor as int, to as int));
        }
        let chunk = slice_to_vec(vstd::slice::slice_subrange(self.payload.as_slice(), cursor, to));
        self.cursor = to;
        Some(chunk)
    }

    /// Everything that has not been handed out yet, in chunks.
    pub fn chunks(self) -> (r: Vec<Vec<u8>>)
        requires
            self@.wf(),
        ensures
            is_chunking(self@, text::contents(r@)),
            joined(text::contents(r@)) == self@.remaining(),
            forall|i: int|
                0 <= i < r.len() ==> {
                    let chunk = (#[trigger] r[i])@;
                    &&& chunk.len() > 0
                    &&& valid_utf8(chunk)
                    &&& chunk.len() <= self@.chunk_size || decode_utf8(chunk).len() == 1
                },
    {
        let mut plan = self;
        let mut out: Vec<Vec<u8>> = Vec::new();
        let ghost start = plan@;
        assert(text::contents(out@) =~= Seq::<Seq<u8>>::empty());
        assert(joined(text::contents(out@)) + plan@.remaining() =~= start.remaining());
        assert forall|rest: Seq<Seq<u8>>| #[trigger] is_chunking(plan@, rest) implies is_chunking(
            start,
            text::contents(out@) + rest,
        ) by {
            assert(text::contents(out@) + rest =~= rest);
        }
        loop
            invariant_except_break
                joined(text::contents(out@)) + plan@.remaining() == start.remaining(),
                forall|rest: Seq<Seq<u8>>| #[trigger]
                    is_chunking(plan@, rest) ==> is_chunking(start, text::contents(out@) + rest),
            invariant
                plan@.wf(),
                plan@.chunk_size == start.chunk_size,
                forall|i: int|
                    0 <= i < out.len() ==> {
                        let chunk = (#[trigger] out[i])@;
                        &&& chunk.len() > 0
                        &&& valid_utf8(chunk)
                        &&& chunk.len() <= start.chunk_size || decode_utf8(chunk).len() == 1
                    },
            ensures
                is_chunking(start, text::contents(out@)),
                joined(text::contents(out@)) == start.remaining(),
            decreases plan@.payload.len() - plan@.cursor,
        {
            let ghost before = plan@;
            match plan.next() {
                None => {
                    assert(before.remaining() =~= Seq::<u8>::empty());
                    assert(joined(text::contents(out@)) + before.remaining() =~= joined(
                        text::contents(out@),
                    ));
                    proof {
                        let none = Seq::<Seq<u8>>::empty();
                        assert(is_chunking(before, none));
                        assert(text::contents(out@) + none =~= text::contents(out@));
                    }
                    break ;
                },
                Some(chunk) => {
                    proof {
                        chunk_is_sound(before, plan@, chunk@);
                        let list = text::contents(out@);
                        assert(text::contents(out@.push(chunk)) =~= list.push(chunk@));
                        assert(list.push(chunk@).drop_last() =~= list);
                        assert(chunk@ + plan@.remaining() =~= before.remaining());
                        assert(joined(list) + chunk@ + plan@.remaining() =~= joined(list)
                            + before.remaining());
                        let after = plan@;
                        assert forall|rest: Seq<Seq<u8>>| #[trigger]
                            is_chunking(after, rest) implies is_chunking(
                            start,
                            list.push(chunk@) + rest,
                        ) by {
                            let more = seq![chunk@] + rest;
                            assert(more.drop_first() =~= rest);
                            assert(is_chunking(before, more));
                            assert(list + more =~= list.push(chunk@) + rest);
                        }
                    }
                    out.push(chunk);
                },
            }
        }
        out
    }
}

/// Byte strings, one after another.
pub open spec fn joined(list: Seq<Seq<u8>>) -> Seq<u8>
    decreases list.len(),
{
    if list.len() == 0 {
        Seq::empty()
    } else {
        joined(list.drop_last()) + list.last()
    }
}

// ---- what every chunk keeps to ------------------------------------------------------

/// Every chunk is UTF-8, is not empty, and is no longer than the chunk size
/// unless it is a single character.
pub proof fn chunk_is_sound(before: PlanModel, after: PlanModel, chunk: Seq<u8>)
    requires
        before.wf(),
        chunk_matches(before, after, chunk),
    ensures
        chunk.len() > 0,
        valid_utf8(chunk),
        chunk.len() <= before.chunk_size || decode_utf8(chunk).len() == 1,
        chunk + after.remaining() == before.remaining(),
{
    let payload = before.payload;
    let cursor = before.cursor;
    let c = after.cursor;
    let len = payload.len() as int;
    lemma_between_boundaries(payload, cursor, c);
    assert(chunk + after.remaining() =~= before.remaining());
    if c > cursor + before.chunk_size {
        lemma_next_boundary(payload, cursor);
        let q = cursor + length_of_first_scalar(seq![payload[cursor]]);
        if q < c {
            assert(!may_cut(payload, before.protected, q));
            if cursor == len - 6 {
                is_char_boundary_start_end_of_seq(payload);
                assert(may_cut(payload, before.protected, len));
            } else {
                assert(payload[len - 6] == payload.subrange(len - 6, len)[0]);
                is_char_boundary_iff_not_is_continuation_byte(payload, len - 6);
                assert(is_char_boundary(payload, len - 6));
            }
        }
        assert(q == c);
        assert(chunk[0] == payload[cursor]);
        assert(length_of_first_scalar(chunk) == chunk.len());
        assert(pop_first_scalar(chunk) =~= Seq::<u8>::empty());
        assert(decode_utf8(pop_first_scalar(chunk)).len() == 0);
    }
}

/// However a bracketed paste is handed out, as long as the chunk size has room
/// for a marker: the first chunk starts with the whole start marker, and the
/// last one ends with the whole end marker.
pub proof fn markers_stay_whole(pasted: Seq<char>, chunk_size: int, list: Seq<Seq<u8>>)
    requires
        chunk_size >= 6,
        is_chunking(
            PlanModel {
                payload: payload_of(pasted, true),
                cursor: 0,
                chunk_size,
                protected: true,
            },
            list,
        ),
    ensures
        list.len() > 0,
        start_marker().is_prefix_of(list.first()),
        end_marker().is_suffix_of(list.last()),
{
    let payload = payload_of(pasted, true);
    let plan = PlanModel { payload, cursor: 0, chunk_size, protected: true };
    assert(payload.len() >= 12);
    assert(plan.remaining() =~= payload);
    let c = list[0].len() as int;
    markers_are_never_split(pasted, chunk_size, 0, c);
    assert(list[0] =~= payload.take(c));
    assert(start_marker() =~= payload.take(6));
    assert(start_marker() =~= list[0].take(6));
    assert(end_marker() =~= payload.skip(payload.len() - 6));
    lemma_last_chunk(plan, list);
}

/// The last chunk of a protected plan holds the payload's last six bytes.
proof fn lemma_last_chunk(before: PlanModel, list: Seq<Seq<u8>>)
    requires
        is_chunking(before, list),
        list.len() > 0,
        before.protected,
        before.payload.len() >= 6,
        0 <= before.cursor,
        !(before.payload.len() - 6 < before.cursor < before.payload.len()),
    ensures
        before.payload.skip(before.payload.len() - 6).is_suffix_of(list.last()),
    decreases list.len(),
{
    let payload = before.payload;
    let len = payload.len() as int;
    let after = PlanModel { cursor: before.cursor + list[0].len(), ..before };
    let rest = list.drop_first();
    assert(is_chunking(after, rest));
    if rest.len() > 0 {
        lemma_last_chunk(after, rest);
        assert(rest.last() == list.last());
    } else {
        assert(after.remaining().len() == 0);
        assert(after.cursor == len);
        assert(before.cursor <= len - 6);
        let chunk = list[0];
        assert(payload.skip(len - 6) =~= chunk.subrange(chunk.len() - 6, chunk.len() as int));
    }
}

/// As long as the chunk size has room for a marker, no chunk of a bracketed
/// paste ends within a marker.
pub proof fn markers_are_never_split(pasted: Seq<char>, chunk_size: int, cursor: int, c: int)
    requires
        chunk_size >= 6,
        cursor == 0 || cursor >= 6,
        is_cut(payload_of(pasted, true), true, chunk_size, cursor, c),
    ensures
        !(0 < c < 6),
        !(payload_of(pasted, true).len() - 6 < c < payload_of(pasted, true).len()),
{
    let payload = payload_of(pasted, true);
    let body = sanitized(encode_utf8(pasted));
    if cursor == 0 {
        encode_utf8_valid_utf8(pasted);
        lemma_sanitized_valid(encode_utf8(pasted), encode_utf8(pasted).len() as int);
        let bytes = encode_utf8(pasted);
        assert(bytes.take(bytes.len() as int) =~= bytes);
        assert(sanitized(bytes) + bytes.skip(bytes.len() as int) =~= body);
        lemma_start_marker_valid(body);
        valid_utf8_concat(start_marker() + body, end_marker());
        valid_utf8_concat(body, end_marker());
        let rest = body + end_marker();
        assert(payload =~= start_marker() + rest);
        assert(payload[6] == rest[0]);
        assert(valid_first_scalar(rest));
        is_char_boundary_iff_not_is_continuation_byte(payload, 6);
        assert(may_cut(payload, true, 6));
    }
}

/// Chunks are as long as the chunk size lets them: what fits is handed out
/// whole, and of more than that at most three bytes are held back, those of
/// a character that would be cut, unless the end marker is kept whole.
pub proof fn chunks_fill_the_chunk_size(before: PlanModel, after: PlanModel, chunk: Seq<u8>)
    requires
        before.wf(),
        chunk_matches(before, after, chunk),
    ensures
        before.remaining().len() <= before.chunk_size ==> chunk == before.remaining(),
        !before.protected && before.remaining().len() > before.chunk_size ==> chunk.len() + 3
            >= before.chunk_size,
{
    let payload = before.payload;
    let cursor = before.cursor;
    let len = payload.len() as int;
    is_char_boundary_start_end_of_seq(payload);
    if before.remaining().len() <= before.chunk_size {
        assert(may_cut(payload, before.protected, len));
        assert(chunk =~= before.remaining());
    } else if !before.protected {
        let p = lemma_boundary_near(payload, cursor + before.chunk_size);
        if p > cursor {
            assert(may_cut(payload, false, p));
        }
    }
}

/// At most three bytes before any position there is a boundary.
proof fn lemma_boundary_near(payload: Seq<u8>, at: int) -> (p: int)
    requires
        valid_utf8(payload),
        0 <= at <= payload.len(),
    ensures
        at - 3 <= p <= at,
        0 <= p,
        is_char_boundary(payload, p),
    decreases at,
{
    is_char_boundary_start_end_of_seq(payload);
    if is_char_boundary(payload, at) {
        at
    } else {
        lemma_walk_back(payload, 0, at)
    }
}

proof fn lemma_walk_back(payload: Seq<u8>, from: int, at: int) -> (p: int)
    requires
        valid_utf8(payload),
        0 <= from < at < payload.len(),
        is_char_boundary(payload, from),
        !is_char_boundary(payload, at),
    ensures
        at - 3 <= p <= at,
        0 <= p,
        is_char_boundary(payload, p),
    decreases at - from,
{
    lemma_next_boundary(payload, from);
    let next = from + length_of_first_scalar(seq![payload[from]]);
    if next < at {
        lemma_walk_back(payload, next, at)
    } else {
        from
    }
}

/// What is handed out is the whole payload: the chunks of a plan, one after
/// another, are all that remained of it.
pub proof fn chunks_make_up_the_payload(before: PlanModel, list: Seq<Seq<u8>>)
    requires
        before.wf(),
        is_chunking(before, list),
    ensures
        joined(list) == before.remaining(),
    decreases list.len(),
{
    if list.len() == 0 {
        assert(before.remaining() =~= Seq::<u8>::empty());
    } else {
        let after = PlanModel { cursor: before.cursor + list[0].len(), ..before };
        chunk_is_sound(before, after, list[0]);
        chunks_make_up_the_payload(after, list.drop_first());
        lemma_joined_front(list);
    }
}

proof fn lemma_joined_front(list: Seq<Seq<u8>>)
    requires
        list.len() > 0,
    ensures
        joined(list) == list[0] + joined(list.drop_first()),
    decreases list.len(),
{
    if list.len() == 1 {
        assert(list.drop_last() =~= Seq::<Seq<u8>>::empty());
        assert(list.drop_first() =~= Seq::<Seq<u8>>::empty());
        assert(joined(list) =~= list[0] + joined(list.drop_first()));
    } else {
        lemma_joined_front(list.drop_last());
        assert(list.drop_last().drop_first() =~= list.drop_first().drop_last());
        assert(joined(list) =~= list[0] + joined(list.drop_first()));
    }
}

/// A bracketed paste without an end marker in it is sent as it is between the
/// two markers, `ESC [ 2 0 0 ~` and `ESC [ 2 0 1 ~`. A plain paste without a
/// line feed is sent as it is.
pub proof fn harmless_text_is_sent_as_it_is(pasted: Seq<char>)
    ensures
        unmarked(encode_utf8(pasted)) ==> payload_of(pasted, true) == seq![
            0x1bu8,
            0x5bu8,
            0x32u8,
            0x30u8,
            0x30u8,
            0x7eu8,
        ] + encode_utf8(pasted) + seq![0x1bu8, 0x5bu8, 0x32u8, 0x30u8, 0x31u8, 0x7eu8],
        (forall|i: int| 0 <= i < pasted.len() ==> #[trigger] pasted[i] != '\n') ==> payload_of(
            pasted,
            false,
        ) == encode_utf8(pasted),
{
    if unmarked(encode_utf8(pasted)) {
        unmarked_is_kept(encode_utf8(pasted));
    }
    if forall|i: int| 0 <= i < pasted.len() ==> #[trigger] pasted[i] != '\n' {
        single_line_is_kept(pasted);
    }
}

} // verus!

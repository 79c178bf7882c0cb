//! Keybind chords and the actions they trigger.
use vstd::prelude::*;

use crate::sorted::Key;
use crate::text::{self, chars_of, join3, same, text_precedes, to_ascii_lowered, trim_range};

verus! {

/// A keybind chord such as `ctrl+shift+c`: a set of modifiers and one key.
/// The order of the modifiers in the source string does not matter.
#[derive(Debug, Clone, PartialEq, Eq, PartialOrd, Ord)]
pub struct Chord {
    pub ctrl: bool,
    pub alt: bool,
    pub shift: bool,
    pub key: String,
}

/// What a [`Chord`] stands for.
#[verifier::ext_equal]
pub struct ChordModel {
    pub ctrl: bool,
    pub alt: bool,
    pub shift: bool,
    pub key: Seq<char>,
}

impl View for Chord {
    type V = ChordModel;

    open spec fn view(&self) -> ChordModel {
        ChordModel { ctrl: self.ctrl, alt: self.alt, shift: self.shift, key: self.key@ }
    }
}

impl Key for Chord {
    type Model = ChordModel;

    open spec fn model(&self) -> ChordModel {
        self@
    }

    open spec fn before(a: ChordModel, b: ChordModel) -> bool {
        if a.ctrl != b.ctrl {
            b.ctrl
        } else if a.alt != b.alt {
            b.alt
        } else if a.shift != b.shift {
            b.shift
        } else {
            text::text_before(a.key, b.key)
        }
    }

    proof fn order(a: ChordModel, b: ChordModel, c: ChordModel) {
        text::text_order(a.key, b.key, c.key);
    }

    fn precedes(&self, other: &Self) -> (r: bool) {
        if self.ctrl != other.ctrl {
            other.ctrl
        } else if self.alt != other.alt {
            other.alt
        } else if self.shift != other.shift {
            other.shift
        } else {
            text_precedes(self.key.as_str(), other.key.as_str())
        }
    }
}

/// The pieces of `s` between its plus signs.
pub open spec fn split_plus(s: Seq<char>) -> Seq<Seq<char>>
    decreases s.len(),
{
    if s.len() == 0 {
        seq![Seq::empty()]
    } else {
        let pieces = split_plus(s.drop_last());
        if s.last() == '+' {
            pieces.push(Seq::empty())
        } else {
            pieces.drop_last().push(pieces.last().push(s.last()))
        }
    }
}

/// The segments of a chord string: its pieces without white space around
/// them, in ASCII lower case.
pub open spec fn segments(s: Seq<char>) -> Seq<Seq<char>> {
    split_plus(s).map_values(
        |p: Seq<char>| text::ascii_lowered(text::trimmed(p)),
    )
}

/// Whether a segment names the control modifier.
pub open spec fn is_ctrl(p: Seq<char>) -> bool {
    p == "ctrl"@ || p == "control"@
}

/// Whether a segment names a modifier.
pub open spec fn is_modifier(p: Seq<char>) -> bool {
    is_ctrl(p) || p == "alt"@ || p == "shift"@
}

/// The segments that name no modifier, in order.
pub open spec fn key_segments(parts: Seq<Seq<char>>) -> Seq<Seq<char>>
    decreases parts.len(),
{
    if parts.len() == 0 {
        Seq::empty()
    } else if is_modifier(parts.last()) {
        key_segments(parts.drop_last())
    } else {
        key_segments(parts.drop_last()).push(parts.last())
    }
}

/// What a chord string stands for, or why it is refused.
pub open spec fn chord_of(s: Seq<char>) -> Result<ChordModel, Seq<char>> {
    let parts = segments(s);
    let keys = key_segments(parts);
    if parts.contains(Seq::empty()) {
        Err("keybind chord '"@ + s + "' has an empty segment"@)
    } else if keys.len() > 1 {
        Err("keybind chord '"@ + s + "' names more than one non-modifier key"@)
    } else if keys.len() == 0 {
        Err("keybind chord '"@ + s + "' has no key component"@)
    } else {
        Ok(
            ChordModel {
                ctrl: parts.contains("ctrl"@) || parts.contains("control"@),
                alt: parts.contains("alt"@),
                shift: parts.contains("shift"@),
                key: keys[0],
            },
        )
    }
}

/// The segments of `s`.
fn read_segments(s: &str) -> (r: Vec<String>)
    ensures
        r@.map_values(|p: String| p@) == segments(s@),
{
    let chars = chars_of(s);
    let mut out: Vec<String> = Vec::new();
    let mut start: usize = 0;
    let mut i: usize = 0;
    assert(chars@.take(0) == Seq::<char>::empty());
    assert(chars@.subrange(0, 0) == Seq::<char>::empty());
    let ghost lowered = |p: Seq<char>| text::ascii_lowered(text::trimmed(p));
    assert(split_plus(chars@.take(0)) =~= Seq::<Seq<char>>::empty().push(chars@.subrange(0, 0)));
    let ghost mut done = Seq::<Seq<char>>::empty();
    while i < chars.len()
        invariant
            chars@ == s@,
            start <= i <= chars.len(),
            split_plus(chars@.take(i as int)) == done.push(
                chars@.subrange(start as int, i as int),
            ),
            lowered == (|p: Seq<char>| text::ascii_lowered(text::trimmed(p))),
            out@.map_values(|p: String| p@) == done.map_values(lowered),
        decreases chars.len() - i,
    {
        assert(chars@.take(i + 1).drop_last() == chars@.take(i as int));
        let ghost open = chars@.subrange(start as int, i as int);
        if chars[i] == '+' {
            let piece = trim_range(&chars, start, i);
            let low = to_ascii_lowered(piece.as_str());
            let ghost before = out@;
            out.push(low);
            proof {
                assert(out@.map_values(|p: String| p@) =~= before.map_values(
                    |p: String| p@,
                ).push(low@));
                assert(done.push(open).map_values(lowered) =~= done.map_values(lowered).push(
                    lowered(open),
                ));
                done = done.push(open);
                assert(chars@.subrange(i + 1, i + 1) =~= Seq::<char>::empty());
            }
            start = i + 1;
        } else {
            assert(done.push(open).drop_last() =~= done);
            assert(chars@.subrange(start as int, i + 1) =~= open.push(chars@[i as int]));
        }
        i += 1;
    }
    let piece = trim_range(&chars, start, chars.len());
    let low = to_ascii_lowered(piece.as_str());
    let ghost before = out@;
    out.push(low);
    proof {
        let open = chars@.subrange(start as int, i as int);
        assert(chars@.take(i as int) =~= s@);
        assert(out@.map_values(|p: String| p@) =~= before.map_values(|p: String| p@).push(low@));
        assert(done.push(open).map_values(lowered) =~= done.map_values(lowered).push(
            lowered(open),
        ));
    }
    out
}

impl Chord {
    /// Reads a chord: `+`-separated segments, each a modifier name or a key.
    pub fn parse(s: &str) -> (r: Result<Chord, String>)
        ensures
            match (r, chord_of(s@)) {
                (Ok(c), Ok(m)) => c@ == m,
                (Err(e), Err(m)) => e@ == m,
                _ => false,
            },
    {
        let parts = read_segments(s);
        let ghost texts = parts@.map_values(|p: String| p@);
        assert(texts == segments(s@));
        let mut i: usize = 0;
        while i < parts.len()
            invariant
                i <= parts.len(),
                texts == parts@.map_values(|p: String| p@),
                texts == segments(s@),
                !texts.take(i as int).contains(Seq::empty()),
            decreases parts.len() - i,
        {
            assert(texts[i as int] == parts@[i as int]@);
            if parts[i].as_str().is_empty() {
                assert(texts[i as int] =~= Seq::empty());
                return Err(join3("keybind chord '", s, "' has an empty segment"));
            }
            assert(texts.take(i + 1) =~= texts.take(i as int).push(texts[i as int]));
            i += 1;
        }
        assert(texts.take(i as int) =~= texts);
        let mut ctrl = false;
        let mut alt = false;
        let mut shift = false;
        let mut key: Option<String> = None;
        i = 0;
        assert(texts.take(0) =~= Seq::<Seq<char>>::empty());
        while i < parts.len()
            invariant
                i <= parts.len(),
                texts == parts@.map_values(|p: String| p@),
                texts == segments(s@),
                !texts.contains(Seq::empty()),
                ctrl == (texts.take(i as int).contains("ctrl"@) || texts.take(i as int).contains(
                    "control"@,
                )),
                alt == texts.take(i as int).contains("alt"@),
                shift == texts.take(i as int).contains("shift"@),
                match key {
                    Some(k) => key_segments(texts.take(i as int)) == seq![k@],
                    None => key_segments(texts.take(i as int)) == Seq::<Seq<char>>::empty(),
                },
            decreases parts.len() - i,
        {
            let part = parts[i].as_str();
            proof {
                reveal_strlit("ctrl");
                reveal_strlit("control");
                reveal_strlit("alt");
                reveal_strlit("shift");
                let before = texts.take(i as int);
                let p = texts[i as int];
                assert(part@ == p);
                assert(texts.take(i + 1) =~= before.push(p));
                lemma_contains_push(before, p, "ctrl"@);
                lemma_contains_push(before, p, "control"@);
                lemma_contains_push(before, p, "alt"@);
                lemma_contains_push(before, p, "shift"@);
                assert(before.push(p).drop_last() =~= before);
                assert("ctrl"@.len() == 4 && "control"@.len() == 7 && "alt"@.len() == 3
                    && "shift"@.len() == 5);
            }
            if same(part, "ctrl") || same(part, "control") {
                ctrl = true;
            } else if same(part, "alt") {
                alt = true;
            } else if same(part, "shift") {
                shift = true;
            } else {
                if key.is_some() {
                    proof {
                        lemma_keys_grow(texts, i + 1);
                    }
                    return Err(
                        join3("keybind chord '", s, "' names more than one non-modifier key"),
                    );
                }
                key = Some(part.to_owned());
            }
            i += 1;
        }
        assert(texts.take(i as int) =~= texts);
        match key {
            Some(key) => Ok(Chord { ctrl, alt, shift, key }),
            None => Err(join3("keybind chord '", s, "' has no key component")),
        }
    }
}

proof fn lemma_contains_push(s: Seq<Seq<char>>, p: Seq<char>, x: Seq<char>)
    ensures
        s.push(p).contains(x) == (s.contains(x) || p == x),
{
    assert(s.push(p)[s.len() as int] == p);
    if s.contains(x) {
        let i = choose|i: int| 0 <= i < s.len() && s[i] == x;
        assert(s.push(p)[i] == x);
    }
}

proof fn lemma_keys_grow(parts: Seq<Seq<char>>, n: int)
    requires
        0 <= n <= parts.len(),
    ensures
        key_segments(parts.take(n)).len() <= key_segments(parts).len(),
    decreases parts.len() - n,
{
    if n < parts.len() {
        lemma_keys_grow(parts, n + 1);
        assert(parts.take(n + 1).drop_last() =~= parts.take(n));
    } else {
        assert(parts.take(n) =~= parts);
    }
}

proof fn lemma_keys_count(parts: Seq<Seq<char>>, x: Seq<char>)
    ensures
        key_segments(parts).to_multiset().count(x) == (if is_modifier(x) {
            0
        } else {
            parts.to_multiset().count(x)
        }),
    decreases parts.len(),
{
    broadcast use vstd::seq_lib::group_to_multiset_ensures;

    if parts.len() > 0 {
        lemma_keys_count(parts.drop_last(), x);
        assert(parts =~= parts.drop_last().push(parts.last()));
    }
}

/// A segment with the two names of the control modifier made one.
pub open spec fn unified(p: Seq<char>) -> Seq<char> {
    if is_ctrl(p) {
        "ctrl"@
    } else {
        p
    }
}

/// The segments with the two names of the control modifier made one.
pub open spec fn unified_segments(parts: Seq<Seq<char>>) -> Seq<Seq<char>> {
    parts.map_values(|p: Seq<char>| unified(p))
}

proof fn lemma_names_differ()
    ensures
        "ctrl"@ != "control"@,
        !is_ctrl("alt"@),
        !is_ctrl("shift"@),
        !is_ctrl(Seq::empty()),
{
    reveal_strlit("ctrl");
    reveal_strlit("control");
    reveal_strlit("alt");
    reveal_strlit("shift");
    assert("ctrl"@.len() == 4 && "control"@.len() == 7 && "alt"@.len() == 3 && "shift"@.len() == 5);
}

proof fn lemma_unified_contains(parts: Seq<Seq<char>>, x: Seq<char>)
    ensures
        !is_ctrl(x) ==> unified_segments(parts).contains(x) == parts.contains(x),
        unified_segments(parts).contains("ctrl"@) == (parts.contains("ctrl"@) || parts.contains(
            "control"@,
        )),
{
    let u = unified_segments(parts);
    if parts.contains(x) && !is_ctrl(x) {
        let i = choose|i: int| 0 <= i < parts.len() && parts[i] == x;
        assert(u[i] == x);
    }
    if u.contains(x) && !is_ctrl(x) {
        let i = choose|i: int| 0 <= i < u.len() && u[i] == x;
        assert(parts[i] == x);
    }
    if parts.contains("ctrl"@) {
        let i = choose|i: int| 0 <= i < parts.len() && parts[i] == "ctrl"@;
        assert(u[i] == "ctrl"@);
    }
    if parts.contains("control"@) {
        let i = choose|i: int| 0 <= i < parts.len() && parts[i] == "control"@;
        assert(u[i] == "ctrl"@);
    }
    if u.contains("ctrl"@) {
        let i = choose|i: int| 0 <= i < u.len() && u[i] == "ctrl"@;
        assert(is_ctrl(parts[i]));
    }
}

proof fn lemma_unified_keys(parts: Seq<Seq<char>>)
    ensures
        key_segments(unified_segments(parts)) == key_segments(parts),
    decreases parts.len(),
{
    if parts.len() > 0 {
        lemma_unified_keys(parts.drop_last());
        assert(unified_segments(parts).drop_last() =~= unified_segments(parts.drop_last()));
        assert(unified_segments(parts).last() == unified(parts.last()));
    }
}

/// Neither the order of a chord's segments nor the name used for the control
/// modifier matters: of two strings whose segments are the same but for that,
/// one is accepted where the other is, and then both name the same chord.
pub proof fn chord_order_irrelevant(a: Seq<char>, b: Seq<char>)
    requires
        unified_segments(segments(a)).to_multiset() == unified_segments(segments(b)).to_multiset(),
    ensures
        chord_of(a) is Ok <==> chord_of(b) is Ok,
        chord_of(a) is Ok ==> chord_of(a) == chord_of(b),
{
    broadcast use vstd::seq_lib::group_to_multiset_ensures;

    let x = unified_segments(segments(a));
    let y = unified_segments(segments(b));
    lemma_names_differ();
    lemma_unified_keys(segments(a));
    lemma_unified_keys(segments(b));
    lemma_unified_contains(segments(a), Seq::empty());
    lemma_unified_contains(segments(b), Seq::empty());
    lemma_unified_contains(segments(a), "alt"@);
    lemma_unified_contains(segments(b), "alt"@);
    lemma_unified_contains(segments(a), "shift"@);
    lemma_unified_contains(segments(b), "shift"@);
    let kx = key_segments(x);
    let ky = key_segments(y);
    assert forall|p: Seq<char>| kx.to_multiset().count(p) == ky.to_multiset().count(p) by {
        lemma_keys_count(x, p);
        lemma_keys_count(y, p);
    }
    assert(kx.to_multiset() =~= ky.to_multiset());
    assert(kx.to_multiset().len() == kx.len());
    assert(ky.to_multiset().len() == ky.len());
    assert forall|p: Seq<char>| x.contains(p) == y.contains(p) by {
        assert(x.contains(p) <==> x.to_multiset().count(p) > 0);
        assert(y.contains(p) <==> y.to_multiset().count(p) > 0);
    }
    if kx.len() == 1 {
        assert(kx.contains(kx[0]));
        assert(ky.to_multiset().count(kx[0]) > 0);
        assert(ky.contains(kx[0]));
        assert(kx[0] == ky[0]);
    }
}

/// What a chord does. Carrying it out is the shell's business.
#[derive(Debug, Clone, Copy, PartialEq, Eq, PartialOrd, Ord, Structural)]
pub enum Action {
    Copy,
    Paste,
    ScrollToBottom,
}

impl Action {
    /// The action with a given name, or why there is none.
    pub open spec fn named(s: Seq<char>) -> Result<Action, Seq<char>> {
        if s == "copy"@ {
            Ok(Action::Copy)
        } else if s == "paste"@ {
            Ok(Action::Paste)
        } else if s == "scroll-to-bottom"@ {
            Ok(Action::ScrollToBottom)
        } else {
            Err(
                "unknown keybind action \""@ + s
                    + "\" (expected copy, paste, or scroll-to-bottom)"@,
            )
        }
    }

    /// Reads the name of an action.
    pub fn parse(s: &str) -> (r: Result<Action, String>)
        ensures
            match (r, Action::named(s@)) {
                (Ok(a), Ok(b)) => a == b,
                (Err(e), Err(m)) => e@ == m,
                _ => false,
            },
    {
        if same(s, "copy") {
            Ok(Action::Copy)
        } else if same(s, "paste") {
            Ok(Action::Paste)
        } else if same(s, "scroll-to-bottom") {
            Ok(Action::ScrollToBottom)
        } else {
            Err(
                join3(
                    "unknown keybind action \"",
                    s,
                    "\" (expected copy, paste, or scroll-to-bottom)",
                ),
            )
        }
    }
}

/// A chord string is parted at its plus signs and nowhere else.
pub proof fn plus_signs_part_segments(a: Seq<char>, b: Seq<char>)
    ensures
        split_plus(a + seq!['+'] + b) == split_plus(a) + split_plus(b),
        (forall|i: int| 0 <= i < b.len() ==> #[trigger] b[i] != '+') ==> split_plus(b) == seq![b],
    decreases b.len(),
{
    let s = a + seq!['+'] + b;
    lemma_pieces(a);
    if b.len() == 0 {
        assert(s.drop_last() =~= a);
        assert(s.last() == '+');
        assert(b =~= Seq::<char>::empty());
        assert(split_plus(s) =~= split_plus(a) + split_plus(b));
    } else {
        let c = b.drop_last();
        plus_signs_part_segments(a, c);
        lemma_pieces(c);
        assert(s.drop_last() =~= a + seq!['+'] + c);
        assert(s.last() == b.last());
        assert(split_plus(s) =~= split_plus(a) + split_plus(b));
        if forall|i: int| 0 <= i < b.len() ==> #[trigger] b[i] != '+' {
            assert forall|i: int| 0 <= i < c.len() implies #[trigger] c[i] != '+' by {
                assert(c[i] == b[i]);
            }
            assert(b[b.len() - 1] != '+');
            assert(split_plus(c) == seq![c]);
            assert(c.push(b.last()) =~= b);
            assert(split_plus(b) =~= seq![b]);
        }
    }
}

proof fn lemma_pieces(s: Seq<char>)
    ensures
        split_plus(s).len() > 0,
    decreases s.len(),
{
    if s.len() > 0 {
        lemma_pieces(s.drop_last());
    }
}

proof fn lemma_keys_from_parts(parts: Seq<Seq<char>>)
    ensures
        forall|i: int|
            0 <= i < key_segments(parts).len() ==> parts.contains(
                #[trigger] key_segments(parts)[i],
            ) && !is_modifier(key_segments(parts)[i]),
        forall|i: int|
            0 <= i < parts.len() && !is_modifier(#[trigger] parts[i]) ==> key_segments(
                parts,
            ).contains(parts[i]),
    decreases parts.len(),
{
    if parts.len() > 0 {
        let earlier = parts.drop_last();
        lemma_keys_from_parts(earlier);
        let keys = key_segments(parts);
        let before = key_segments(earlier);
        assert(parts[parts.len() - 1] == parts.last());
        assert forall|i: int| 0 <= i < keys.len() implies parts.contains(#[trigger] keys[i])
            && !is_modifier(keys[i]) by {
            if i < before.len() {
                assert(keys[i] == before[i]);
                assert(earlier.contains(before[i]));
                let j = choose|j: int| 0 <= j < earlier.len() && earlier[j] == before[i];
                assert(parts[j] == keys[i]);
            }
        }
        assert forall|i: int| 0 <= i < parts.len() && !is_modifier(#[trigger] parts[i]) implies
            keys.contains(parts[i]) by {
            if i < earlier.len() {
                assert(earlier[i] == parts[i]);
                assert(before.contains(parts[i]));
                let j = choose|j: int| 0 <= j < before.len() && before[j] == parts[i];
                assert(keys[j] == parts[i]);
            } else {
                assert(keys[keys.len() - 1] == parts[i]);
            }
        }
    }
}

/// A chord holds the modifiers that its segments name and no other: `ctrl` or
/// `control`, `alt`, `shift`. Its key is the one segment that names none.
pub proof fn chords_hold_what_they_name(s: Seq<char>)
    ensures
        chord_of(s) matches Ok(c) ==> {
            let parts = segments(s);
            &&& c.ctrl <==> parts.contains("ctrl"@) || parts.contains("control"@)
            &&& c.alt <==> parts.contains("alt"@)
            &&& c.shift <==> parts.contains("shift"@)
            &&& parts.contains(c.key)
            &&& c.key != "ctrl"@ && c.key != "control"@ && c.key != "alt"@ && c.key != "shift"@
            &&& forall|i: int|
                0 <= i < parts.len() ==> #[trigger] parts[i] == "ctrl"@ || parts[i] == "control"@
                    || parts[i] == "alt"@ || parts[i] == "shift"@ || parts[i] == c.key
        },
        segments(s).contains(Seq::empty()) ==> chord_of(s) is Err,
        (forall|i: int|
            0 <= i < segments(s).len() ==> #[trigger] segments(s)[i] == "ctrl"@ || segments(s)[i]
                == "control"@ || segments(s)[i] == "alt"@ || segments(s)[i] == "shift"@)
            ==> chord_of(s) is Err,
{
    let parts = segments(s);
    let keys = key_segments(parts);
    lemma_keys_from_parts(parts);
    if chord_of(s) is Ok {
        assert(parts.contains(keys[0]) && !is_modifier(keys[0]));
        assert forall|i: int| 0 <= i < parts.len() implies #[trigger] parts[i] == "ctrl"@
            || parts[i] == "control"@ || parts[i] == "alt"@ || parts[i] == "shift"@ || parts[i]
            == keys[0] by {
            if !is_modifier(parts[i]) {
                assert(keys.contains(parts[i]));
            }
        }
    }
    if forall|i: int|
        0 <= i < parts.len() ==> #[trigger] parts[i] == "ctrl"@ || parts[i] == "control"@
            || parts[i] == "alt"@ || parts[i] == "shift"@ {
        if keys.len() > 0 {
            assert(parts.contains(keys[0]) && !is_modifier(keys[0]));
            let i = choose|i: int| 0 <= i < parts.len() && parts[i] == keys[0];
            assert(is_modifier(parts[i]));
        }
    }
}

/// A single key, without any plus sign, is a chord of that key alone, in lower
/// case, unless it names a modifier.
pub proof fn single_keys_are_chords(s: Seq<char>)
    requires
        forall|i: int| 0 <= i < s.len() ==> #[trigger] s[i] != '+',
        text::trimmed(s).len() > 0,
        !is_modifier(text::ascii_lowered(text::trimmed(s))),
    ensures
        chord_of(s) == Ok::<ChordModel, Seq<char>>(
            ChordModel {
                ctrl: false,
                alt: false,
                shift: false,
                key: text::ascii_lowered(text::trimmed(s)),
            },
        ),
{
    plus_signs_part_segments(Seq::empty(), s);
    let key = text::ascii_lowered(text::trimmed(s));
    let parts = segments(s);
    assert(parts =~= seq![key]);
    reveal_with_fuel(key_segments, 2);
    assert(parts.drop_last() =~= Seq::<Seq<char>>::empty());
    assert(key_segments(parts) =~= seq![key]);
    assert(key.len() > 0);
    if parts.contains(Seq::empty()) {
        assert(parts[0] == Seq::<char>::empty());
    }
}

/// The names of the actions.
pub proof fn actions_by_name(s: Seq<char>)
    ensures
        Action::named(s) == Ok::<Action, Seq<char>>(Action::Copy) <==> s == "copy"@,
        Action::named(s) == Ok::<Action, Seq<char>>(Action::Paste) <==> s == "paste"@,
        Action::named(s) == Ok::<Action, Seq<char>>(Action::ScrollToBottom) <==> s
            == "scroll-to-bottom"@,
{
    reveal_strlit("copy");
    reveal_strlit("paste");
    reveal_strlit("scroll-to-bottom");
    assert("copy"@.len() == 4 && "paste"@.len() == 5 && "scroll-to-bottom"@.len() == 16);
}

} // verus!

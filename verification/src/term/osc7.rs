//! Working directories reported through OSC 7.
//!
//! The vt engine keeps whatever the shell last reported: for OSC 7 the raw
//! `file://<host>/<path>` URI, for OSC 9 and OSC 1337 typically a bare path.
//! This module takes the URI form apart.
use vstd::prelude::*;
use vstd::utf8::*;

use crate::config::diagnostics;
use crate::text::{self, chars_of, same, string_of, to_ascii_lowered};

verus! {

/// What lossy UTF-8 decoding makes of bytes.
pub uninterp spec fn utf8_lossy(bytes: Seq<u8>) -> Seq<char>;

/// `String::from_utf8_lossy`: the text that the bytes spell, with replacement
/// characters where they are no UTF-8. Bytes that are UTF-8 give exactly the
/// text they encode.
#[verifier::external_body]
pub(crate) fn from_utf8_lossy(bytes: &[u8]) -> (r: String)
    ensures
        r@ == utf8_lossy(bytes@),
        valid_utf8(bytes@) ==> r@ == decode_utf8(bytes@),
{
    String::from_utf8_lossy(bytes).into_owned()
}

/// The value of a hexadecimal digit of either case.
pub open spec fn hex_value(b: u8) -> Option<u8> {
    if 48 <= b <= 57 {
        Some((b - 48) as u8)
    } else if 97 <= b <= 102 {
        Some((b - 87) as u8)
    } else if 65 <= b <= 70 {
        Some((b - 55) as u8)
    } else {
        None
    }
}

/// Whether `s` starts with `%` and two hexadecimal digits.
pub open spec fn starts_escape(s: Seq<u8>) -> bool {
    s.len() >= 3 && s[0] == 0x25 && hex_value(s[1]) is Some && hex_value(s[2]) is Some
}

/// The bytes with every escape replaced by the byte it stands for. What is no
/// escape stays as it is.
pub open spec fn unescaped(s: Seq<u8>) -> Seq<u8>
    decreases s.len(),
{
    if s.len() == 0 {
        Seq::empty()
    } else if starts_escape(s) {
        seq![(16 * hex_value(s[1]).unwrap() + hex_value(s[2]).unwrap()) as u8] + unescaped(s.skip(3))
    } else {
        seq![s[0]] + unescaped(s.skip(1))
    }
}

/// The text that a percent-encoded component stands for.
pub open spec fn percent_decoded(s: Seq<char>) -> Seq<char> {
    utf8_lossy(unescaped(encode_utf8(s)))
}

fn read_hex(b: u8) -> (r: Option<u8>)
    ensures
        r == hex_value(b),
        r matches Some(v) ==> v < 16,
{
    if 48 <= b && b <= 57 {
        Some(b - 48)
    } else if 97 <= b && b <= 102 {
        Some(b - 87)
    } else if 65 <= b && b <= 70 {
        Some(b - 55)
    } else {
        None
    }
}

/// The bytes with every escape replaced by the byte it stands for.
pub fn unescape(bytes: &[u8]) -> (r: Vec<u8>)
    ensures
        r@ == unescaped(bytes@),
{
    let mut out: Vec<u8> = Vec::new();
    let mut i: usize = 0;
    assert(bytes@.skip(0) =~= bytes@);
    while i < bytes.len()
        invariant
            i <= bytes@.len(),
            out@ + unescaped(bytes@.skip(i as int)) == unescaped(bytes@),
        decreases bytes.len() - i,
    {
        let ghost rest = bytes@.skip(i as int);
        let ghost before = out@;
        let mut step: usize = 1;
        let mut b: u8 = bytes[i];
        if bytes[i] == 0x25 && bytes.len() - i > 2 {
            if let (Some(high), Some(low)) = (read_hex(bytes[i + 1]), read_hex(bytes[i + 2])) {
                b = 16 * high + low;
                step = 3;
            }
        }
        out.push(b);
        proof {
            assert(rest.skip(step as int) =~= bytes@.skip(i + step));
            assert(unescaped(rest) == seq![b] + unescaped(rest.skip(step as int)));
            assert(out@ + unescaped(bytes@.skip(i + step)) =~= before + unescaped(rest));
        }
        i += step;
    }
    assert(bytes@.skip(i as int) =~= Seq::<u8>::empty());
    assert(out@ =~= out@ + unescaped(bytes@.skip(i as int)));
    out
}

/// The text that a percent-encoded component stands for. An invalid escape is
/// kept as it is, so that no byte is lost.
pub fn percent_decode(s: &str) -> (r: String)
    ensures
        r@ == percent_decoded(s@),
        spells_utf8(s@) ==> r@ == spelled(s@),
{
    let bytes = unescape(s.as_bytes());
    from_utf8_lossy(bytes.as_slice())
}

/// The position of the first `/` in `s`, or its length.
pub open spec fn slash_position(s: Seq<char>) -> int
    decreases s.len(),
{
    if s.len() == 0 || s[0] == '/' {
        0
    } else {
        1 + slash_position(s.drop_first())
    }
}

/// Whether `s` is a slash before a drive letter and a colon.
pub open spec fn leading_slash_drive(s: Seq<char>) -> bool {
    s.len() >= 3 && s[0] == '/' && ('a' <= s[1] <= 'z' || 'A' <= s[1] <= 'Z') && s[2] == ':'
}

/// The host that a decoded authority names: none when it is empty or
/// `localhost` in any case.
pub open spec fn host_named(authority: Seq<char>) -> Option<Seq<char>> {
    if authority.len() == 0 || text::ascii_lowered(authority) == "localhost"@ {
        None
    } else {
        Some(authority)
    }
}

/// The file system path of a decoded URI path: `/C:/...` becomes `C:/...`.
pub open spec fn path_named(path: Seq<char>) -> Seq<char> {
    if leading_slash_drive(path) {
        path.drop_first()
    } else {
        path
    }
}

/// Whether the escapes of a component spell UTF-8.
pub open spec fn spells_utf8(s: Seq<char>) -> bool {
    valid_utf8(unescaped(encode_utf8(s)))
}

/// The text that a component spells, where its escapes spell UTF-8.
pub open spec fn spelled(s: Seq<char>) -> Seq<char> {
    decode_utf8(unescaped(encode_utf8(s)))
}

/// The authority of a `file://` URI: what lies between the scheme and the
/// first slash behind it.
pub open spec fn authority_in(uri: Seq<char>) -> Seq<char> {
    uri.skip(7).take(slash_position(uri.skip(7)))
}

/// The path of a `file://` URI, from its first slash on.
pub open spec fn path_in(uri: Seq<char>) -> Seq<char> {
    uri.skip(7).skip(slash_position(uri.skip(7)))
}

/// The host and path of a `file://` URI whose components read as `read` says.
pub open spec fn location_of(uri: Seq<char>, read: spec_fn(Seq<char>) -> Seq<char>) -> Option<
    (Option<Seq<char>>, Seq<char>),
> {
    if uri.len() < 7 || uri.take(7) != "file://"@ {
        None
    } else {
        Some((host_named(read(authority_in(uri))), path_named(read(path_in(uri)))))
    }
}

/// What a parsed URI says.
pub open spec fn location_model(r: Option<(Option<String>, String)>) -> Option<
    (Option<Seq<char>>, Seq<char>),
> {
    match r {
        Some((host, path)) => Some((diagnostics::text_of(host), path@)),
        None => None,
    }
}

/// The host that a decoded authority names, and the file system path of a
/// decoded URI path.
pub fn locate(authority: String, path: String) -> (r: (Option<String>, String))
    ensures
        diagnostics::text_of(r.0) == host_named(authority@),
        r.1@ == path_named(path@),
{
    let lowered = to_ascii_lowered(authority.as_str());
    let host = if authority.as_str().is_empty() || same(lowered.as_str(), "localhost") {
        None
    } else {
        Some(authority)
    };
    let chars = chars_of(path.as_str());
    let path = if chars.len() >= 3 && chars[0] == '/' && (('a' <= chars[1] && chars[1] <= 'z') || (
    'A' <= chars[1] && chars[1] <= 'Z')) && chars[2] == ':' {
        assert(path@.drop_first() =~= chars@.subrange(1, chars.len() as int));
        string_of(&chars, 1, chars.len())
    } else {
        path
    };
    (host, path)
}

proof fn lemma_slash_position(s: Seq<char>, at: int)
    requires
        0 <= at <= s.len(),
        forall|i: int| 0 <= i < at ==> #[trigger] s[i] != '/',
        at < s.len() ==> s[at] == '/',
    ensures
        slash_position(s) == at,
    decreases s.len(),
{
    if at > 0 {
        assert(s[0] != '/');
        let rest = s.drop_first();
        assert forall|i: int| 0 <= i < at - 1 implies #[trigger] rest[i] != '/' by {
            assert(rest[i] == s[i + 1]);
        }
        lemma_slash_position(rest, at - 1);
    }
}

/// Takes a `file://` URI apart: the host, unless it is empty or `localhost`,
/// and the path, both percent-decoded. Any other text is none. A component
/// whose escapes spell UTF-8 gives exactly the text that they spell.
pub fn parse_osc7_uri(uri: &str) -> (r: Option<(Option<String>, String)>)
    ensures
        location_model(r) == location_of(uri@, |s: Seq<char>| percent_decoded(s)),
        r matches Some((host, _)) ==> spells_utf8(authority_in(uri@)) ==> diagnostics::text_of(host)
            == host_named(spelled(authority_in(uri@))),
        r matches Some((_, path)) ==> spells_utf8(path_in(uri@)) ==> path@ == path_named(
            spelled(path_in(uri@)),
        ),
        !uri@.contains('%') ==> location_model(r) == location_of(uri@, |s: Seq<char>| s),
{
    let chars = chars_of(uri);
    proof {
        reveal_strlit("file://");
    }
    if chars.len() < 7 {
        return None;
    }
    let scheme = string_of(&chars, 0, 7);
    assert(uri@.take(7) =~= chars@.subrange(0, 7));
    if !same(scheme.as_str(), "file://") {
        return None;
    }
    let ghost rest = uri@.skip(7);
    let mut slash: usize = 7;
    while slash < chars.len() && chars[slash] != '/'
        invariant
            7 <= slash <= chars.len(),
            chars@ == uri@,
            rest == uri@.skip(7),
            forall|i: int| 0 <= i < slash - 7 ==> #[trigger] rest[i] != '/',
        decreases chars.len() - slash,
    {
        assert(rest[slash - 7] == chars@[slash as int]);
        slash += 1;
    }
    proof {
        if slash < chars.len() {
            assert(rest[slash - 7] == chars@[slash as int]);
        }
        lemma_slash_position(rest, slash - 7);
    }
    let authority = string_of(&chars, 7, slash);
    let path = string_of(&chars, slash, chars.len());
    assert(authority@ =~= rest.take(slash - 7));
    assert(path@ =~= rest.skip(slash - 7));
    let host_text = percent_decode(authority.as_str());
    let path_text = percent_decode(path.as_str());
    proof {
        if !uri@.contains('%') {
            assert forall|i: int| 0 <= i < authority@.len() implies #[trigger] authority@[i]
                != '%' by {
                assert(uri@[i + 7] == authority@[i]);
            }
            assert forall|i: int| 0 <= i < path@.len() implies #[trigger] path@[i] != '%' by {
                assert(uri@[i + slash] == path@[i]);
            }
            lemma_plain_text(authority@);
            lemma_plain_text(path@);
        }
    }
    let (host, path) = locate(host_text, path_text);
    Some((host, path))
}

/// Bytes in which no escape starts are left as they are.
pub proof fn no_escape_no_change(s: Seq<u8>)
    requires
        forall|i: int| 0 <= i < s.len() ==> !starts_escape(#[trigger] s.skip(i)),
    ensures
        unescaped(s) == s,
    decreases s.len(),
{
    if s.len() > 0 {
        assert(s.skip(0) =~= s);
        assert(!starts_escape(s.skip(0)));
        let rest = s.skip(1);
        assert forall|i: int| 0 <= i < rest.len() implies !starts_escape(
            #[trigger] rest.skip(i),
        ) by {
            assert(rest.skip(i) =~= s.skip(i + 1));
            assert(!starts_escape(s.skip(i + 1)));
        }
        no_escape_no_change(rest);
        assert(s =~= seq![s[0]] + rest);
    } else {
        assert(unescaped(s) =~= s);
    }
}

proof fn lemma_plain_text(s: Seq<char>)
    requires
        forall|i: int| 0 <= i < s.len() ==> #[trigger] s[i] != '%',
    ensures
        valid_utf8(unescaped(encode_utf8(s))),
        decode_utf8(unescaped(encode_utf8(s))) == s,
{
    let bytes = encode_utf8(s);
    text::lemma_ascii_byte_absent(s, 0x25);
    assert forall|i: int| 0 <= i < bytes.len() implies !starts_escape(#[trigger] bytes.skip(i)) by {
        assert(bytes.skip(i)[0] == bytes[i]);
    }
    no_escape_no_change(bytes);
    encode_utf8_valid_utf8(s);
    encode_utf8_decode_utf8(s);
}

/// A `file://` URI is its host and its path: the host is what stands before
/// the first slash, none where that is empty or `localhost`, and the path is
/// all from that slash on, without the slash before a drive letter.
pub proof fn file_uris_are_host_and_path(
    host: Seq<char>,
    path: Seq<char>,
    read: spec_fn(Seq<char>) -> Seq<char>,
)
    requires
        forall|i: int| 0 <= i < host.len() ==> #[trigger] host[i] != '/',
        path.len() == 0 || path[0] == '/',
    ensures
        authority_in("file://"@ + host + path) == host,
        path_in("file://"@ + host + path) == path,
        location_of("file://"@ + host + path, read) == Some(
            (host_named(read(host)), path_named(read(path))),
        ),
{
    reveal_strlit("file://");
    let uri = "file://"@ + host + path;
    assert(uri.skip(7) =~= host + path);
    let rest = host + path;
    assert forall|i: int| 0 <= i < host.len() implies #[trigger] rest[i] != '/' by {
        assert(rest[i] == host[i]);
    }
    if path.len() > 0 {
        assert(rest[host.len() as int] == path[0]);
    }
    lemma_slash_position(rest, host.len() as int);
    assert(rest.take(host.len() as int) =~= host);
    assert(rest.skip(host.len() as int) =~= path);
    assert(uri.take(7) =~= "file://"@);
}

/// The host is dropped where it is empty or `localhost` in any case, and kept
/// as it is otherwise. Only the slash before a drive letter and a colon is
/// taken off a path.
pub proof fn hosts_and_paths_are_kept(host: Seq<char>, path: Seq<char>, letter: char)
    ensures
        host_named(Seq::empty()) is None,
        host_named("localhost"@) is None,
        host_named(host) is None || host_named(host) == Some(host),
        host_named(host) is None ==> host.len() == 0 || text::ascii_lowered(host) == "localhost"@,
        host.len() > 0 && text::ascii_lowered(host) == "localhost"@ ==> host_named(host) is None,
        'a' <= letter <= 'z' || 'A' <= letter <= 'Z' ==> path_named(
            seq!['/', letter, ':'] + path,
        ) == seq![letter, ':'] + path,
        path.len() < 3 || path[0] != '/' || path[2] != ':' ==> path_named(path) == path,
{
    reveal_strlit("localhost");
    assert(text::ascii_lowered("localhost"@) =~= "localhost"@);
    let drive = seq!['/', letter, ':'] + path;
    assert(drive.drop_first() =~= seq![letter, ':'] + path);
}

/// An escape, a percent sign and two hexadecimal digits, stands for the byte
/// that the digits write, the higher one first; what stands before it and
/// holds no percent sign stays as it is.
pub proof fn escapes_stand_for_bytes(a: Seq<u8>, high: u8, low: u8, b: Seq<u8>)
    requires
        forall|i: int| 0 <= i < a.len() ==> #[trigger] a[i] != 0x25,
        hex_value(high) is Some,
        hex_value(low) is Some,
    ensures
        unescaped(a + seq![0x25u8, high, low] + b) == a + seq![
            (16 * hex_value(high)->0 + hex_value(low)->0) as u8,
        ] + unescaped(b),
    decreases a.len(),
{
    let s = a + seq![0x25u8, high, low] + b;
    let byte = seq![(16 * hex_value(high)->0 + hex_value(low)->0) as u8];
    if a.len() == 0 {
        assert(s.skip(3) =~= b);
        assert(unescaped(s) =~= a + byte + unescaped(b));
    } else {
        let rest = a.drop_first();
        assert(a[0] != 0x25);
        assert forall|i: int| 0 <= i < rest.len() implies #[trigger] rest[i] != 0x25 by {
            assert(rest[i] == a[i + 1]);
        }
        escapes_stand_for_bytes(rest, high, low, b);
        assert(s.skip(1) =~= rest + seq![0x25u8, high, low] + b);
        assert(s[0] == a[0]);
        assert(unescaped(s) =~= a + byte + unescaped(b));
    }
}

/// The hexadecimal digits are the usual ones, in either case.
pub proof fn escape_digits_are_standard(b: u8, v: u8)
    requires
        v < 16,
    ensures
        hex_value(b) == Some(v) <==> b == "0123456789abcdef"@[v as int] as u8 || b
            == "0123456789ABCDEF"@[v as int] as u8,
{
    reveal_strlit("0123456789abcdef");
    reveal_strlit("0123456789ABCDEF");
    assert(v == 0 || v == 1 || v == 2 || v == 3 || v == 4 || v == 5 || v == 6 || v == 7 || v == 8
        || v == 9 || v == 10 || v == 11 || v == 12 || v == 13 || v == 14 || v == 15);
}

} // verus!

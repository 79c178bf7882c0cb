//! OSC 52 clipboard requests: recognition and gating.
//!
//! The vt engine consumes OSC 52 without surfacing it, so requests are sniffed
//! out of the byte stream before it is handed on:
//!
//! ```text
//! ESC ] 52 ; <targets> ; <payload> BEL
//! ESC ] 52 ; <targets> ; <payload> ESC \
//! ```
//!
//! A payload of `?` asks for the clipboard; any other payload is base64 that
//! sets it. All targets are treated alike.
//!
//! Two gates hold whatever a program sends. A write never exceeds its size
//! cap, which is applied to the base64 text before it is decoded. A read is
//! answered only where the policy allows it.
use vstd::prelude::*;
use vstd::slice::slice_subrange;

verus! {

/// Whether programs may read the clipboard. Refusing is the safe default.
#[derive(Debug, Clone, Copy, PartialEq, Eq, Structural)]
pub enum ClipboardReadPolicy {
    /// Refuse read requests; nothing is ever written back.
    Deny,
    /// Answer read requests with the clipboard as base64.
    Allow,
}

impl Default for ClipboardReadPolicy {
    fn default() -> (r: Self)
        ensures
            r == ClipboardReadPolicy::Deny,
    {
        ClipboardReadPolicy::Deny
    }
}

/// A clipboard request found in the byte stream.
#[derive(Debug, Clone, PartialEq, Eq)]
pub enum Osc52Request {
    /// Set the clipboard to these bytes, already decoded and capped.
    Write(Vec<u8>),
    /// Report the clipboard.
    Read,
}

/// What an [`Osc52Request`] asks for.
#[verifier::ext_equal]
pub enum RequestModel {
    Write(Seq<u8>),
    Read,
}

impl View for Osc52Request {
    type V = RequestModel;

    open spec fn view(&self) -> RequestModel {
        match self {
            Osc52Request::Write(bytes) => RequestModel::Write(bytes@),
            Osc52Request::Read => RequestModel::Read,
        }
    }
}

/// What an optional request asks for.
pub open spec fn request_model(r: Option<Osc52Request>) -> Option<RequestModel> {
    match r {
        Some(r) => Some(r@),
        None => None,
    }
}

// ---- base64 ----------------------------------------------------------------

/// The base64 symbol for a 6-bit value.
pub open spec fn symbol(v: int) -> u8 {
    if v < 26 {
        (65 + v) as u8
    } else if v < 52 {
        (71 + v) as u8
    } else if v < 62 {
        (v - 4) as u8
    } else if v == 62 {
        43
    } else {
        47
    }
}

/// The 6-bit value of a base64 symbol.
pub open spec fn symbol_value(c: u8) -> Option<int> {
    if 65 <= c <= 90 {
        Some(c - 65)
    } else if 97 <= c <= 122 {
        Some(c - 71)
    } else if 48 <= c <= 57 {
        Some(c + 4)
    } else if c == 43 {
        Some(62)
    } else if c == 47 {
        Some(63)
    } else {
        None
    }
}

/// The padded base64 text of `input`, as ASCII bytes.
pub open spec fn base64_of(input: Seq<u8>) -> Seq<u8>
    decreases input.len(),
{
    if input.len() == 0 {
        Seq::empty()
    } else if input.len() == 1 {
        seq![symbol(input[0] as int / 4), symbol((input[0] % 4) * 16), 61u8, 61u8]
    } else if input.len() == 2 {
        seq![
            symbol(input[0] as int / 4),
            symbol((input[0] % 4) * 16 + input[1] / 16),
            symbol((input[1] % 16) * 4),
            61u8,
        ]
    } else {
        seq![
            symbol(input[0] as int / 4),
            symbol((input[0] % 4) * 16 + input[1] / 16),
            symbol((input[1] % 16) * 4 + input[2] / 64),
            symbol(input[2] as int % 64),
        ] + base64_of(input.skip(3))
    }
}

/// The 6-bit values of the base64 symbols in `input`; every other byte,
/// padding included, is passed over.
pub open spec fn symbol_values(input: Seq<u8>) -> Seq<int>
    decreases input.len(),
{
    if input.len() == 0 {
        Seq::empty()
    } else {
        match symbol_value(input.last()) {
            Some(v) => symbol_values(input.drop_last()).push(v),
            None => symbol_values(input.drop_last()),
        }
    }
}

/// The bytes that 6-bit values spell, four values to three bytes. Every value
/// but the first of its four completes a byte with the value before it.
pub open spec fn bytes_of(values: Seq<int>) -> Seq<u8>
    decreases values.len(),
{
    let n = values.len();
    if n == 0 {
        Seq::empty()
    } else {
        let earlier = bytes_of(values.drop_last());
        if n % 4 == 1 {
            earlier
        } else if n % 4 == 2 {
            earlier.push((values[n - 2] * 4 + values[n - 1] / 16) as u8)
        } else if n % 4 == 3 {
            earlier.push(((values[n - 2] % 16) * 16 + values[n - 1] / 4) as u8)
        } else {
            earlier.push(((values[n - 2] % 4) * 64 + values[n - 1]) as u8)
        }
    }
}

/// The bytes that a base64 text stands for.
pub open spec fn decoded(input: Seq<u8>) -> Seq<u8> {
    bytes_of(symbol_values(input))
}

fn symbol_for(v: u8) -> (r: u8)
    requires
        v < 64,
    ensures
        r == symbol(v as int),
{
    if v < 26 {
        65 + v
    } else if v < 52 {
        71 + v
    } else if v < 62 {
        v - 4
    } else if v == 62 {
        43
    } else {
        47
    }
}

fn value_for(c: u8) -> (r: Option<u32>)
    ensures
        match (r, symbol_value(c)) {
            (Some(a), Some(b)) => a == b && a < 64,
            (None, None) => true,
            _ => false,
        },
{
    if 65 <= c && c <= 90 {
        Some((c - 65) as u32)
    } else if 97 <= c && c <= 122 {
        Some((c - 71) as u32)
    } else if 48 <= c && c <= 57 {
        Some((c + 4) as u32)
    } else if c == 43 {
        Some(62)
    } else if c == 47 {
        Some(63)
    } else {
        None
    }
}

/// The padded base64 text of `input`, as ASCII bytes.
fn base64_bytes(input: &[u8]) -> (r: Vec<u8>)
    ensures
        r@ == base64_of(input@),
{
    let mut out: Vec<u8> = Vec::new();
    let mut i: usize = 0;
    assert(input@.skip(0) =~= input@);
    while input.len() - i >= 3
        invariant
            i <= input@.len(),
            out@ + base64_of(input@.skip(i as int)) == base64_of(input@),
        decreases input.len() - i,
    {
        let a = input[i];
        let b = input[i + 1];
        let c = input[i + 2];
        let ghost rest = input@.skip(i as int);
        let ghost before = out@;
        out.push(symbol_for(a / 4));
        out.push(symbol_for((a % 4) * 16 + b / 16));
        out.push(symbol_for((b % 16) * 4 + c / 64));
        out.push(symbol_for(c % 64));
        proof {
            assert(rest.skip(3) =~= input@.skip(i + 3));
            assert(out@ + base64_of(input@.skip(i + 3)) =~= before + base64_of(rest));
        }
        i += 3;
    }
    let left = input.len() - i;
    let ghost rest = input@.skip(i as int);
    let ghost before = out@;
    if left == 1 {
        let a = input[i];
        out.push(symbol_for(a / 4));
        out.push(symbol_for((a % 4) * 16));
        out.push(61);
        out.push(61);
        assert(out@ =~= before + base64_of(rest));
    } else if left == 2 {
        let a = input[i];
        let b = input[i + 1];
        out.push(symbol_for(a / 4));
        out.push(symbol_for((a % 4) * 16 + b / 16));
        out.push(symbol_for((b % 16) * 4));
        out.push(61);
        assert(out@ =~= before + base64_of(rest));
    } else {
        assert(rest =~= Seq::<u8>::empty());
        assert(out@ =~= before + base64_of(rest));
    }
    out
}

/// The padded base64 text of `input`.
pub fn base64_encode(input: &[u8]) -> (r: String)
    ensures
        r@ == base64_of(input@).map_values(|b: u8| b as char),
{
    let bytes = base64_bytes(input);
    let mut s = String::new();
    let mut i: usize = 0;
    while i < bytes.len()
        invariant
            i <= bytes.len(),
            s@ == bytes@.take(i as int).map_values(|b: u8| b as char),
        decreases bytes.len() - i,
    {
        s.push(bytes[i] as char);
        assert(bytes@.take(i + 1) =~= bytes@.take(i as int).push(bytes@[i as int]));
        i += 1;
    }
    assert(bytes@.take(i as int) =~= bytes@);
    s
}

proof fn lemma_second_byte(acc: u32, v: u32)
    by (bit_vector)
    requires
        v < 64,
    ensures
        ((((acc << 6) | v) >> 4) & 0xff) == (acc % 64) * 4 + v / 16,
        ((acc << 6) | v) % 16 == v % 16,
{
}

proof fn lemma_third_byte(acc: u32, v: u32)
    by (bit_vector)
    requires
        v < 64,
    ensures
        ((((acc << 6) | v) >> 2) & 0xff) == (acc % 16) * 16 + v / 4,
        ((acc << 6) | v) % 4 == v % 4,
{
}

proof fn lemma_fourth_byte(acc: u32, v: u32)
    by (bit_vector)
    requires
        v < 64,
    ensures
        ((((acc << 6) | v) >> 0) & 0xff) == (acc % 4) * 64 + v,
{
}

proof fn lemma_first_symbol(acc: u32, v: u32)
    by (bit_vector)
    requires
        v < 64,
    ensures
        ((acc << 6) | v) % 64 == v,
{
}

/// The bytes that a base64 text stands for. Bytes that are no base64 symbol
/// are passed over.
pub fn base64_decode(input: &[u8]) -> (r: Vec<u8>)
    ensures
        r@ == decoded(input@),
{
    let mut acc: u32 = 0;
    let mut bits: u32 = 0;
    let mut out: Vec<u8> = Vec::new();
    let mut i: usize = 0;
    assert(input@.take(0) =~= Seq::<u8>::empty());
    while i < input.len()
        invariant
            i <= input@.len(),
            out@ == bytes_of(symbol_values(input@.take(i as int))),
            ({
                let values = symbol_values(input@.take(i as int));
                let n = values.len();
                &&& n % 4 == 0 ==> bits == 0
                &&& n % 4 == 1 ==> bits == 6 && acc % 64 == values[n - 1]
                &&& n % 4 == 2 ==> bits == 4 && acc % 16 == values[n - 1] % 16
                &&& n % 4 == 3 ==> bits == 2 && acc % 4 == values[n - 1] % 4
            }),
        decreases input.len() - i,
    {
        let ghost values = symbol_values(input@.take(i as int));
        assert(input@.take(i + 1).drop_last() =~= input@.take(i as int));
        if let Some(v) = value_for(input[i]) {
            proof {
                assert(symbol_values(input@.take(i + 1)) == values.push(v as int));
                assert(values.push(v as int).drop_last() =~= values);
                lemma_first_symbol(acc, v);
                lemma_second_byte(acc, v);
                lemma_third_byte(acc, v);
                lemma_fourth_byte(acc, v);
            }
            acc = (acc << 6) | v;
            bits += 6;
            if bits >= 8 {
                bits -= 8;
                out.push(((acc >> bits) & 0xff) as u8);
            }
        }
        i += 1;
    }
    assert(input@.take(i as int) =~= input@);
    out
}

// ---- requests ----------------------------------------------------------------

/// `ESC ] 5 2 ;`
pub open spec fn introducer() -> Seq<u8> {
    seq![0x1bu8, 0x5du8, 0x35u8, 0x32u8, 0x3bu8]
}

/// Whether a request starts at position `i`.
pub open spec fn introduced_at(bytes: Seq<u8>, i: int) -> bool {
    0 <= i && i + 5 <= bytes.len() && bytes.subrange(i, i + 5) == introducer()
}

/// The position of the first byte that satisfies `p`, or the length.
pub open spec fn first_index(s: Seq<u8>, p: spec_fn(u8) -> bool) -> int
    decreases s.len(),
{
    if s.len() == 0 || p(s[0]) {
        0
    } else {
        1 + first_index(s.drop_first(), p)
    }
}

/// BEL or ESC, which ends the body of a request.
pub open spec fn ends_body() -> spec_fn(u8) -> bool {
    |b: u8| b == 0x07 || b == 0x1b
}

/// The separator between targets and payload.
pub open spec fn is_semicolon() -> spec_fn(u8) -> bool {
    |b: u8| b == 0x3b
}

/// How many base64 symbols are enough for `max` decoded bytes.
pub open spec fn symbol_budget(max: nat) -> nat {
    4 * ((max + 2) / 3)
}

/// At most `n` of the bytes of `s`.
pub open spec fn at_most(s: Seq<u8>, n: nat) -> Seq<u8> {
    if s.len() <= n {
        s
    } else {
        s.take(n as int)
    }
}

/// The bytes that a write request sets: its payload, capped and decoded.
pub open spec fn written(payload: Seq<u8>, max: nat) -> Seq<u8> {
    at_most(decoded(at_most(payload, symbol_budget(max))), max)
}

/// The request in what follows an introducer, when it is complete there: it is
/// ended by BEL or by ESC and a backslash, and has a payload.
pub open spec fn request_in(rest: Seq<u8>, max: nat) -> Option<RequestModel> {
    let end = first_index(rest, ends_body());
    if end >= rest.len() {
        None
    } else if rest[end] == 0x1b && !(end + 1 < rest.len() && rest[end + 1] == 0x5c) {
        None
    } else {
        let body = rest.take(end);
        let semi = first_index(body, is_semicolon());
        if semi >= body.len() {
            None
        } else {
            let payload = body.skip(semi + 1);
            if payload == seq![0x3fu8] {
                Some(RequestModel::Read)
            } else {
                Some(RequestModel::Write(written(payload, max)))
            }
        }
    }
}

/// The request that starts at position `i`, if a complete one does.
pub open spec fn request_at(bytes: Seq<u8>, i: int, max: nat) -> Option<RequestModel> {
    if introduced_at(bytes, i) {
        request_in(bytes.skip(i + 5), max)
    } else {
        None
    }
}

/// The first complete request at or after position `i`.
pub open spec fn first_request(bytes: Seq<u8>, i: int, max: nat) -> Option<RequestModel>
    decreases bytes.len() - i,
{
    if i >= bytes.len() {
        None
    } else {
        match request_at(bytes, i, max) {
            Some(r) => Some(r),
            None => first_request(bytes, i + 1, max),
        }
    }
}

proof fn lemma_first_index(s: Seq<u8>, p: spec_fn(u8) -> bool)
    ensures
        0 <= first_index(s, p) <= s.len(),
        forall|i: int| 0 <= i < first_index(s, p) ==> !p(#[trigger] s[i]),
        first_index(s, p) < s.len() ==> p(s[first_index(s, p)]),
    decreases s.len(),
{
    if s.len() > 0 && !p(s[0]) {
        let rest = s.drop_first();
        lemma_first_index(rest, p);
        assert forall|i: int| 0 <= i < first_index(s, p) implies !p(#[trigger] s[i]) by {
            if i > 0 {
                assert(s[i] == rest[i - 1]);
            }
        }
        if first_index(s, p) < s.len() {
            assert(s[first_index(s, p)] == rest[first_index(rest, p)]);
        }
    }
}

proof fn lemma_first_index_is(s: Seq<u8>, p: spec_fn(u8) -> bool, at: int)
    requires
        0 <= at <= s.len(),
        forall|i: int| 0 <= i < at ==> !p(#[trigger] s[i]),
        at < s.len() ==> p(s[at]),
    ensures
        first_index(s, p) == at,
{
    lemma_first_index(s, p);
    let found = first_index(s, p);
    if found < at {
        assert(!p(s[found]));
    } else if at < found {
        assert(!p(s[at]));
    }
}

fn find_end(s: &[u8]) -> (r: usize)
    ensures
        r as int == first_index(s@, ends_body()),
        r <= s@.len(),
{
    let mut i: usize = 0;
    while i < s.len() && s[i] != 0x07 && s[i] != 0x1b
        invariant
            i <= s@.len(),
            forall|j: int| 0 <= j < i ==> !(ends_body())(#[trigger] s@[j]),
        decreases s.len() - i,
    {
        i += 1;
    }
    proof {
        lemma_first_index_is(s@, ends_body(), i as int);
    }
    i
}

fn find_semicolon(s: &[u8]) -> (r: usize)
    ensures
        r as int == first_index(s@, is_semicolon()),
        r <= s@.len(),
{
    let mut i: usize = 0;
    while i < s.len() && s[i] != 0x3b
        invariant
            i <= s@.len(),
            forall|j: int| 0 <= j < i ==> !(is_semicolon())(#[trigger] s@[j]),
        decreases s.len() - i,
    {
        i += 1;
    }
    proof {
        lemma_first_index_is(s@, is_semicolon(), i as int);
    }
    i
}

/// The bytes that a write request sets. The base64 text is cut before it is
/// decoded, so that no payload can make the decoded bytes exceed the cap.
fn decode_capped(payload: &[u8], max: usize) -> (r: Vec<u8>)
    ensures
        r@ == written(payload@, max as nat),
{
    let blocks: usize = max / 3 + (if max % 3 == 0 {
        0usize
    } else {
        1usize
    });
    assert(blocks == (max + 2) / 3);
    let cut: usize = if blocks <= payload.len() / 4 {
        blocks * 4
    } else {
        payload.len()
    };
    let capped = slice_subrange(payload, 0, cut);
    assert(capped@ =~= at_most(payload@, symbol_budget(max as nat)));
    let mut out = base64_decode(capped);
    let ghost all = out@;
    out.truncate(max);
    assert(out@ =~= at_most(all, max as nat));
    out
}

fn parse_rest(rest: &[u8], max: usize) -> (r: Option<Osc52Request>)
    ensures
        request_model(r) == request_in(rest@, max as nat),
{
    let end = find_end(rest);
    if end >= rest.len() {
        return None;
    }
    if rest[end] == 0x1b && !(end + 1 < rest.len() && rest[end + 1] == 0x5c) {
        return None;
    }
    let body = slice_subrange(rest, 0, end);
    assert(body@ =~= rest@.take(end as int));
    let semi = find_semicolon(body);
    if semi >= body.len() {
        return None;
    }
    let payload = slice_subrange(body, semi + 1, body.len());
    assert(payload@ =~= body@.skip(semi + 1));
    if payload.len() == 1 && payload[0] == 0x3f {
        assert(payload@ =~= seq![0x3fu8]);
        return Some(Osc52Request::Read);
    }
    Some(Osc52Request::Write(decode_capped(payload, max)))
}

fn starts_request(bytes: &[u8], i: usize) -> (r: bool)
    requires
        i <= bytes@.len(),
    ensures
        r == introduced_at(bytes@, i as int),
{
    if bytes.len() - i < 5 {
        return false;
    }
    let r = bytes[i] == 0x1b && bytes[i + 1] == 0x5d && bytes[i + 2] == 0x35 && bytes[i + 3] == 0x32
        && bytes[i + 4] == 0x3b;
    proof {
        let head = bytes@.subrange(i as int, i + 5);
        if r {
            assert(head =~= introducer());
        } else if head == introducer() {
            assert(head[0] == 0x1b && head[1] == 0x5d && head[2] == 0x35 && head[3] == 0x32
                && head[4] == 0x3b);
        }
    }
    r
}

/// The first complete request in `bytes`. A request that is split between two
/// chunks is not recognized.
pub fn parse_osc52(bytes: &[u8], write_max_bytes: usize) -> (r: Option<Osc52Request>)
    ensures
        request_model(r) == first_request(bytes@, 0, write_max_bytes as nat),
{
    let mut i: usize = 0;
    while i < bytes.len()
        invariant
            i <= bytes@.len(),
            first_request(bytes@, i as int, write_max_bytes as nat) == first_request(
                bytes@,
                0,
                write_max_bytes as nat,
            ),
        decreases bytes.len() - i,
    {
        if starts_request(bytes, i) {
            let rest = slice_subrange(bytes, i + 5, bytes.len());
            assert(rest@ =~= bytes@.skip(i + 5));
            let found = parse_rest(rest, write_max_bytes);
            if found.is_some() {
                return found;
            }
        }
        i += 1;
    }
    None
}

/// The bytes that answer a read request: `ESC ] 52 ; c ; <base64> ESC \`.
pub open spec fn read_response(clipboard: Seq<u8>) -> Seq<u8> {
    introducer() + seq![0x63u8, 0x3bu8] + base64_of(clipboard) + seq![0x1bu8, 0x5cu8]
}

/// The answer to a read request, if the policy allows one.
pub fn respond_read(clipboard: &[u8], policy: ClipboardReadPolicy) -> (r: Option<Vec<u8>>)
    ensures
        match policy {
            ClipboardReadPolicy::Deny => r is None,
            ClipboardReadPolicy::Allow => r matches Some(bytes) && bytes@ == read_response(
                clipboard@,
            ),
        },
{
    match policy {
        ClipboardReadPolicy::Deny => None,
        ClipboardReadPolicy::Allow => {
            let mut out: Vec<u8> = Vec::new();
            out.push(0x1b);
            out.push(0x5d);
            out.push(0x35);
            out.push(0x32);
            out.push(0x3b);
            out.push(0x63);
            out.push(0x3b);
            let mut body = base64_bytes(clipboard);
            out.append(&mut body);
            out.push(0x1b);
            out.push(0x5c);
            assert(out@ =~= read_response(clipboard@));
            Some(out)
        },
    }
}

// ---- what holds of every request and answer -------------------------------------

/// No request writes more than its cap.
pub proof fn writes_are_capped(bytes: Seq<u8>, i: int, max: nat)
    ensures
        first_request(bytes, i, max) matches Some(RequestModel::Write(data)) ==> data.len() <= max,
    decreases bytes.len() - i,
{
    if i < bytes.len() && request_at(bytes, i, max) is None {
        writes_are_capped(bytes, i + 1, max);
    }
}

proof fn lemma_symbol(v: int)
    requires
        0 <= v < 64,
    ensures
        symbol_value(symbol(v)) == Some(v),
        symbol(v) != 0x07 && symbol(v) != 0x1b && symbol(v) != 0x3b && symbol(v) != 0x3f,
{
}

proof fn lemma_values_concat(a: Seq<u8>, b: Seq<u8>)
    ensures
        symbol_values(a + b) == symbol_values(a) + symbol_values(b),
    decreases b.len(),
{
    if b.len() == 0 {
        assert(a + b =~= a);
        assert(symbol_values(a) + symbol_values(b) =~= symbol_values(a));
    } else {
        lemma_values_concat(a, b.drop_last());
        assert((a + b).drop_last() =~= a + b.drop_last());
        assert(symbol_values(a + b) =~= symbol_values(a) + symbol_values(b));
    }
}

proof fn lemma_bytes_concat(a: Seq<int>, b: Seq<int>)
    requires
        a.len() % 4 == 0,
    ensures
        bytes_of(a + b) == bytes_of(a) + bytes_of(b),
    decreases b.len(),
{
    if b.len() == 0 {
        assert(a + b =~= a);
        assert(bytes_of(a) + bytes_of(b) =~= bytes_of(a));
    } else {
        lemma_bytes_concat(a, b.drop_last());
        assert((a + b).drop_last() =~= a + b.drop_last());
        assert((a + b).len() % 4 == b.len() % 4);
        assert(bytes_of(a + b) =~= bytes_of(a) + bytes_of(b));
    }
}

proof fn lemma_quad(a: u8, b: u8, c: u8)
    ensures
        ({
            let quad = seq![
                symbol(a as int / 4),
                symbol((a % 4) * 16 + b / 16),
                symbol((b % 16) * 4 + c / 64),
                symbol(c as int % 64),
            ];
            &&& symbol_values(quad).len() == 4
            &&& decoded(quad) == seq![a, b, c]
        }),
{
    let v0 = a as int / 4;
    let v1 = (a % 4) * 16 + b / 16;
    let v2 = (b % 16) * 4 + c / 64;
    let v3 = c as int % 64;
    lemma_symbol(v0);
    lemma_symbol(v1);
    lemma_symbol(v2);
    lemma_symbol(v3);
    let quad = seq![symbol(v0), symbol(v1), symbol(v2), symbol(v3)];
    reveal_with_fuel(symbol_values, 5);
    reveal_with_fuel(bytes_of, 5);
    assert(symbol_values(quad) =~= seq![v0, v1, v2, v3]);
    let values = seq![v0, v1, v2, v3];
    assert(values.drop_last() =~= seq![v0, v1, v2]);
    assert(values.drop_last().drop_last() =~= seq![v0, v1]);
    assert(values.drop_last().drop_last().drop_last() =~= seq![v0]);
    assert(bytes_of(values) =~= seq![a, b, c]);
}

proof fn lemma_pair(a: u8, b: u8)
    ensures
        decoded(
            seq![
                symbol(a as int / 4),
                symbol((a % 4) * 16 + b / 16),
                symbol((b % 16) * 4),
                61u8,
            ],
        ) == seq![a, b],
{
    let v0 = a as int / 4;
    let v1 = (a % 4) * 16 + b / 16;
    let v2 = (b % 16) * 4;
    lemma_symbol(v0);
    lemma_symbol(v1);
    lemma_symbol(v2);
    let quad = seq![symbol(v0), symbol(v1), symbol(v2), 61u8];
    reveal_with_fuel(symbol_values, 5);
    reveal_with_fuel(bytes_of, 4);
    assert(symbol_values(quad) =~= seq![v0, v1, v2]);
    let values = seq![v0, v1, v2];
    assert(values.drop_last() =~= seq![v0, v1]);
    assert(values.drop_last().drop_last() =~= seq![v0]);
    assert(bytes_of(values) =~= seq![a, b]);
}

proof fn lemma_single(a: u8)
    ensures
        decoded(seq![symbol(a as int / 4), symbol((a % 4) * 16), 61u8, 61u8]) == seq![a],
{
    let v0 = a as int / 4;
    let v1 = (a % 4) * 16;
    lemma_symbol(v0);
    lemma_symbol(v1);
    let quad = seq![symbol(v0), symbol(v1), 61u8, 61u8];
    reveal_with_fuel(symbol_values, 5);
    reveal_with_fuel(bytes_of, 3);
    assert(symbol_values(quad) =~= seq![v0, v1]);
    let values = seq![v0, v1];
    assert(values.drop_last() =~= seq![v0]);
    assert(bytes_of(values) =~= seq![a]);
}

/// Decoding gives back what was encoded.
pub proof fn base64_round_trip(input: Seq<u8>)
    ensures
        decoded(base64_of(input)) == input,
    decreases input.len(),
{
    if input.len() == 0 {
        assert(decoded(base64_of(input)) =~= input);
    } else if input.len() == 1 {
        lemma_single(input[0]);
        assert(input =~= seq![input[0]]);
    } else if input.len() == 2 {
        lemma_pair(input[0], input[1]);
        assert(input =~= seq![input[0], input[1]]);
    } else {
        let quad = seq![
            symbol(input[0] as int / 4),
            symbol((input[0] % 4) * 16 + input[1] / 16),
            symbol((input[1] % 16) * 4 + input[2] / 64),
            symbol(input[2] as int % 64),
        ];
        base64_round_trip(input.skip(3));
        lemma_quad(input[0], input[1], input[2]);
        lemma_values_concat(quad, base64_of(input.skip(3)));
        lemma_bytes_concat(symbol_values(quad), symbol_values(base64_of(input.skip(3))));
        assert(input =~= seq![input[0], input[1], input[2]] + input.skip(3));
    }
}

/// The encoded text holds neither a terminator nor a question mark, and is
/// four symbols long for every three bytes begun.
proof fn lemma_base64_shape(input: Seq<u8>)
    ensures
        base64_of(input).len() == symbol_budget(input.len()),
        forall|i: int|
            0 <= i < base64_of(input).len() ==> {
                let b = #[trigger] base64_of(input)[i];
                b != 0x07 && b != 0x1b && b != 0x3f
            },
    decreases input.len(),
{
    if input.len() >= 1 {
        lemma_symbol(input[0] as int / 4);
        lemma_symbol((input[0] % 4) * 16);
        if input.len() >= 2 {
            lemma_symbol((input[0] % 4) * 16 + input[1] / 16);
            lemma_symbol((input[1] % 16) * 4);
        }
        if input.len() >= 3 {
            lemma_symbol((input[1] % 16) * 4 + input[2] / 64);
            lemma_symbol(input[2] as int % 64);
            lemma_base64_shape(input.skip(3));
        }
    }
}

/// A payload without terminators that is no question mark is a write request.
proof fn lemma_write_request(payload: Seq<u8>, max: nat)
    requires
        forall|i: int|
            0 <= i < payload.len() ==> {
                let b = #[trigger] payload[i];
                b != 0x07 && b != 0x1b && b != 0x3f
            },
    ensures
        request_in(seq![0x63u8, 0x3bu8] + payload + seq![0x1bu8, 0x5cu8], max) == Some(
            RequestModel::Write(written(payload, max)),
        ),
{
    let rest = seq![0x63u8, 0x3bu8] + payload + seq![0x1bu8, 0x5cu8];
    let end = 2 + payload.len() as int;
    assert forall|i: int| 0 <= i < end implies !(ends_body())(#[trigger] rest[i]) by {
        if i >= 2 {
            assert(rest[i] == payload[i - 2]);
        }
    }
    lemma_first_index_is(rest, ends_body(), end);
    let body = rest.take(end);
    assert(body =~= seq![0x63u8, 0x3bu8] + payload);
    lemma_first_index_is(body, is_semicolon(), 1);
    assert(body.skip(2) =~= payload);
    if payload == seq![0x3fu8] {
        assert(payload[0] == 0x3f);
    }
}

/// What is encoded fits its own symbol budget, so that the cap takes nothing
/// from it.
proof fn lemma_written_back(clipboard: Seq<u8>, max: nat)
    requires
        clipboard.len() <= max,
    ensures
        written(base64_of(clipboard), max) == clipboard,
{
    lemma_base64_shape(clipboard);
    base64_round_trip(clipboard);
    assert(symbol_budget(clipboard.len()) <= symbol_budget(max));
}

/// A clipboard that is reported and sent back as a write request arrives
/// unchanged, as long as it fits the write cap.
pub proof fn report_reads_back(clipboard: Seq<u8>, max: nat)
    requires
        clipboard.len() <= max,
    ensures
        first_request(read_response(clipboard), 0, max) == Some(RequestModel::Write(clipboard)),
{
    let bytes = read_response(clipboard);
    let payload = base64_of(clipboard);
    lemma_base64_shape(clipboard);
    lemma_written_back(clipboard, max);
    lemma_write_request(payload, max);
    assert(bytes.subrange(0, 5) =~= introducer());
    assert(bytes.skip(5) =~= seq![0x63u8, 0x3bu8] + payload + seq![0x1bu8, 0x5cu8]);
    assert(request_at(bytes, 0, max) == Some(RequestModel::Write(clipboard)));
}

// ---- base64 as others read it -----------------------------------------------------

/// The symbols of standard base64 in the order of their values.
pub open spec fn alphabet() -> Seq<char> {
    "ABCDEFGHIJKLMNOPQRSTUVWXYZabcdefghijklmnopqrstuvwxyz0123456789+/"@
}

proof fn lemma_alphabet()
    ensures
        alphabet().len() == 64,
        forall|v: int| 0 <= v < 64 ==> #[trigger] alphabet()[v] == symbol(v) as char,
{
    reveal_strlit("ABCDEFGHIJKLMNOPQRSTUVWXYZabcdefghijklmnopqrstuvwxyz0123456789+/");
    assert(alphabet()[0] == 'A');
    assert(alphabet()[1] == 'B');
    assert(alphabet()[2] == 'C');
    assert(alphabet()[3] == 'D');
    assert(alphabet()[4] == 'E');
    assert(alphabet()[5] == 'F');
    assert(alphabet()[6] == 'G');
    assert(alphabet()[7] == 'H');
    assert(alphabet()[8] == 'I');
    assert(alphabet()[9] == 'J');
    assert(alphabet()[10] == 'K');
    assert(alphabet()[11] == 'L');
    assert(alphabet()[12] == 'M');
    assert(alphabet()[13] == 'N');
    assert(alphabet()[14] == 'O');
    assert(alphabet()[15] == 'P');
    assert(alphabet()[16] == 'Q');
    assert(alphabet()[17] == 'R');
    assert(alphabet()[18] == 'S');
    assert(alphabet()[19] == 'T');
    assert(alphabet()[20] == 'U');
    assert(alphabet()[21] == 'V');
    assert(alphabet()[22] == 'W');
    assert(alphabet()[23] == 'X');
    assert(alphabet()[24] == 'Y');
    assert(alphabet()[25] == 'Z');
    assert(alphabet()[26] == 'a');
    assert(alphabet()[27] == 'b');
    assert(alphabet()[28] == 'c');
    assert(alphabet()[29] == 'd');
    assert(alphabet()[30] == 'e');
    assert(alphabet()[31] == 'f');
    assert(alphabet()[32] == 'g');
    assert(alphabet()[33] == 'h');
    assert(alphabet()[34] == 'i');
    assert(alphabet()[35] == 'j');
    assert(alphabet()[36] == 'k');
    assert(alphabet()[37] == 'l');
    assert(alphabet()[38] == 'm');
    assert(alphabet()[39] == 'n');
    assert(alphabet()[40] == 'o');
    assert(alphabet()[41] == 'p');
    assert(alphabet()[42] == 'q');
    assert(alphabet()[43] == 'r');
    assert(alphabet()[44] == 's');
    assert(alphabet()[45] == 't');
    assert(alphabet()[46] == 'u');
    assert(alphabet()[47] == 'v');
    assert(alphabet()[48] == 'w');
    assert(alphabet()[49] == 'x');
    assert(alphabet()[50] == 'y');
    assert(alphabet()[51] == 'z');
    assert(alphabet()[52] == '0');
    assert(alphabet()[53] == '1');
    assert(alphabet()[54] == '2');
    assert(alphabet()[55] == '3');
    assert(alphabet()[56] == '4');
    assert(alphabet()[57] == '5');
    assert(alphabet()[58] == '6');
    assert(alphabet()[59] == '7');
    assert(alphabet()[60] == '8');
    assert(alphabet()[61] == '9');
    assert(alphabet()[62] == '+');
    assert(alphabet()[63] == '/');
    assert forall|v: int| 0 <= v < 64 implies #[trigger] alphabet()[v] == symbol(v) as char by {
        assert(v == 0 || v == 1 || v == 2 || v == 3 || v == 4 || v == 5 || v == 6 || v == 7 || v == 8 || v == 9 || v == 10 || v == 11 || v == 12 || v == 13 || v == 14 || v == 15 || v == 16 || v == 17 || v == 18 || v == 19 || v == 20 || v == 21 || v == 22 || v == 23 || v == 24 || v == 25 || v == 26 || v == 27 || v == 28 || v == 29 || v == 30 || v == 31 || v == 32 || v == 33 || v == 34 || v == 35 || v == 36 || v == 37 || v == 38 || v == 39 || v == 40 || v == 41 || v == 42 || v == 43 || v == 44 || v == 45 || v == 46 || v == 47 || v == 48 || v == 49 || v == 50 || v == 51 || v == 52 || v == 53 || v == 54 || v == 55 || v == 56 || v == 57 || v == 58 || v == 59 || v == 60 || v == 61 || v == 62 || v == 63);
    }
}

/// The symbols are those of standard base64, both ways: value `v` is written
/// as character `v` of the alphabet, a byte is read as the position at which
/// the alphabet has it, and no other byte is a symbol.
pub proof fn base64_alphabet_is_standard(v: int, c: u8)
    requires
        0 <= v < 64,
    ensures
        alphabet().len() == 64,
        symbol(v) as char == alphabet()[v],
        symbol_value(c) == Some(v) <==> alphabet()[v] == c as char,
        symbol_value(c) is Some <==> alphabet().contains(c as char),
{
    lemma_alphabet();
    lemma_symbol(v);
    assert(alphabet()[v] == symbol(v) as char);
    match symbol_value(c) {
        Some(w) => {
            assert(0 <= w < 64);
            assert(symbol(w) == c);
            assert(alphabet()[w] == c as char);
        },
        None => {
            if alphabet().contains(c as char) {
                let w = choose|w: int| 0 <= w < alphabet().len() && alphabet()[w] == c as char;
                lemma_symbol(w);
                assert(symbol(w) as char == c as char);
                assert(symbol(w) == c);
            }
        },
    }
}

/// The value of the symbol at position `i`; padding counts as nothing.
pub open spec fn value_at(encoded: Seq<u8>, i: int) -> int {
    match symbol_value(encoded[i]) {
        Some(v) => v,
        None => 0,
    }
}

/// The byte at position `i`, nothing behind the end.
pub open spec fn byte_at(input: Seq<u8>, i: int) -> int {
    if i < input.len() {
        input[i] as int
    } else {
        0
    }
}

/// The text is the bits of the input, most significant first: each four
/// symbols spell the 24 bits of three bytes. A padding sign stands in the
/// last four symbols for each byte that is missing there, and nowhere else.
pub proof fn base64_spells_the_bits(input: Seq<u8>, k: int)
    requires
        0 <= 3 * k < input.len(),
    ensures
        base64_of(input).len() == 4 * ((input.len() + 2) / 3),
        ({
            let e = base64_of(input);
            &&& value_at(e, 4 * k) * 0x40000 + value_at(e, 4 * k + 1) * 0x1000 + value_at(
                e,
                4 * k + 2,
            ) * 0x40 + value_at(e, 4 * k + 3) == byte_at(input, 3 * k) * 0x10000 + byte_at(
                input,
                3 * k + 1,
            ) * 0x100 + byte_at(input, 3 * k + 2)
            &&& e[4 * k] != 61 && e[4 * k + 1] != 61
            &&& e[4 * k + 2] == 61 <==> 3 * k + 1 >= input.len()
            &&& e[4 * k + 3] == 61 <==> 3 * k + 2 >= input.len()
        }),
    decreases input.len(),
{
    lemma_base64_shape(input);
    let e = base64_of(input);
    lemma_symbol(input[0] as int / 4);
    lemma_symbol((input[0] % 4) * 16);
    if input.len() >= 2 {
        lemma_symbol((input[0] % 4) * 16 + input[1] / 16);
        lemma_symbol((input[1] % 16) * 4);
    }
    if input.len() >= 3 {
        lemma_symbol((input[1] % 16) * 4 + input[2] / 64);
        lemma_symbol(input[2] as int % 64);
        let rest = input.skip(3);
        let f = base64_of(rest);
        assert(e.skip(4) =~= f);
        if k > 0 {
            base64_spells_the_bits(rest, k - 1);
            let j = k - 1;
            assert(e[4 * k] == f[4 * j] && e[4 * k + 1] == f[4 * j + 1]);
            assert(e[4 * k + 2] == f[4 * j + 2] && e[4 * k + 3] == f[4 * j + 3]);
        }
    }
}

/// Bytes that are no symbol, padding and line ends included, are passed over
/// wherever they stand.
pub proof fn other_bytes_are_passed_over(a: Seq<u8>, c: u8, b: Seq<u8>)
    requires
        !alphabet().contains(c as char),
    ensures
        decoded(a + seq![c] + b) == decoded(a + b),
{
    base64_alphabet_is_standard(0, c);
    lemma_values_concat(a + seq![c], b);
    lemma_values_concat(a, seq![c]);
    lemma_values_concat(a, b);
    reveal_with_fuel(symbol_values, 2);
    assert(seq![c].drop_last() =~= Seq::<u8>::empty());
    assert(symbol_values(seq![c]) =~= Seq::<int>::empty());
    assert(symbol_values(a) + symbol_values(seq![c]) =~= symbol_values(a));
}

// ---- requests as programs send them -------------------------------------------------

/// Whether no byte of `s` is BEL or ESC.
pub open spec fn unterminated(s: Seq<u8>) -> bool {
    forall|i: int| 0 <= i < s.len() ==> #[trigger] s[i] != 0x07 && s[i] != 0x1b
}

/// A request as a program sends it: `ESC ] 5 2 ; <targets> ; <payload>` and
/// BEL, or ESC and a backslash.
pub open spec fn sent_request(targets: Seq<u8>, payload: Seq<u8>, bell: bool) -> Seq<u8> {
    seq![0x1bu8, 0x5du8, 0x35u8, 0x32u8, 0x3bu8] + targets + seq![0x3bu8] + payload + (if bell {
        seq![0x07u8]
    } else {
        seq![0x1bu8, 0x5cu8]
    })
}

proof fn lemma_skip_quiet(bytes: Seq<u8>, i: int, at: int, max: nat)
    requires
        0 <= i <= at <= bytes.len(),
        forall|j: int| i <= j < at ==> #[trigger] bytes[j] != 0x1b,
    ensures
        first_request(bytes, i, max) == first_request(bytes, at, max),
    decreases at - i,
{
    if i < at {
        assert(bytes[i] != 0x1b);
        if introduced_at(bytes, i) {
            assert(bytes.subrange(i, i + 5)[0] == bytes[i]);
            assert(introducer()[0] == 0x1b);
        }
        lemma_skip_quiet(bytes, i + 1, at, max);
    }
}

/// Text without an escape holds no request.
pub proof fn plain_output_asks_nothing(bytes: Seq<u8>, max: nat)
    requires
        forall|j: int| 0 <= j < bytes.len() ==> #[trigger] bytes[j] != 0x1b,
    ensures
        first_request(bytes, 0, max) is None,
{
    lemma_skip_quiet(bytes, 0, bytes.len() as int, max);
}

proof fn lemma_request_found(
    before: Seq<u8>,
    targets: Seq<u8>,
    payload: Seq<u8>,
    bell: bool,
    after: Seq<u8>,
    max: nat,
)
    requires
        forall|j: int| 0 <= j < before.len() ==> #[trigger] before[j] != 0x1b,
        unterminated(targets),
        forall|j: int| 0 <= j < targets.len() ==> #[trigger] targets[j] != 0x3b,
        unterminated(payload),
    ensures
        first_request(before + sent_request(targets, payload, bell) + after, 0, max) == Some(
            if payload == seq![0x3fu8] {
                RequestModel::Read
            } else {
                RequestModel::Write(written(payload, max))
            },
        ),
{
    let request = sent_request(targets, payload, bell);
    let bytes = before + request + after;
    let at = before.len() as int;
    assert forall|j: int| 0 <= j < at implies #[trigger] bytes[j] != 0x1b by {
        assert(bytes[j] == before[j]);
    }
    lemma_skip_quiet(bytes, 0, at, max);
    assert(bytes.subrange(at, at + 5) =~= introducer());
    let rest = bytes.skip(at + 5);
    let end = targets.len() + 1 + payload.len() as int;
    let n = targets.len() as int;
    assert forall|i: int| 0 <= i < end implies !(ends_body())(#[trigger] rest[i]) by {
        if i < n {
            assert(rest[i] == targets[i]);
        } else if i > n {
            assert(rest[i] == payload[i - n - 1]);
        }
    }
    assert(rest[end] == (if bell {
        0x07u8
    } else {
        0x1bu8
    }));
    if !bell {
        assert(rest[end + 1] == 0x5c);
    }
    lemma_first_index_is(rest, ends_body(), end);
    let body = rest.take(end);
    assert(body =~= targets + seq![0x3bu8] + payload);
    assert forall|i: int| 0 <= i < n implies !(is_semicolon())(#[trigger] body[i]) by {
        assert(body[i] == targets[i]);
    }
    assert(body[n] == 0x3b);
    lemma_first_index_is(body, is_semicolon(), n);
    assert(body.skip(n + 1) =~= payload);
}

/// A program that sends a text as base64, whatever targets it names and
/// whichever terminator it uses, sets the clipboard to exactly that text, as
/// long as it fits the cap. What surrounds the request does not matter.
pub proof fn sent_text_is_written(
    before: Seq<u8>,
    targets: Seq<u8>,
    data: Seq<u8>,
    bell: bool,
    after: Seq<u8>,
    max: nat,
)
    requires
        forall|j: int| 0 <= j < before.len() ==> #[trigger] before[j] != 0x1b,
        unterminated(targets),
        forall|j: int| 0 <= j < targets.len() ==> #[trigger] targets[j] != 0x3b,
        data.len() <= max,
    ensures
        first_request(before + sent_request(targets, base64_of(data), bell) + after, 0, max)
            == Some(RequestModel::Write(data)),
{
    lemma_base64_shape(data);
    lemma_written_back(data, max);
    let payload = base64_of(data);
    if payload == seq![0x3fu8] {
        assert(payload[0] == 0x3f);
    }
    lemma_request_found(before, targets, payload, bell, after, max);
}

/// A lone question mark asks for the clipboard.
pub proof fn question_mark_reads(
    before: Seq<u8>,
    targets: Seq<u8>,
    bell: bool,
    after: Seq<u8>,
    max: nat,
)
    requires
        forall|j: int| 0 <= j < before.len() ==> #[trigger] before[j] != 0x1b,
        unterminated(targets),
        forall|j: int| 0 <= j < targets.len() ==> #[trigger] targets[j] != 0x3b,
    ensures
        first_request(before + sent_request(targets, seq![0x3fu8], bell) + after, 0, max) == Some(
            RequestModel::Read,
        ),
{
    lemma_request_found(before, targets, seq![0x3fu8], bell, after, max);
}

/// A text that is longer than the cap is cut to its first `max` bytes.
pub proof fn long_text_is_cut(
    before: Seq<u8>,
    targets: Seq<u8>,
    data: Seq<u8>,
    bell: bool,
    after: Seq<u8>,
    max: nat,
)
    requires
        forall|j: int| 0 <= j < before.len() ==> #[trigger] before[j] != 0x1b,
        unterminated(targets),
        forall|j: int| 0 <= j < targets.len() ==> #[trigger] targets[j] != 0x3b,
        data.len() > max,
    ensures
        first_request(before + sent_request(targets, base64_of(data), bell) + after, 0, max)
            == Some(RequestModel::Write(data.take(max as int))),
{
    lemma_base64_shape(data);
    let payload = base64_of(data);
    if payload == seq![0x3fu8] {
        assert(payload[0] == 0x3f);
    }
    lemma_request_found(before, targets, payload, bell, after, max);
    lemma_cut_encoding(data, (max + 2) / 3);
    let blocks = (max + 2) / 3;
    if 3 * blocks <= data.len() {
        assert(at_most(payload, symbol_budget(max)) =~= payload.take(4 * blocks as int));
        base64_round_trip(data.take(3 * blocks as int));
        assert(written(payload, max) =~= data.take(max as int));
    } else {
        assert(symbol_budget(data.len()) <= symbol_budget(max));
        assert(at_most(payload, symbol_budget(max)) == payload);
        base64_round_trip(data);
        assert(written(payload, max) =~= data.take(max as int));
    }
}

proof fn lemma_cut_encoding(data: Seq<u8>, blocks: nat)
    ensures
        3 * blocks <= data.len() ==> 4 * blocks <= base64_of(data).len() && base64_of(data).take(
            4 * blocks as int,
        ) == base64_of(data.take(3 * blocks as int)),
    decreases blocks,
{
    if 3 * blocks <= data.len() {
        let head = data.take(3 * blocks as int);
        lemma_base64_shape(data);
        if blocks > 0 {
            let less = (blocks - 1) as nat;
            let rest = data.skip(3);
            lemma_cut_encoding(rest, less);
            assert(head.skip(3) =~= rest.take(3 * less as int));
            assert(base64_of(data).take(4 * blocks as int) =~= base64_of(data).take(4)
                + base64_of(rest).take(4 * less as int));
            assert(base64_of(head) =~= base64_of(data).take(4) + base64_of(head.skip(3)));
        } else {
            assert(head =~= Seq::<u8>::empty());
            assert(base64_of(data).take(0) =~= base64_of(head));
        }
    }
}

/// The answer to a read is `ESC ] 5 2 ; c ;`, the clipboard as base64, ESC and
/// a backslash.
pub proof fn answer_is_a_request_of_its_own(clipboard: Seq<u8>)
    ensures
        read_response(clipboard) == sent_request(seq![0x63u8], base64_of(clipboard), false),
        decoded(base64_of(clipboard)) == clipboard,
{
    base64_round_trip(clipboard);
    assert(read_response(clipboard) =~= sent_request(
        seq![0x63u8],
        base64_of(clipboard),
        false,
    ));
}

/// Of several requests in a chunk the first complete one counts: it is found
/// at the first position where a complete request starts, whatever stands
/// before it, and none is found where there is no such position.
pub proof fn first_complete_request_counts(bytes: Seq<u8>, i: int, max: nat)
    requires
        0 <= i <= bytes.len(),
    ensures
        first_request(bytes, i, max) is None <==> forall|j: int|
            i <= j < bytes.len() ==> #[trigger] request_at(bytes, j, max) is None,
        first_request(bytes, i, max) is Some ==> exists|j: int|
            {
                &&& i <= j < bytes.len()
                &&& #[trigger] request_at(bytes, j, max) == first_request(bytes, i, max)
                &&& forall|k: int| i <= k < j ==> #[trigger] request_at(bytes, k, max) is None
            },
    decreases bytes.len() - i,
{
    if i < bytes.len() && request_at(bytes, i, max) is None {
        first_complete_request_counts(bytes, i + 1, max);
        if first_request(bytes, i, max) is Some {
            let j = choose|j: int|
                {
                    &&& i + 1 <= j < bytes.len()
                    &&& #[trigger] request_at(bytes, j, max) == first_request(bytes, i + 1, max)
                    &&& forall|k: int|
                        i + 1 <= k < j ==> #[trigger] request_at(bytes, k, max) is None
                };
            assert(request_at(bytes, j, max) == first_request(bytes, i, max));
        }
    }
}

/// A request without its end, or without a payload, is none.
pub proof fn unfinished_requests_are_none(targets: Seq<u8>, payload: Seq<u8>, max: nat)
    requires
        unterminated(targets),
        forall|j: int| 0 <= j < targets.len() ==> #[trigger] targets[j] != 0x3b,
        unterminated(payload),
    ensures
        request_in(targets + seq![0x3bu8] + payload, max) is None,
        request_in(targets + seq![0x3bu8] + payload + seq![0x1bu8], max) is None,
        request_in(targets + seq![0x07u8], max) is None,
{
    let n = targets.len() as int;
    let open = targets + seq![0x3bu8] + payload;
    let end = open.len() as int;
    assert forall|i: int| 0 <= i < end implies !(ends_body())(#[trigger] open[i]) by {
        if i < n {
            assert(open[i] == targets[i]);
        } else if i > n {
            assert(open[i] == payload[i - n - 1]);
        }
    }
    lemma_first_index_is(open, ends_body(), end);
    let half = open + seq![0x1bu8];
    assert forall|i: int| 0 <= i < end implies !(ends_body())(#[trigger] half[i]) by {
        assert(half[i] == open[i]);
    }
    lemma_first_index_is(half, ends_body(), end);
    let bare = targets + seq![0x07u8];
    assert forall|i: int| 0 <= i < n implies !(ends_body())(#[trigger] bare[i]) by {
        assert(bare[i] == targets[i]);
    }
    lemma_first_index_is(bare, ends_body(), n);
    assert(bare.take(n) =~= targets);
    lemma_first_index_is(targets, is_semicolon(), n);
}

} // verus!

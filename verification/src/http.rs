//! A narrowly scoped HTTP/1.1 request parser and response writer for the
//! local dashboard: `GET` requests without a body, `Connection: close`
//! responses sent in one piece. Reading and writing sockets happens in the
//! caller; this module decides what a request says and what bytes a
//! response is made of.

use vstd::prelude::*;
use vstd::string::StringSliceAdditionalSpecFns;
use vstd::utf8::{decode_utf8, encode_utf8, valid_utf8};
use crate::text::{
    chars_eq_ignore_ascii_case, chars_of, copy_range, eq_ignore_ascii_case, find_char,
    find_char_from, lemma_find_char_from_bounds, opt_int, split_from, string_of, trim, trim_chars, trim_end,
    trim_end_chars,
};
use crate::num::{parse_usize_chars, parse_usize_spec};

verus! {

/// The ASCII decimal digits of `n`, most significant first.
pub open spec fn decimal(n: nat) -> Seq<u8>
    decreases n,
{
    if n < 10 {
        seq![(48 + n) as u8]
    } else {
        decimal(n / 10) + seq![(48 + n % 10) as u8]
    }
}

/// Appends the decimal digits of `n` to `out`.
pub fn push_decimal(out: &mut Vec<u8>, n: u64)
    ensures
        final(out)@ == old(out)@ + decimal(n as nat),
    decreases n,
{
    if n < 10 {
        out.push(48u8 + n as u8);
    } else {
        push_decimal(out, n / 10);
        out.push(48u8 + (n % 10) as u8);
    }
}

/// Appends all of `bytes` to `out`.
pub fn push_bytes(out: &mut Vec<u8>, bytes: &[u8])
    ensures
        final(out)@ == old(out)@ + bytes@,
{
    let n = bytes.len();
    let mut i: usize = 0;
    while i < n
        invariant
            bytes@.len() == n,
            i <= n,
            out@ =~= old(out)@ + bytes@.subrange(0, i as int),
        decreases n - i,
    {
        out.push(bytes[i]);
        i = i + 1;
    }
    assert(bytes@.subrange(0, n as int) =~= bytes@);
}

pub open spec fn http_version_prefix() -> Seq<u8> {
    seq![72u8, 84, 84, 80, 47, 49, 46, 49, 32]
}

pub open spec fn content_type_prefix() -> Seq<u8> {
    seq![67u8, 111, 110, 116, 101, 110, 116, 45, 84, 121, 112, 101, 58, 32]
}

pub open spec fn content_length_prefix() -> Seq<u8> {
    seq![67u8, 111, 110, 116, 101, 110, 116, 45, 76, 101, 110, 103, 116, 104, 58, 32]
}

pub open spec fn connection_close_line() -> Seq<u8> {
    seq![67u8, 111, 110, 110, 101, 99, 116, 105, 111, 110, 58, 32, 99, 108, 111, 115, 101, 13, 10]
}

pub open spec fn crlf() -> Seq<u8> {
    seq![13u8, 10]
}

/// The bytes of a complete response: status line, `Content-Type`,
/// `Content-Length`, `Connection: close`, a blank line, then the body.
pub open spec fn response_bytes(status: u16, reason: Seq<u8>, content_type: Seq<u8>, body: Seq<u8>) -> Seq<u8> {
    http_version_prefix() + decimal(status as nat) + seq![32u8] + reason + crlf()
        + content_type_prefix() + content_type + crlf()
        + content_length_prefix() + decimal(body.len()) + crlf()
        + connection_close_line()
        + crlf()
        + body
}

/// Writes a complete HTTP/1.1 response to `writer`: status line,
/// `Content-Type`, `Content-Length`, `Connection: close`, a blank line,
/// then the body. Writing to memory cannot fail.
#[verifier::spinoff_prover]
#[verifier::rlimit(40)]
pub fn write_response(
    writer: &mut Vec<u8>,
    status: u16,
    reason: &str,
    content_type: &str,
    body: &[u8],
) -> (r: Result<(), std::io::Error>)
    ensures
        r is Ok,
        final(writer)@ == old(writer)@ + response_bytes(
            status,
            reason.spec_bytes(),
            content_type.spec_bytes(),
            body@,
        ),
{
    let version: [u8; 9] = [72, 84, 84, 80, 47, 49, 46, 49, 32];
    let ct: [u8; 14] = [67, 111, 110, 116, 101, 110, 116, 45, 84, 121, 112, 101, 58, 32];
    let cl: [u8; 16] = [67, 111, 110, 116, 101, 110, 116, 45, 76, 101, 110, 103, 116, 104, 58, 32];
    let close: [u8; 19] = [67, 111, 110, 110, 101, 99, 116, 105, 111, 110, 58, 32, 99, 108, 111, 115, 101, 13, 10];
    let eol: [u8; 2] = [13, 10];
    assert(version@ =~= http_version_prefix());
    assert(ct@ =~= content_type_prefix());
    assert(cl@ =~= content_length_prefix());
    assert(close@ =~= connection_close_line());
    assert(eol@ =~= crlf());
    push_bytes(writer, &version);
    push_decimal(writer, status as u64);
    writer.push(32u8);
    push_bytes(writer, reason.as_bytes());
    push_bytes(writer, &eol);
    push_bytes(writer, &ct);
    push_bytes(writer, content_type.as_bytes());
    push_bytes(writer, &eol);
    push_bytes(writer, &cl);
    push_decimal(writer, body.len() as u64);
    push_bytes(writer, &eol);
    push_bytes(writer, &close);
    push_bytes(writer, &eol);
    push_bytes(writer, body);
    assert(writer@ =~= old(writer)@ + response_bytes(
        status,
        reason.spec_bytes(),
        content_type.spec_bytes(),
        body@,
    ));
    Ok(())
}


// ---------------------------------------------------------------------------
// Errors
// ---------------------------------------------------------------------------

/// Why a request could not be read.
#[derive(Debug)]
pub enum HttpError {
    Io(std::io::Error),
    MalformedRequestLine,
    HeadersTooLarge,
    TooManyHeaders,
}

/// Bound on the request line plus headers, in bytes.
pub const MAX_HEADER_BYTES: usize = 16384;
/// Bound on the number of header lines.
pub const MAX_HEADERS: usize = 100;
/// Bound on how much of a request body is drained.
pub const MAX_BODY_BYTES: usize = 16384;

// ---------------------------------------------------------------------------
// Percent decoding
// ---------------------------------------------------------------------------

/// The value of an ASCII hexadecimal digit.
pub open spec fn hex_value(b: u8) -> Option<u8> {
    if 48 <= b <= 57 {
        Some((b - 48) as u8)
    } else if 97 <= b <= 102 {
        Some((b - 97 + 10) as u8)
    } else if 65 <= b <= 70 {
        Some((b - 65 + 10) as u8)
    } else {
        None
    }
}

/// The value of an ASCII hexadecimal digit.
fn hex_val(b: u8) -> (r: Option<u8>)
    ensures
        r == hex_value(b),
{
    if 48 <= b && b <= 57 {
        Some(b - 48)
    } else if 97 <= b && b <= 102 {
        Some(b - 97 + 10)
    } else if 65 <= b && b <= 70 {
        Some(b - 65 + 10)
    } else {
        None
    }
}

/// Percent-decoding of `b[i..]` on bytes: `+` becomes a space, `%hh`
/// (with two hex digits, and not at the very end) becomes the byte `hh`,
/// everything else is copied.
pub open spec fn percent_decode_bytes(b: Seq<u8>, i: int) -> Seq<u8>
    decreases b.len() - i,
{
    if i < 0 || i >= b.len() {
        Seq::empty()
    } else if b[i] == 43 {
        seq![32u8] + percent_decode_bytes(b, i + 1)
    } else if b[i] == 37 && i + 2 < b.len() && hex_value(b[i + 1]) is Some && hex_value(
        b[i + 2],
    ) is Some {
        seq![(hex_value(b[i + 1])->0 * 16 + hex_value(b[i + 2])->0) as u8]
            + percent_decode_bytes(b, i + 3)
    } else {
        seq![b[i]] + percent_decode_bytes(b, i + 1)
    }
}

/// The characters `String::from_utf8_lossy` produces for `bytes`.
pub uninterp spec fn utf8_lossy(bytes: Seq<u8>) -> Seq<char>;

/// Trusted: calls `String::from_utf8_lossy(bytes).into_owned()`. The
/// contract names the result `utf8_lossy(bytes)` and states the documented
/// fact that valid UTF-8 decodes to exactly its characters; how invalid
/// sequences are replaced is left unstated.
#[verifier::external_body]
fn string_from_utf8_lossy(bytes: &[u8]) -> (s: String)
    ensures
        s@ == utf8_lossy(bytes@),
        valid_utf8(bytes@) ==> s@ == decode_utf8(bytes@),
{
    String::from_utf8_lossy(bytes).into_owned()
}

/// What `percent_decode` yields for the text `s`: the decoded bytes read
/// as UTF-8 (their characters when they are valid UTF-8, otherwise what
/// lossy decoding makes of them).
pub open spec fn percent_decoded(s: Seq<char>) -> Seq<char> {
    let b = percent_decode_bytes(encode_utf8(s), 0);
    if valid_utf8(b) {
        decode_utf8(b)
    } else {
        utf8_lossy(b)
    }
}

/// Percent-decodes `s` byte by byte (never splitting a character), decoding
/// `+` as a space, then reads the bytes as UTF-8, replacing invalid
/// sequences.
pub fn percent_decode(s: &str) -> (r: String)
    ensures
        r@ == percent_decoded(s@),
{
    let bytes = s.as_bytes();
    let n = bytes.len();
    let mut out: Vec<u8> = Vec::new();
    let mut i: usize = 0;
    assert(bytes@ == encode_utf8(s@));
    while i < n
        invariant
            bytes@.len() == n,
            i <= n,
            percent_decode_bytes(bytes@, 0) == out@ + percent_decode_bytes(bytes@, i as int),
        decreases n - i,
    {
        let b = bytes[i];
        if b == 43 {
            out.push(32u8);
            i = i + 1;
        } else if b == 37 && n >= 2 && i < n - 2 {
            match (hex_val(bytes[i + 1]), hex_val(bytes[i + 2])) {
                (Some(h), Some(l)) => {
                    out.push(h * 16 + l);
                    i = i + 3;
                },
                _ => {
                    out.push(37u8);
                    i = i + 1;
                },
            }
        } else {
            out.push(b);
            i = i + 1;
        }
    }
    assert(percent_decode_bytes(bytes@, i as int) =~= Seq::<u8>::empty());
    assert(out@ =~= percent_decode_bytes(bytes@, 0));
    string_from_utf8_lossy(&out)
}


// ---------------------------------------------------------------------------
// Query strings
// ---------------------------------------------------------------------------

/// The value the last pair with key `k` gives it, if any.
pub open spec fn last_value(pairs: Seq<(Seq<char>, Seq<char>)>, k: Seq<char>) -> Option<Seq<char>>
    decreases pairs.len(),
{
    if pairs.len() == 0 {
        None
    } else if pairs.last().0 == k {
        Some(pairs.last().1)
    } else {
        last_value(pairs.drop_last(), k)
    }
}

/// The map made by inserting `pairs` in order (a later key overwrites).
pub open spec fn pairs_map(pairs: Seq<(Seq<char>, Seq<char>)>) -> Map<Seq<char>, Seq<char>> {
    Map::new(|k: Seq<char>| last_value(pairs, k) is Some, |k: Seq<char>| last_value(pairs, k)->0)
}

/// Decoded query parameters. Inserting a key again replaces its value.
#[derive(Debug)]
pub struct QueryMap {
    pairs: Vec<(String, String)>,
}

impl QueryMap {
    pub closed spec fn pair_views(&self) -> Seq<(Seq<char>, Seq<char>)> {
        self.pairs@.map_values(|p: (String, String)| (p.0@, p.1@))
    }

    /// An empty map.
    pub fn new() -> (r: QueryMap)
        ensures
            r@ == Map::<Seq<char>, Seq<char>>::empty(),
    {
        let r = QueryMap { pairs: Vec::new() };
        assert(r@ =~= Map::<Seq<char>, Seq<char>>::empty());
        r
    }

    /// Sets `key` to `value`.
    pub fn insert(&mut self, key: String, value: String)
        ensures
            final(self)@ == old(self)@.insert(key@, value@),
    {
        let ghost before = self.pair_views();
        self.pairs.push((key, value));
        proof {
            assert(self.pair_views().drop_last() =~= before);
            assert(self@ =~= old(self)@.insert(key@, value@));
        }
    }

    /// The value of `key`, if present.
    pub fn get(&self, key: &str) -> (r: Option<&String>)
        ensures
            match r {
                Some(v) => self@.contains_key(key@) && self@[key@] == v@,
                None => !self@.contains_key(key@),
            },
    {
        let owned = key.to_owned();
        let mut i = self.pairs.len();
        assert(self.pair_views().subrange(0, i as int) =~= self.pair_views());
        while i > 0
            invariant
                i <= self.pairs@.len(),
                owned@ == key@,
                last_value(self.pair_views(), key@) == last_value(self.pair_views().subrange(0, i as int), key@),
            decreases i,
        {
            let ghost prefix = self.pair_views().subrange(0, i as int);
            assert(prefix.drop_last() =~= self.pair_views().subrange(0, i - 1));
            if self.pairs[i - 1].0 == owned {
                return Some(&self.pairs[i - 1].1);
            }
            i = i - 1;
        }
        None
    }

    /// Whether `key` is present.
    pub fn contains_key(&self, key: &str) -> (r: bool)
        ensures
            r == self@.contains_key(key@),
    {
        self.get(key).is_some()
    }

    /// Whether no key is present.
    pub fn is_empty(&self) -> (r: bool)
        ensures
            r == (self@ == Map::<Seq<char>, Seq<char>>::empty()),
    {
        if self.pairs.len() == 0 {
            assert(self@ =~= Map::<Seq<char>, Seq<char>>::empty());
            true
        } else {
            let ghost k = self.pair_views().last().0;
            assert(self@.contains_key(k));
            false
        }
    }
}

impl View for QueryMap {
    type V = Map<Seq<char>, Seq<char>>;

    closed spec fn view(&self) -> Map<Seq<char>, Seq<char>> {
        pairs_map(self.pair_views())
    }
}

/// One `key=value` piece: split at its first `=`; a piece without `=` is a
/// key with an empty value.
pub open spec fn split_pair(piece: Seq<char>) -> (Seq<char>, Seq<char>) {
    match find_char_from(piece, 0, '=') {
        Some(i) => (piece.subrange(0, i), piece.subrange(i + 1, piece.len() as int)),
        None => (piece, Seq::empty()),
    }
}

/// The decoded pairs of the non-empty pieces, in order.
pub open spec fn query_pairs(pieces: Seq<Seq<char>>) -> Seq<(Seq<char>, Seq<char>)>
    decreases pieces.len(),
{
    if pieces.len() == 0 {
        Seq::empty()
    } else {
        let rest = query_pairs(pieces.drop_last());
        let piece = pieces.last();
        if piece.len() == 0 {
            rest
        } else {
            let (k, v) = split_pair(piece);
            rest.push((percent_decoded(k), percent_decoded(v)))
        }
    }
}

/// The parameters of a query string: `&`-separated pieces, empty pieces
/// skipped, each split at its first `=` and percent-decoded; a later key
/// overwrites an earlier one.
pub open spec fn query_of(raw: Seq<char>) -> Map<Seq<char>, Seq<char>> {
    pairs_map(query_pairs(split_from(raw, 0, '&')))
}

proof fn lemma_pairs_map_push(pairs: Seq<(Seq<char>, Seq<char>)>, k: Seq<char>, v: Seq<char>)
    ensures
        pairs_map(pairs.push((k, v))) == pairs_map(pairs).insert(k, v),
{
    assert(pairs.push((k, v)).drop_last() =~= pairs);
    assert(pairs_map(pairs.push((k, v))) =~= pairs_map(pairs).insert(k, v));
}

proof fn lemma_query_pairs_append(a: Seq<Seq<char>>, piece: Seq<char>)
    ensures
        query_pairs(a.push(piece)) == (if piece.len() == 0 {
            query_pairs(a)
        } else {
            query_pairs(a).push((percent_decoded(split_pair(piece).0), percent_decoded(split_pair(piece).1)))
        }),
{
    assert(a.push(piece).drop_last() =~= a);
}

/// Splits `piece` at its first `=`.
fn split_pair_of(piece: &[char]) -> (r: (Vec<char>, Vec<char>))
    ensures
        (r.0@, r.1@) == split_pair(piece@),
{
    let n = piece.len();
    match find_char(piece, 0, '=') {
        Some(i) => {
            proof { lemma_find_char_from_bounds(piece@, 0, '='); }
            (copy_range(piece, 0, i), copy_range(piece, i + 1, n))
        },
        None => {
            let k = copy_range(piece, 0, n);
            assert(k@ =~= piece@);
            let v: Vec<char> = Vec::new();
            assert(v@ =~= Seq::<char>::empty());
            (k, v)
        },
    }
}

/// Parses a query string into its decoded parameters.
pub fn parse_query(raw: &str) -> (r: QueryMap)
    ensures
        r@ == query_of(raw@),
{
    let chars = chars_of(raw);
    let n = chars.len();
    let mut out = QueryMap::new();
    let mut start: usize = 0;
    let ghost mut done: Seq<Seq<char>> = Seq::empty();
    assert(out@ =~= pairs_map(query_pairs(done)));
    loop
        invariant
            chars@ == raw@,
            chars@.len() == n,
            start <= n,
            split_from(chars@, 0, '&') == done + split_from(chars@, start as int, '&'),
            out@ == pairs_map(query_pairs(done)),
        decreases n - start,
    {
        proof { lemma_find_char_from_bounds(chars@, start as int, '&'); }
        let (end, last) = match find_char(&chars, start, '&') {
            Some(i) => (i, false),
            None => (n, true),
        };
        let piece = copy_range(&chars, start, end);
        let ghost piece_view = piece@;
        if piece.len() > 0 {
            let (k, v) = split_pair_of(&piece);
            let key = percent_decode(string_of(&k).as_str());
            let value = percent_decode(string_of(&v).as_str());
            proof {
                lemma_pairs_map_push(query_pairs(done), key@, value@);
            }
            out.insert(key, value);
        }
        proof {
            lemma_query_pairs_append(done, piece_view);
            if !last {
                assert(split_from(chars@, start as int, '&') == seq![piece_view] + split_from(
                    chars@,
                    end + 1,
                    '&',
                ));
                assert(done + split_from(chars@, start as int, '&') =~= done.push(piece_view)
                    + split_from(chars@, end + 1, '&'));
            } else {
                assert(done + split_from(chars@, start as int, '&') =~= done.push(piece_view));
            }
            done = done.push(piece_view);
        }
        if last {
            assert(done =~= split_from(chars@, 0, '&'));
            return out;
        }
        start = end + 1;
    }
}


// ---------------------------------------------------------------------------
// Requests
// ---------------------------------------------------------------------------

/// A parsed request: method, path and decoded query parameters.
#[derive(Debug)]
pub struct ParsedRequest {
    pub method: String,
    pub path: String,
    pub query: QueryMap,
}

/// The method and target of a request line: the line without trailing
/// white space, split at spaces; the first piece is the method, the second
/// the target (the HTTP version that follows is ignored). `None` when
/// either is missing or empty.
pub open spec fn request_line_parts(line: Seq<char>) -> Option<(Seq<char>, Seq<char>)> {
    let t = trim_end(line);
    match find_char_from(t, 0, ' ') {
        None => None,
        Some(i1) => {
            let method = t.subrange(0, i1);
            let target_end = match find_char_from(t, i1 + 1, ' ') {
                Some(i2) => i2,
                None => t.len() as int,
            };
            let target = t.subrange(i1 + 1, target_end);
            if method.len() == 0 || target.len() == 0 {
                None
            } else {
                Some((method, target))
            }
        },
    }
}

/// A target's path (before the first `?`) and raw query string (after it).
pub open spec fn target_parts(target: Seq<char>) -> (Seq<char>, Seq<char>) {
    match find_char_from(target, 0, '?') {
        Some(q) => (target.subrange(0, q), target.subrange(q + 1, target.len() as int)),
        None => (target, Seq::empty()),
    }
}

/// Parses a request line (`METHOD TARGET VERSION`) into method, path and
/// query; a missing or empty method or target is a malformed request line.
pub fn parse_request_line(line: &str) -> (r: Result<ParsedRequest, HttpError>)
    ensures
        match request_line_parts(line@) {
            None => r matches Err(HttpError::MalformedRequestLine),
            Some((method, target)) => r matches Ok(req) && req.method@ == method && req.path@
                == target_parts(target).0 && req.query@ == query_of(target_parts(target).1),
        },
{
    let raw = chars_of(line);
    let t = trim_end_chars(&raw);
    let n = t.len();
    let i1 = match find_char(&t, 0, ' ') {
        Some(i) => i,
        None => return Err(HttpError::MalformedRequestLine),
    };
    proof { lemma_find_char_from_bounds(t@, 0, ' '); }
    let target_end = match find_char(&t, i1 + 1, ' ') {
        Some(i2) => i2,
        None => n,
    };
    proof { lemma_find_char_from_bounds(t@, i1 + 1, ' '); }
    let method = copy_range(&t, 0, i1);
    let target = copy_range(&t, i1 + 1, target_end);
    if method.len() == 0 || target.len() == 0 {
        return Err(HttpError::MalformedRequestLine);
    }
    let tn = target.len();
    let (path, query_raw) = match find_char(&target, 0, '?') {
        Some(q) => {
            proof { lemma_find_char_from_bounds(target@, 0, '?'); }
            (copy_range(&target, 0, q), copy_range(&target, q + 1, tn))
        },
        None => {
            let p = copy_range(&target, 0, tn);
            assert(p@ =~= target@);
            let e: Vec<char> = Vec::new();
            assert(e@ =~= Seq::<char>::empty());
            (p, e)
        },
    };
    let query_text = string_of(&query_raw);
    let query = parse_query(query_text.as_str());
    Ok(ParsedRequest { method: string_of(&method), path: string_of(&path), query })
}

/// Progress through the header lines of one request.
#[derive(Debug, Clone, Copy, PartialEq, Eq, Structural)]
pub struct HeaderState {
    /// Bytes read so far, request line included.
    pub total: usize,
    /// Header lines seen so far.
    pub header_count: usize,
    /// The `Content-Length` announced so far (0 when absent or invalid).
    pub content_length: usize,
}

/// What to do after one header line.
#[derive(Debug)]
pub enum HeaderStep {
    /// Read another line.
    Continue(HeaderState),
    /// The headers are over; drain this many body bytes.
    Done(usize),
    /// Reject the request.
    Failed(HttpError),
}

/// The state after a request line of `request_line_bytes` bytes.
pub fn start_headers(request_line_bytes: usize) -> (r: HeaderState)
    ensures
        r.total == request_line_bytes,
        r.header_count == 0,
        r.content_length == 0,
{
    HeaderState { total: request_line_bytes, header_count: 0, content_length: 0 }
}

pub open spec fn content_length_name() -> Seq<char> {
    seq!['c', 'o', 'n', 't', 'e', 'n', 't', '-', 'l', 'e', 'n', 'g', 't', 'h']
}

/// The `Content-Length` a header line sets: `None` when the line is not a
/// `Content-Length` header (name compared ignoring ASCII case and
/// surrounding white space), otherwise its value, or 0 when the value is
/// not a valid `usize`.
pub open spec fn header_content_length(line: Seq<char>) -> Option<int> {
    match find_char_from(line, 0, ':') {
        Some(i) => if eq_ignore_ascii_case(trim(line.subrange(0, i)), content_length_name()) {
            match parse_usize_spec(trim(line.subrange(i + 1, line.len() as int))) {
                Some(v) => Some(v),
                None => Some(0),
            }
        } else {
            None
        },
        None => None,
    }
}

/// Whether a header line ends the headers: end of input or a blank line.
pub open spec fn ends_headers(line: Seq<char>) -> bool {
    line.len() == 0 || line == seq!['\r', '\n'] || line == seq!['\n']
}

/// One header line (as read, line ending included; empty at end of input):
/// the byte total grows by the line's size and must stay within
/// `MAX_HEADER_BYTES`; a blank line or end of input ends the headers; at
/// most `MAX_HEADERS` header lines are accepted; a `Content-Length` header
/// records the body size.
pub fn header_step(state: HeaderState, line: &str) -> (r: HeaderStep)
    ensures
        ({
            let total = state.total + encode_utf8(line@).len();
            if total > MAX_HEADER_BYTES {
                r matches HeaderStep::Failed(HttpError::HeadersTooLarge)
            } else if ends_headers(line@) {
                r matches HeaderStep::Done(drain) && drain <= MAX_BODY_BYTES && drain == (if state.content_length
                    < MAX_BODY_BYTES {
                    state.content_length
                } else {
                    MAX_BODY_BYTES
                })
            } else if state.header_count >= MAX_HEADERS {
                r matches HeaderStep::Failed(HttpError::TooManyHeaders)
            } else {
                r matches HeaderStep::Continue(next) && next.total == total && next.total
                    <= MAX_HEADER_BYTES && next.header_count <= MAX_HEADERS && next.header_count
                    == state.header_count + 1 && next.content_length == (match header_content_length(
                    line@,
                ) {
                    Some(v) => v,
                    None => state.content_length as int,
                })
            }
        }),
{
    proof { vstd::utf8::encode_utf8_valid_utf8(line@); }
    let nbytes = line.as_bytes().len();
    assert(line.spec_bytes() == encode_utf8(line@));
    assert(nbytes == encode_utf8(line@).len());
    let total = match state.total.checked_add(nbytes) {
        Some(t) => t,
        None => return HeaderStep::Failed(HttpError::HeadersTooLarge),
    };
    if total > MAX_HEADER_BYTES {
        return HeaderStep::Failed(HttpError::HeadersTooLarge);
    }
    let chars = chars_of(line);
    let crlf_chars = ['\r', '\n'];
    let lf_chars = ['\n'];
    assert(crlf_chars@ =~= seq!['\r', '\n']);
    assert(lf_chars@ =~= seq!['\n']);
    proof {
        if line@.len() == 0 {
            assert(encode_utf8(line@) =~= Seq::<u8>::empty());
        }
        if nbytes == 0 {
            vstd::utf8::encode_utf8_decode_utf8(line@);
            assert(encode_utf8(line@) =~= Seq::<u8>::empty());
            assert(decode_utf8(Seq::<u8>::empty()) =~= Seq::<char>::empty());
        }
        assert(nbytes == 0 <==> line@.len() == 0);
    }
    if nbytes == 0 || crate::text::chars_eq(&chars, &crlf_chars) || crate::text::chars_eq(&chars, &lf_chars) {
        let drain = if state.content_length < MAX_BODY_BYTES { state.content_length } else { MAX_BODY_BYTES };
        return HeaderStep::Done(drain);
    }
    if state.header_count >= MAX_HEADERS {
        return HeaderStep::Failed(HttpError::TooManyHeaders);
    }
    let content_length = match content_length_of(&chars) {
        Some(v) => v,
        None => state.content_length,
    };
    HeaderStep::Continue(HeaderState { total, header_count: state.header_count + 1, content_length })
}

/// The `Content-Length` a header line sets, if it is one.
fn content_length_of(line: &[char]) -> (r: Option<usize>)
    ensures
        opt_int(r) == header_content_length(line@),
{
    let n = line.len();
    let colon = match find_char(line, 0, ':') {
        Some(i) => i,
        None => return None,
    };
    proof { lemma_find_char_from_bounds(line@, 0, ':'); }
    let name_raw = copy_range(line, 0, colon);
    let name = trim_chars(&name_raw);
    let expected = ['c', 'o', 'n', 't', 'e', 'n', 't', '-', 'l', 'e', 'n', 'g', 't', 'h'];
    assert(expected@ =~= content_length_name());
    if !chars_eq_ignore_ascii_case(&name, &expected) {
        return None;
    }
    let value_raw = copy_range(line, colon + 1, n);
    let value = trim_chars(&value_raw);
    match parse_usize_chars(&value) {
        Some(v) => Some(v),
        None => Some(0),
    }
}


// ---------------------------------------------------------------------------
// Reading lines within the bound
// ---------------------------------------------------------------------------

/// How many bytes the next line may take when `total` bytes have been
/// read: one more than what is left of `MAX_HEADER_BYTES`, so that a line
/// that does not end within it already passes the bound.
pub open spec fn line_budget_of(total: int) -> int {
    MAX_HEADER_BYTES - total + 1
}

/// The most bytes to read for the next line after `total` bytes (see
/// [`line_budget_of`]). A reader that stops there holds at most
/// `MAX_HEADER_BYTES + 1` bytes of any line.
pub fn line_budget(total: usize) -> (r: usize)
    requires
        total <= MAX_HEADER_BYTES,
    ensures
        r == line_budget_of(total as int),
        1 <= r <= MAX_HEADER_BYTES + 1,
{
    MAX_HEADER_BYTES - total + 1
}

/// Whether `n` more bytes, after `total`, pass the bound on header bytes
/// (the request line counts too).
pub fn exceeds_header_bytes(total: usize, n: usize) -> (r: bool)
    requires
        total <= MAX_HEADER_BYTES,
    ensures
        r == (total + n > MAX_HEADER_BYTES),
{
    n > MAX_HEADER_BYTES - total
}

/// Reading at most the budget decides as reading the whole line would: a
/// line of `n` bytes, of which a bounded reader takes `min(n, budget)`,
/// passes the bound exactly when the whole line does, and the bounded
/// reader never holds more than `MAX_HEADER_BYTES + 1` bytes of it.
pub proof fn law_bounded_read_decides_as_the_whole_line(total: int, n: int)
    requires
        0 <= total <= MAX_HEADER_BYTES,
        0 <= n,
    ensures
        ({
            let taken = if n < line_budget_of(total) {
                n
            } else {
                line_budget_of(total)
            };
            &&& (total + taken > MAX_HEADER_BYTES) == (total + n > MAX_HEADER_BYTES)
            &&& taken <= MAX_HEADER_BYTES + 1
        }),
{
}

// ---------------------------------------------------------------------------
// Reading a whole request
// ---------------------------------------------------------------------------

/// The lines that successive `read_line` calls return for the text
/// `s[start..]`: each runs up to and including a `\n`, and the last one
/// may lack it.
pub open spec fn read_lines_from(s: Seq<char>, start: int) -> Seq<Seq<char>>
    decreases s.len() - start,
{
    if start < 0 || start >= s.len() {
        Seq::empty()
    } else {
        match find_char_from(s, start, '\n') {
            Some(i) => if start <= i < s.len() {
                seq![s.subrange(start, i + 1)] + read_lines_from(s, i + 1)
            } else {
                Seq::empty()
            },
            None => seq![s.subrange(start, s.len() as int)],
        }
    }
}

/// How the headers of a request end.
pub enum HeadersEnd {
    /// After a blank line or the end of input, with this many body bytes
    /// to drain.
    Drain(int),
    TooLarge,
    TooMany,
}

/// How the header lines `lines[i..]` end, from `total` bytes read,
/// `count` header lines seen and `content_length` announced so far; past
/// the last line, reading yields an empty line (end of input).
pub open spec fn headers_end(lines: Seq<Seq<char>>, i: int, total: int, count: int, content_length: int) -> HeadersEnd
    decreases lines.len() - i,
{
    let line = if 0 <= i < lines.len() {
        lines[i]
    } else {
        Seq::empty()
    };
    let t = total + encode_utf8(line).len();
    if t > MAX_HEADER_BYTES {
        HeadersEnd::TooLarge
    } else if ends_headers(line) {
        HeadersEnd::Drain(if content_length < MAX_BODY_BYTES { content_length } else { MAX_BODY_BYTES as int })
    } else if count >= MAX_HEADERS {
        HeadersEnd::TooMany
    } else if i < 0 || i >= lines.len() {
        HeadersEnd::Drain(0)
    } else {
        headers_end(
            lines,
            i + 1,
            t,
            count + 1,
            match header_content_length(line) {
                Some(v) => v,
                None => content_length,
            },
        )
    }
}

fn read_lines_of(s: &[char]) -> (r: Vec<Vec<char>>)
    ensures
        crate::text::views_of(r@) == read_lines_from(s@, 0),
{
    let n = s.len();
    let mut out: Vec<Vec<char>> = Vec::new();
    let mut start: usize = 0;
    assert(crate::text::views_of(out@) =~= Seq::<Seq<char>>::empty());
    while start < n
        invariant
            n == s@.len(),
            start <= n,
            read_lines_from(s@, 0) == crate::text::views_of(out@) + read_lines_from(s@, start as int),
        decreases n - start,
    {
        proof {
            lemma_find_char_from_bounds(s@, start as int, '\n');
        }
        let end = match find_char(s, start, '\n') {
            Some(i) => i + 1,
            None => n,
        };
        let piece = copy_range(s, start, end);
        let ghost before = crate::text::views_of(out@);
        out.push(piece);
        assert(crate::text::views_of(out@) =~= before.push(s@.subrange(start as int, end as int)));
        if end == n {
            assert(read_lines_from(s@, end as int) =~= Seq::<Seq<char>>::empty());
        }
        assert(before + read_lines_from(s@, start as int) =~= crate::text::views_of(out@) + read_lines_from(
            s@,
            end as int,
        ));
        start = end;
    }
    assert(crate::text::views_of(out@) + Seq::<Seq<char>>::empty() =~= crate::text::views_of(out@));
    out
}

/// Reads one request from the text `raw`, as a server reads it from a
/// connection: the request line, then header lines up to a blank line or
/// the end of input, within the bounds on header bytes (the request line
/// included, so an over-long request line is refused as too large) and on
/// header lines. A body is not part of the result.
pub fn read_request_text(raw: &str) -> (r: Result<ParsedRequest, HttpError>)
    ensures
        ({
            let lines = read_lines_from(raw@, 0);
            if lines.len() == 0 {
                r matches Err(HttpError::MalformedRequestLine)
            } else if encode_utf8(lines[0]).len() > MAX_HEADER_BYTES {
                r matches Err(HttpError::HeadersTooLarge)
            } else {
                match request_line_parts(lines[0]) {
                    None => r matches Err(HttpError::MalformedRequestLine),
                    Some((method, target)) => match headers_end(lines, 1, encode_utf8(lines[0]).len() as int, 0, 0) {
                        HeadersEnd::TooLarge => r matches Err(HttpError::HeadersTooLarge),
                        HeadersEnd::TooMany => r matches Err(HttpError::TooManyHeaders),
                        HeadersEnd::Drain(_) => r matches Ok(req) && req.method@ == method && req.path@
                            == target_parts(target).0 && req.query@ == query_of(target_parts(target).1),
                    },
                }
            }
        }),
{
    let chars = chars_of(raw);
    let lines = read_lines_of(&chars);
    let ghost lv = crate::text::views_of(lines@);
    let n = lines.len();
    if n == 0 {
        return Err(HttpError::MalformedRequestLine);
    }
    assert(lines@[0]@ == lv[0]);
    let first = string_of(&lines[0]);
    proof {
        vstd::utf8::encode_utf8_valid_utf8(first@);
    }
    let first_str = first.as_str();
    let first_len = first_str.as_bytes().len();
    assert(first_str.spec_bytes() == encode_utf8(first@));
    if exceeds_header_bytes(0, first_len) {
        return Err(HttpError::HeadersTooLarge);
    }
    let req = parse_request_line(first.as_str())?;
    let mut state = start_headers(first_len);
    let mut i: usize = 1;
    loop
        invariant
            n == lines@.len(),
            lv == crate::text::views_of(lines@),
            lv == read_lines_from(raw@, 0),
            lv.len() == n,
            1 <= i <= n,
            first_len == encode_utf8(lv[0]).len(),
            request_line_parts(lv[0]) matches Some((method, target)) && req.method@ == method
                && req.path@ == target_parts(target).0 && req.query@ == query_of(target_parts(target).1),
            headers_end(lv, 1, first_len as int, 0, 0) == headers_end(
                lv,
                i as int,
                state.total as int,
                state.header_count as int,
                state.content_length as int,
            ),
        decreases n + 1 - i,
    {
        let line = if i < n {
            assert(lines@[i as int]@ == lv[i as int]);
            string_of(&lines[i])
        } else {
            String::new()
        };
        match header_step(state, line.as_str()) {
            HeaderStep::Continue(next) => {
                state = next;
                i = i + 1;
                if i > n {
                    return Ok(req);
                }
            },
            HeaderStep::Done(_) => {
                return Ok(req);
            },
            HeaderStep::Failed(e) => {
                return Err(e);
            },
        }
    }
}

// ---------------------------------------------------------------------------
// Laws
// ---------------------------------------------------------------------------

proof fn lemma_percent_decode_bytes_identity(b: Seq<u8>, i: int)
    requires
        0 <= i <= b.len(),
        forall|j: int| 0 <= j < b.len() ==> b[j] != 37 && b[j] != 43,
    ensures
        percent_decode_bytes(b, i) == b.subrange(i, b.len() as int),
    decreases b.len() - i,
{
    if i < b.len() {
        lemma_percent_decode_bytes_identity(b, i + 1);
        assert(seq![b[i]] + b.subrange(i + 1, b.len() as int) =~= b.subrange(i, b.len() as int));
    } else {
        assert(b.subrange(i, b.len() as int) =~= Seq::<u8>::empty());
    }
}

/// ASCII text without `%` and `+` percent-decodes to itself.
pub proof fn law_percent_decode_plain_ascii(s: Seq<char>)
    requires
        vstd::utf8::is_ascii_chars(s),
        forall|j: int| 0 <= j < s.len() ==> s[j] != '%' && s[j] != '+',
    ensures
        percent_decoded(s) == s,
{
    vstd::utf8::is_ascii_chars_encode_utf8(s);
    let b = encode_utf8(s);
    assert forall|j: int| 0 <= j < b.len() implies b[j] != 37 && b[j] != 43 by {
        assert(b[j] == s[j] as u8);
    }
    lemma_percent_decode_bytes_identity(b, 0);
    assert(b.subrange(0, b.len() as int) =~= b);
    vstd::utf8::encode_utf8_valid_utf8(s);
    vstd::utf8::encode_utf8_decode_utf8(s);
}

/// The last occurrence of a key in a query wins.
pub proof fn law_query_last_key_wins(
    pairs: Seq<(Seq<char>, Seq<char>)>,
    k: Seq<char>,
    v: Seq<char>,
)
    ensures
        pairs_map(pairs.push((k, v))).contains_key(k),
        pairs_map(pairs.push((k, v)))[k] == v,
{
    assert(pairs.push((k, v)).last() == (k, v));
}

} // verus!

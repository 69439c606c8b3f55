//! The frame codec: a block of `Name: value` header lines closed by a blank
//! line, followed by exactly `Content-Length` bytes of body.
use vstd::prelude::*;
use vstd::string::StringSliceAdditionalSpecFns;
use crate::decimal::{
    all_digits, decimal_bytes, decimal_of, digits_value, is_digit, lemma_decimal_of, parse_digits,
};

verus! {

/// One header line of a frame.
#[derive(Debug, Clone, Copy, PartialEq, Eq, Structural)]
pub enum LspHeader {
    ContentType,
    ContentLength(usize),
}

/// Why a header line was refused.
#[derive(Debug, Clone, Copy, PartialEq, Eq, Structural)]
pub enum HeaderError {
    /// The line does not hold the separator `": "` exactly once.
    Malformed,
    /// The name is neither `content-length` nor `content-type`.
    UnknownName,
    /// The value of `content-length` is not a decimal that fits in `usize`.
    BadLength,
}

/// Why no frame could be read from the bytes at hand.
#[derive(Debug, Clone, Copy, PartialEq, Eq, Structural)]
pub enum FrameError {
    /// The bytes end before the header block or the body is complete.
    Truncated,
    /// The header block closed without a `content-length` header.
    MissingLength,
    /// A header line was refused.
    Header(HeaderError),
}

pub open spec fn is_space(b: u8) -> bool {
    b == 32 || (9 <= b && b <= 13)
}

pub open spec fn trim_front(s: Seq<u8>) -> Seq<u8>
    decreases s.len(),
{
    if s.len() > 0 && is_space(s[0]) {
        trim_front(s.drop_first())
    } else {
        s
    }
}

pub open spec fn trim_back(s: Seq<u8>) -> Seq<u8>
    decreases s.len(),
{
    if s.len() > 0 && is_space(s.last()) {
        trim_back(s.drop_last())
    } else {
        s
    }
}

/// The bytes with the leading and trailing white space taken off.
pub open spec fn trim(s: Seq<u8>) -> Seq<u8> {
    trim_back(trim_front(s))
}

pub open spec fn lower(b: u8) -> u8 {
    if 65 <= b && b <= 90 {
        (b + 32) as u8
    } else {
        b
    }
}

/// `s` equals the lower-case `name` once its ASCII capitals are lowered.
pub open spec fn same_name(s: Seq<u8>, name: Seq<u8>) -> bool {
    s.len() == name.len() && forall|i: int| 0 <= i < s.len() ==> lower(#[trigger] s[i]) == name[i]
}

pub open spec fn content_length_name() -> Seq<u8> {
    seq![99u8, 111, 110, 116, 101, 110, 116, 45, 108, 101, 110, 103, 116, 104]
}

pub open spec fn content_type_name() -> Seq<u8> {
    seq![99u8, 111, 110, 116, 101, 110, 116, 45, 116, 121, 112, 101]
}

/// What follows an optional leading `+`.
pub open spec fn digits_part(s: Seq<u8>) -> Seq<u8> {
    if s.len() > 0 && s[0] == 43 {
        s.drop_first()
    } else {
        s
    }
}

/// An unsigned decimal: an optional `+`, then one digit or more.
pub open spec fn unsigned_text(s: Seq<u8>) -> Option<nat> {
    let d = digits_part(s);
    if d.len() > 0 && all_digits(d) {
        Some(digits_value(d))
    } else {
        None
    }
}

/// An unsigned decimal whose value fits in `usize`.
pub open spec fn usize_text(s: Seq<u8>) -> Option<usize> {
    match unsigned_text(s) {
        Some(n) => if n <= usize::MAX {
            Some(n as usize)
        } else {
            None
        },
        None => None,
    }
}

/// The separator `": "` starts at index `i` of `s`.
pub open spec fn is_sep(s: Seq<u8>, i: int) -> bool {
    0 <= i && i + 1 < s.len() && s[i] == 58 && s[i + 1] == 32
}

pub open spec fn single_sep(s: Seq<u8>, p: int) -> bool {
    is_sep(s, p) && forall|q: int| #[trigger] is_sep(s, q) ==> q == p
}

/// What one header line says: the line splits on `": "` into exactly a
/// name and a value, each trimmed; the name is matched without regard to
/// ASCII case.
pub open spec fn header_of(line: Seq<u8>) -> Result<LspHeader, HeaderError> {
    if exists|p: int| single_sep(line, p) {
        let p = choose|p: int| single_sep(line, p);
        let name = trim(line.subrange(0, p));
        let value = trim(line.subrange(p + 2, line.len() as int));
        if same_name(name, content_type_name()) {
            Ok(LspHeader::ContentType)
        } else if same_name(name, content_length_name()) {
            match usize_text(value) {
                Some(n) => Ok(LspHeader::ContentLength(n)),
                None => Err(HeaderError::BadLength),
            }
        } else {
            Err(HeaderError::UnknownName)
        }
    } else {
        Err(HeaderError::Malformed)
    }
}

/// The index of the first line feed at or after `pos`, or `s.len()` if none.
pub open spec fn line_end(s: Seq<u8>, pos: int) -> int
    decreases s.len() - pos,
{
    if pos < 0 || pos >= s.len() {
        s.len() as int
    } else if s[pos] == 10 {
        pos
    } else {
        line_end(s, pos + 1)
    }
}

/// A line ends at or after where it starts, at a line feed or at the end.
pub proof fn lemma_line_end_bounds(s: Seq<u8>, pos: int)
    requires
        0 <= pos <= s.len(),
    ensures
        pos <= line_end(s, pos) <= s.len(),
        line_end(s, pos) < s.len() ==> s[line_end(s, pos)] == 10,
    decreases s.len() - pos,
{
    if pos < s.len() && s[pos] != 10 {
        lemma_line_end_bounds(s, pos + 1);
    }
}

/// Reads the header lines from `pos` on, with `len` the last length seen;
/// gives where the body starts and the length that counts.
pub open spec fn headers_from(s: Seq<u8>, pos: int, len: Option<usize>) -> Result<
    (int, usize),
    FrameError,
>
    decreases s.len() - pos,
{
    if pos < 0 || pos >= s.len() {
        Err(FrameError::Truncated)
    } else {
        let e = line_end(s, pos);
        proof {
            lemma_line_end_bounds(s, pos);
        }
        if e >= s.len() {
            Err(FrameError::Truncated)
        } else {
            let line = s.subrange(pos, e + 1);
            if trim(line).len() == 0 {
                match len {
                    Some(n) => Ok((e + 1, n)),
                    None => Err(FrameError::MissingLength),
                }
            } else {
                match header_of(line) {
                    Err(h) => Err(FrameError::Header(h)),
                    Ok(LspHeader::ContentLength(n)) => headers_from(s, e + 1, Some(n)),
                    Ok(LspHeader::ContentType) => headers_from(s, e + 1, len),
                }
            }
        }
    }
}

/// The first frame of `s`: where its body starts and how long it is.
pub open spec fn frame_of(s: Seq<u8>) -> Result<(int, usize), FrameError> {
    match headers_from(s, 0, None) {
        Ok((start, n)) => if start + n <= s.len() {
            Ok((start, n))
        } else {
            Err(FrameError::Truncated)
        },
        Err(e) => Err(e),
    }
}

proof fn lemma_trim_front_skip(s: Seq<u8>, lo: int, hi: int)
    requires
        0 <= lo < hi <= s.len(),
        is_space(s[lo]),
    ensures
        trim_front(s.subrange(lo, hi)) == trim_front(s.subrange(lo + 1, hi)),
{
    assert(s.subrange(lo, hi).drop_first() =~= s.subrange(lo + 1, hi));
}

proof fn lemma_trim_back_skip(s: Seq<u8>, lo: int, hi: int)
    requires
        0 <= lo < hi <= s.len(),
        is_space(s[hi - 1]),
    ensures
        trim_back(s.subrange(lo, hi)) == trim_back(s.subrange(lo, hi - 1)),
{
    assert(s.subrange(lo, hi).drop_last() =~= s.subrange(lo, hi - 1));
}

/// The bounds of `trim(buf[lo..hi])` within `buf`.
fn trim_range(buf: &[u8], lo: usize, hi: usize) -> (r: (usize, usize))
    requires
        lo <= hi <= buf@.len(),
    ensures
        lo <= r.0 <= r.1 <= hi,
        buf@.subrange(r.0 as int, r.1 as int) == trim(buf@.subrange(lo as int, hi as int)),
{
    let mut a: usize = lo;
    while a < hi && (buf[a] == 32 || (9 <= buf[a] && buf[a] <= 13))
        invariant
            lo <= a <= hi <= buf@.len(),
            trim_front(buf@.subrange(lo as int, hi as int)) == trim_front(
                buf@.subrange(a as int, hi as int),
            ),
        decreases hi - a,
    {
        proof {
            lemma_trim_front_skip(buf@, a as int, hi as int);
        }
        a = a + 1;
    }
    assert(trim_front(buf@.subrange(a as int, hi as int)) == buf@.subrange(a as int, hi as int));
    let mut b: usize = hi;
    while b > a && (buf[b - 1] == 32 || (9 <= buf[b - 1] && buf[b - 1] <= 13))
        invariant
            lo <= a <= b <= hi <= buf@.len(),
            trim(buf@.subrange(lo as int, hi as int)) == trim_back(
                buf@.subrange(a as int, b as int),
            ),
        decreases b - a,
    {
        proof {
            lemma_trim_back_skip(buf@, a as int, b as int);
        }
        b = b - 1;
    }
    (a, b)
}


/// The first separator at or after `from` in `buf[lo..hi]`, as an index of
/// `buf`; `hi` where there is none.
fn find_sep(buf: &[u8], lo: usize, hi: usize, from: usize) -> (r: usize)
    requires
        lo <= from <= hi <= buf@.len(),
    ensures
        from <= r <= hi,
        r < hi ==> is_sep(buf@.subrange(lo as int, hi as int), r - lo),
        forall|q: int|
            from - lo <= q < r - lo ==> !#[trigger] is_sep(buf@.subrange(lo as int, hi as int), q),
{
    let ghost s = buf@.subrange(lo as int, hi as int);
    let mut i: usize = from;
    while hi - i >= 2
        invariant
            lo <= from <= i <= hi <= buf@.len(),
            s == buf@.subrange(lo as int, hi as int),
            forall|q: int| from - lo <= q < i - lo ==> !#[trigger] is_sep(s, q),
        decreases hi - i,
    {
        if buf[i] == 58 && buf[i + 1] == 32 {
            return i;
        }
        i = i + 1;
    }
    assert forall|q: int| from - lo <= q < hi - lo implies !#[trigger] is_sep(s, q) by {
        if q >= i - lo {
            assert(q + 1 >= s.len());
        }
    }
    hi
}

/// Compares `buf[a..b]` with a lower-case name, lowering ASCII capitals.
fn name_matches(buf: &[u8], a: usize, b: usize, name: &Vec<u8>) -> (r: bool)
    requires
        a <= b <= buf@.len(),
    ensures
        r == same_name(buf@.subrange(a as int, b as int), name@),
{
    let ghost s = buf@.subrange(a as int, b as int);
    if b - a != name.len() {
        return false;
    }
    let mut i: usize = 0;
    while i < name.len()
        invariant
            a <= b <= buf@.len(),
            s == buf@.subrange(a as int, b as int),
            s.len() == name@.len(),
            i <= name@.len(),
            forall|j: int| 0 <= j < i ==> lower(#[trigger] s[j]) == name@[j],
        decreases name@.len() - i,
    {
        let c = buf[a + i];
        let l: u8 = if 65 <= c && c <= 90 {
            c + 32
        } else {
            c
        };
        assert(s[i as int] == c);
        if l != name[i] {
            return false;
        }
        i = i + 1;
    }
    true
}

fn content_length_bytes() -> (r: Vec<u8>)
    ensures
        r@ == content_length_name(),
{
    let r = vec![99u8, 111, 110, 116, 101, 110, 116, 45, 108, 101, 110, 103, 116, 104];
    assert(r@ =~= content_length_name());
    r
}

fn content_type_bytes() -> (r: Vec<u8>)
    ensures
        r@ == content_type_name(),
{
    let r = vec![99u8, 111, 110, 116, 101, 110, 116, 45, 116, 121, 112, 101];
    assert(r@ =~= content_type_name());
    r
}

/// Reads `buf[a..b]` as an unsigned decimal that fits in `usize`.
fn parse_usize(buf: &[u8], a: usize, b: usize) -> (r: Option<usize>)
    requires
        a <= b <= buf@.len(),
    ensures
        r == usize_text(buf@.subrange(a as int, b as int)),
{
    let ghost s = buf@.subrange(a as int, b as int);
    let st: usize = if a < b && buf[a] == 43 {
        a + 1
    } else {
        a
    };
    if a < b && buf[a] == 43 {
        assert(s.drop_first() =~= buf@.subrange(st as int, b as int));
    } else {
        assert(s =~= buf@.subrange(st as int, b as int));
    }
    match parse_digits(buf, st, b) {
        Some(v) => {
            if v <= usize::MAX as u64 {
                Some(v as usize)
            } else {
                None
            }
        },
        None => None,
    }
}

/// Reads the header line `buf[lo..hi]`.
fn header_in(buf: &[u8], lo: usize, hi: usize) -> (r: Result<LspHeader, HeaderError>)
    requires
        lo <= hi <= buf@.len(),
    ensures
        r == header_of(buf@.subrange(lo as int, hi as int)),
{
    let ghost s = buf@.subrange(lo as int, hi as int);
    let p = find_sep(buf, lo, hi, lo);
    if p == hi {
        assert(!exists|p: int| single_sep(s, p)) by {
            assert forall|q: int| !single_sep(s, q) by {
                if 0 <= q < s.len() {
                    assert(!is_sep(s, q));
                }
            }
        }
        return Err(HeaderError::Malformed);
    }
    let p2 = find_sep(buf, lo, hi, p + 1);
    if p2 < hi {
        assert(!exists|q: int| single_sep(s, q)) by {
            assert forall|q: int| !single_sep(s, q) by {
                if single_sep(s, q) {
                    assert(is_sep(s, p - lo));
                    assert(is_sep(s, p2 - lo));
                }
            }
        }
        return Err(HeaderError::Malformed);
    }
    let ghost pp: int = p - lo;
    assert(single_sep(s, pp)) by {
        assert forall|q: int| #[trigger] is_sep(s, q) implies q == pp by {
            if q < pp {
                assert(0 <= q);
            } else if q > pp {
                assert(p + 1 - lo <= q);
            }
        }
    }
    assert((choose|q: int| single_sep(s, q)) == pp);
    assert(s.subrange(0, pp) =~= buf@.subrange(lo as int, p as int));
    assert(s.subrange(pp + 2, s.len() as int) =~= buf@.subrange(p + 2, hi as int));
    let (na, nb) = trim_range(buf, lo, p);
    let (va, vb) = trim_range(buf, p + 2, hi);
    if name_matches(buf, na, nb, &content_type_bytes()) {
        Ok(LspHeader::ContentType)
    } else if name_matches(buf, na, nb, &content_length_bytes()) {
        match parse_usize(buf, va, vb) {
            Some(n) => Ok(LspHeader::ContentLength(n)),
            None => Err(HeaderError::BadLength),
        }
    } else {
        Err(HeaderError::UnknownName)
    }
}

/// Parses one header line, `Name: value` with optional white space around
/// either part; the name is matched without regard to ASCII case.
pub fn parse_header(line: &str) -> (r: Result<LspHeader, HeaderError>)
    ensures
        r == header_of(line.spec_bytes()),
{
    let b = line.as_bytes();
    assert(b@.subrange(0, b@.len() as int) =~= b@);
    header_in(b, 0, b.len())
}

fn find_newline(buf: &[u8], pos: usize) -> (r: usize)
    requires
        pos <= buf@.len(),
    ensures
        r == line_end(buf@, pos as int),
{
    let mut i: usize = pos;
    while i < buf.len() && buf[i] != 10
        invariant
            pos <= i <= buf@.len(),
            line_end(buf@, pos as int) == line_end(buf@, i as int),
        decreases buf@.len() - i,
    {
        i = i + 1;
    }
    i
}

/// Reads the first frame of `buf`, the bytes of a stream up to where it
/// ends or up to what has arrived: gives where its body starts and how long
/// it is. `Truncated` means the bytes end before the frame does.
pub fn read_frame(buf: &[u8]) -> (r: Result<(usize, usize), FrameError>)
    ensures
        match r {
            Ok((start, n)) => frame_of(buf@) == Ok::<(int, usize), FrameError>((start as int, n)),
            Err(e) => frame_of(buf@) == Err::<(int, usize), FrameError>(e),
        },
{
    let mut pos: usize = 0;
    let mut len: Option<usize> = None;
    loop
        invariant
            pos <= buf@.len(),
            headers_from(buf@, 0, None) == headers_from(buf@, pos as int, len),
        decreases buf@.len() - pos,
    {
        if pos >= buf.len() {
            return Err(FrameError::Truncated);
        }
        let e = find_newline(buf, pos);
        proof {
            lemma_line_end_bounds(buf@, pos as int);
        }
        if e >= buf.len() {
            return Err(FrameError::Truncated);
        }
        let (a, b) = trim_range(buf, pos, e + 1);
        if a == b {
            match len {
                Some(n) => {
                    if n > buf.len() - (e + 1) {
                        return Err(FrameError::Truncated);
                    }
                    return Ok((e + 1, n));
                },
                None => {
                    return Err(FrameError::MissingLength);
                },
            }
        }
        match header_in(buf, pos, e + 1) {
            Err(h) => {
                return Err(FrameError::Header(h));
            },
            Ok(LspHeader::ContentLength(n)) => {
                len = Some(n);
            },
            Ok(LspHeader::ContentType) => {},
        }
        pos = e + 1;
    }
}

/// `Content-Length: `, the start of the one header that a written frame has.
pub open spec fn length_prefix() -> Seq<u8> {
    seq![67u8, 111, 110, 116, 101, 110, 116, 45, 76, 101, 110, 103, 116, 104, 58, 32]
}

pub open spec fn crlf() -> Seq<u8> {
    seq![13u8, 10]
}

/// The frame that carries `body`: its length header, a blank line, then the
/// body itself.
pub open spec fn frame_bytes(body: Seq<u8>) -> Seq<u8> {
    length_prefix() + decimal_of(body.len()) + crlf() + crlf() + body
}

/// Frames `body` for writing: `Content-Length: <n>` with `n` the byte
/// length of the body, a blank line, then the body.
pub fn write_frame(body: &[u8]) -> (r: Vec<u8>)
    ensures
        r@ == frame_bytes(body@),
{
    let mut r = vec![67u8, 111, 110, 116, 101, 110, 116, 45, 76, 101, 110, 103, 116, 104, 58, 32];
    assert(r@ =~= length_prefix());
    let mut d = decimal_bytes(body.len() as u64);
    r.append(&mut d);
    r.push(13u8);
    r.push(10u8);
    r.push(13u8);
    r.push(10u8);
    let mut i: usize = 0;
    let ghost head = r@;
    while i < body.len()
        invariant
            i <= body@.len(),
            r@ == head + body@.subrange(0, i as int),
        decreases body@.len() - i,
    {
        r.push(body[i]);
        i = i + 1;
        assert(r@ =~= head + body@.subrange(0, i as int));
    }
    assert(body@.subrange(0, body@.len() as int) =~= body@);
    assert(r@ =~= frame_bytes(body@));
    r
}

proof fn lemma_line_end_at(s: Seq<u8>, pos: int, e: int)
    requires
        0 <= pos <= e < s.len(),
        s[e] == 10,
        forall|j: int| pos <= j < e ==> s[j] != 10,
    ensures
        line_end(s, pos) == e,
    decreases e - pos,
{
    if pos < e {
        lemma_line_end_at(s, pos + 1, e);
    }
}

proof fn lemma_trim_back_keeps_first(s: Seq<u8>)
    requires
        s.len() > 0,
        !is_space(s[0]),
    ensures
        trim_back(s).len() > 0,
    decreases s.len(),
{
    if is_space(s.last()) {
        lemma_trim_back_keeps_first(s.drop_last());
    }
}

/// The header line of a written frame reads back as its length.
proof fn lemma_length_line(d: Seq<u8>, n: usize)
    requires
        d == decimal_of(n as nat),
    ensures
        header_of(length_prefix() + d + crlf()) == Ok::<LspHeader, HeaderError>(
            LspHeader::ContentLength(n),
        ),
{
    lemma_decimal_of(n as nat);
    let pre = length_prefix();
    let line = pre + d + crlf();
    let k: int = 16 + d.len() as int;
    assert(line.len() == k + 2);
    assert forall|q: int| #[trigger] is_sep(line, q) implies q == 14 by {
        if q < 16 {
            assert(line[q] == pre[q]);
        } else if q < k {
            assert(line[q] == d[q - 16]);
        }
    }
    assert(is_sep(line, 14));
    assert(single_sep(line, 14));
    assert((choose|p: int| single_sep(line, p)) == 14);
    let name = line.subrange(0, 14);
    assert(name =~= pre.subrange(0, 14));
    assert(trim_front(name) == name);
    assert(trim_back(name) == name);
    assert(same_name(name, content_length_name()));
    let v = line.subrange(16, k + 2);
    assert(v =~= d + crlf());
    assert(!is_space(v[0]));
    assert(trim_front(v) == v);
    assert(v.drop_last() =~= d.push(13u8));
    assert(d.push(13u8).drop_last() =~= d);
    assert(!is_space(d.last()));
    assert(trim_back(d) == d);
    assert(trim_back(v) == trim_back(d.push(13u8)));
    assert(trim_back(d.push(13u8)) == trim_back(d));
    assert(trim(v) == d);
    assert(digits_part(d) == d);
}

/// Reading back a written frame, whatever bytes follow it, gives the body
/// that was written.
#[verifier::rlimit(40)]
pub proof fn lemma_frame_round_trip(body: Seq<u8>, rest: Seq<u8>)
    requires
        body.len() <= usize::MAX,
    ensures
        ({
            let s = frame_bytes(body) + rest;
            let start = frame_bytes(body).len() - body.len();
            &&& frame_of(s) == Ok::<(int, usize), FrameError>((start, body.len() as usize))
            &&& s.subrange(start, start + body.len()) == body
        }),
{
    let n = body.len() as usize;
    let d = decimal_of(n as nat);
    lemma_decimal_of(n as nat);
    let pre = length_prefix();
    let s = frame_bytes(body) + rest;
    let k: int = 16 + d.len() as int;
    assert(s.len() == k + 4 + n + rest.len());
    assert forall|j: int| 0 <= j < k implies s[j] != 10 by {
        if j < 16 {
            assert(s[j] == pre[j]);
        } else {
            assert(s[j] == d[j - 16]);
        }
    }
    assert(s[k] == 13 && s[k + 1] == 10 && s[k + 2] == 13 && s[k + 3] == 10);
    lemma_line_end_at(s, 0, k + 1);
    let line = s.subrange(0, k + 2);
    assert(line =~= pre + d + crlf());
    lemma_length_line(d, n);
    assert(line[0] == 67);
    assert(trim_front(line) == line);
    lemma_trim_back_keeps_first(line);
    lemma_line_end_at(s, k + 2, k + 3);
    let blank = s.subrange(k + 2, k + 4);
    assert(blank =~= crlf());
    assert(blank.drop_first() =~= seq![10u8]);
    assert(seq![10u8].drop_first() =~= Seq::<u8>::empty());
    assert(trim_front(blank) == trim_front(seq![10u8]));
    assert(trim_front(seq![10u8]) == trim_front(Seq::<u8>::empty()));
    assert(trim(blank).len() == 0);
    assert(headers_from(s, k + 2, Some(n)) == Ok::<(int, usize), FrameError>((k + 4, n)));
    assert(s.subrange(k + 4, k + 4 + n) =~= body);
}

/// Where the declared length runs past the end of the bytes, the frame is
/// not read: no shorter body is handed out.
pub proof fn lemma_short_body(s: Seq<u8>)
    requires
        headers_from(s, 0, None) matches Ok((start, n)) && start + n > s.len(),
    ensures
        frame_of(s) == Err::<(int, usize), FrameError>(FrameError::Truncated),
{
}

/// The bytes with their ASCII capitals lowered.
pub open spec fn lower_all(s: Seq<u8>) -> Seq<u8> {
    s.map_values(|b: u8| lower(b))
}

proof fn lemma_lower_sub(s: Seq<u8>, a: int, b: int)
    requires
        0 <= a <= b <= s.len(),
    ensures
        lower_all(s).subrange(a, b) == lower_all(s.subrange(a, b)),
{
    assert(lower_all(s).subrange(a, b) =~= lower_all(s.subrange(a, b)));
}

proof fn lemma_trim_front_lower(s: Seq<u8>)
    ensures
        trim_front(lower_all(s)) == lower_all(trim_front(s)),
    decreases s.len(),
{
    if s.len() > 0 && is_space(s[0]) {
        assert(lower_all(s).drop_first() =~= lower_all(s.drop_first()));
        lemma_trim_front_lower(s.drop_first());
    }
}

proof fn lemma_trim_back_lower(s: Seq<u8>)
    ensures
        trim_back(lower_all(s)) == lower_all(trim_back(s)),
    decreases s.len(),
{
    if s.len() > 0 && is_space(s.last()) {
        assert(lower_all(s).drop_last() =~= lower_all(s.drop_last()));
        lemma_trim_back_lower(s.drop_last());
    }
}

proof fn lemma_trim_lower(s: Seq<u8>)
    ensures
        trim(lower_all(s)) == lower_all(trim(s)),
{
    lemma_trim_front_lower(s);
    lemma_trim_back_lower(trim_front(s));
}

proof fn lemma_usize_text_lower(v: Seq<u8>)
    ensures
        usize_text(lower_all(v)) == usize_text(v),
{
    let w = lower_all(v);
    let d = digits_part(v);
    if v.len() > 0 && v[0] == 43 {
        assert(digits_part(w) =~= lower_all(d));
    } else {
        assert(digits_part(w) =~= lower_all(d));
    }
    if all_digits(d) {
        assert(lower_all(d) =~= d);
    } else {
        let i = choose|i: int| 0 <= i < d.len() && !is_digit(#[trigger] d[i]);
        assert(!is_digit(lower_all(d)[i]));
    }
}

proof fn lemma_same_name_lower(s: Seq<u8>, name: Seq<u8>)
    ensures
        same_name(lower_all(s), name) == same_name(s, name),
{
    let w = lower_all(s);
    assert forall|i: int| 0 <= i < s.len() implies lower(#[trigger] w[i]) == lower(s[i]) by {}
    if same_name(s, name) {
        assert forall|i: int| 0 <= i < w.len() implies lower(#[trigger] w[i]) == name[i] by {
            assert(lower(s[i]) == name[i]);
        }
    }
    if same_name(w, name) {
        assert forall|i: int| 0 <= i < s.len() implies lower(#[trigger] s[i]) == name[i] by {
            assert(lower(w[i]) == name[i]);
        }
    }
}

/// Header lines are read without regard to ASCII case: lowering every
/// capital of a line changes nothing of what it says.
pub proof fn lemma_header_ignores_case(line: Seq<u8>)
    ensures
        header_of(lower_all(line)) == header_of(line),
{
    let w = lower_all(line);
    assert forall|q: int| is_sep(w, q) == is_sep(line, q) by {}
    if exists|p: int| single_sep(line, p) {
        let p = choose|p: int| single_sep(line, p);
        assert(single_sep(w, p));
        assert((choose|q: int| single_sep(w, q)) == p);
        lemma_lower_sub(line, 0, p);
        lemma_lower_sub(line, p + 2, line.len() as int);
        let name = line.subrange(0, p);
        let value = line.subrange(p + 2, line.len() as int);
        lemma_trim_lower(name);
        lemma_trim_lower(value);
        lemma_usize_text_lower(trim(value));
        let n = trim(name);
        lemma_same_name_lower(n, content_type_name());
        lemma_same_name_lower(n, content_length_name());
    } else {
        assert forall|p: int| !single_sep(w, p) by {
            if single_sep(w, p) {
                assert(single_sep(line, p));
            }
        }
    }
}

proof fn lemma_line_end_extend(s: Seq<u8>, t: Seq<u8>, pos: int)
    requires
        0 <= pos <= s.len(),
        line_end(s, pos) < s.len(),
    ensures
        line_end(s + t, pos) == line_end(s, pos),
    decreases s.len() - pos,
{
    assert((s + t)[pos] == s[pos]);
    if s[pos] != 10 {
        lemma_line_end_extend(s, t, pos + 1);
    }
}

proof fn lemma_headers_extend(s: Seq<u8>, t: Seq<u8>, pos: int, len: Option<usize>)
    requires
        0 <= pos,
        headers_from(s, pos, len) != Err::<(int, usize), FrameError>(FrameError::Truncated),
    ensures
        headers_from(s + t, pos, len) == headers_from(s, pos, len),
    decreases s.len() - pos,
{
    let u = s + t;
    let e = line_end(s, pos);
    lemma_line_end_bounds(s, pos);
    lemma_line_end_extend(s, t, pos);
    assert(u.subrange(pos, e + 1) =~= s.subrange(pos, e + 1));
    let line = s.subrange(pos, e + 1);
    if trim(line).len() != 0 {
        match header_of(line) {
            Ok(LspHeader::ContentLength(n)) => lemma_headers_extend(s, t, e + 1, Some(n)),
            Ok(LspHeader::ContentType) => lemma_headers_extend(s, t, e + 1, len),
            Err(_) => {},
        }
    }
}

/// More bytes after the ones at hand change the frame read from them only
/// where it was `Truncated`: a frame read, or any other error, stays as it
/// is, so a reader waits for more bytes on `Truncated` alone.
pub proof fn lemma_frame_extend(s: Seq<u8>, t: Seq<u8>)
    requires
        frame_of(s) != Err::<(int, usize), FrameError>(FrameError::Truncated),
    ensures
        frame_of(s + t) == frame_of(s),
{
    lemma_headers_extend(s, t, 0, None);
}

proof fn lemma_headers_start(s: Seq<u8>, pos: int, len: Option<usize>)
    requires
        0 <= pos,
    ensures
        headers_from(s, pos, len) matches Ok((start, _)) ==> pos < start,
    decreases s.len() - pos,
{
    if pos < s.len() {
        let e = line_end(s, pos);
        lemma_line_end_bounds(s, pos);
        if e < s.len() {
            let line = s.subrange(pos, e + 1);
            if trim(line).len() != 0 {
                match header_of(line) {
                    Ok(LspHeader::ContentLength(n)) => lemma_headers_start(s, e + 1, Some(n)),
                    Ok(LspHeader::ContentType) => lemma_headers_start(s, e + 1, len),
                    Err(_) => {},
                }
            }
        }
    }
}

/// A frame read from bytes lies within them.
pub proof fn lemma_frame_within(s: Seq<u8>)
    ensures
        frame_of(s) matches Ok((start, n)) ==> 0 < start && start + n <= s.len(),
{
    lemma_headers_start(s, 0, None);
}

} // verus!

//! HTTP message decoding (stateful). A message is a start line (request
//! line or status line), header lines ended by an empty line, and a body
//! whose extent is fixed by, in priority order: chunked transfer encoding,
//! a `Content-Length` header, or end of stream. A `Content-Encoding` of
//! gzip, zlib or deflate is undone before the body is recorded.

use vstd::prelude::*;
use std::io::Read;
use crate::outcome::MalformedReason;
use crate::classify::HttpPacketType;

verus! {

/// Carriage return.
pub const CR: u8 = 13;

/// Line feed.
pub const LF: u8 = 10;

/// The first position at or after `i` where a CRLF pair starts.
pub open spec fn spec_find_crlf(b: Seq<u8>, i: int) -> Option<int>
    decreases b.len() - i,
{
    if i < 0 || i + 2 > b.len() {
        None
    } else if b[i] == CR && b[i + 1] == LF {
        Some(i)
    } else {
        spec_find_crlf(b, i + 1)
    }
}

/// The first position at or after `i` where the CRLFCRLF header
/// terminator starts.
pub open spec fn spec_find_terminator(b: Seq<u8>, i: int) -> Option<int>
    decreases b.len() - i,
{
    if i < 0 || i + 4 > b.len() {
        None
    } else if b[i] == CR && b[i + 1] == LF && b[i + 2] == CR && b[i + 3] == LF {
        Some(i)
    } else {
        spec_find_terminator(b, i + 1)
    }
}

/// The letter with an ASCII upper-case byte folded to lower case.
pub open spec fn spec_ascii_lower(c: u8) -> u8 {
    if 65 <= c <= 90 {
        (c + 32) as u8
    } else {
        c
    }
}

/// Byte-wise equality up to ASCII case.
pub open spec fn spec_ascii_eq_ci(a: Seq<u8>, b: Seq<u8>) -> bool {
    a.len() == b.len() && forall|i: int|
        0 <= i < a.len() ==> spec_ascii_lower(a[i]) == spec_ascii_lower(b[i])
}

/// The sequence without its leading spaces and tabs.
pub open spec fn spec_trim_start(s: Seq<u8>) -> Seq<u8>
    decreases s.len(),
{
    if s.len() > 0 && (s[0] == 32 || s[0] == 9) {
        spec_trim_start(s.drop_first())
    } else {
        s
    }
}

/// Whether the byte is an ASCII decimal digit.
pub open spec fn spec_is_digit(c: u8) -> bool {
    48 <= c <= 57
}

/// Whether the byte is an ASCII hexadecimal digit.
pub open spec fn spec_is_hex_digit(c: u8) -> bool {
    spec_is_digit(c) || (97 <= c <= 102) || (65 <= c <= 70)
}

/// The value of a hexadecimal digit byte.
pub open spec fn spec_hex_digit_value(c: u8) -> int {
    if spec_is_digit(c) {
        c - 48
    } else if 97 <= c <= 102 {
        c - 87
    } else {
        c - 55
    }
}

/// The value of a sequence of hexadecimal digit bytes, most significant
/// first.
pub open spec fn spec_hex_value(s: Seq<u8>) -> int
    decreases s.len(),
{
    if s.len() == 0 {
        0
    } else {
        spec_hex_value(s.drop_last()) * 16 + spec_hex_digit_value(s.last())
    }
}

/// The value of a sequence of decimal digit bytes, most significant first.
pub open spec fn spec_dec_value(s: Seq<u8>) -> int
    decreases s.len(),
{
    if s.len() == 0 {
        0
    } else {
        spec_dec_value(s.drop_last()) * 10 + (s.last() - 48)
    }
}

/// Whether every byte of the sequence is a hexadecimal digit.
pub open spec fn spec_all_hex(s: Seq<u8>) -> bool {
    forall|i: int| 0 <= i < s.len() ==> spec_is_hex_digit(s[i])
}

/// Whether every byte of the sequence is a decimal digit.
pub open spec fn spec_all_digits(s: Seq<u8>) -> bool {
    forall|i: int| 0 <= i < s.len() ==> spec_is_digit(s[i])
}

fn find_crlf(b: &[u8], start: usize) -> (r: Option<usize>)
    ensures
        match r {
            Some(j) => spec_find_crlf(b@, start as int) == Some(j as int) && start <= j && j + 2
                <= b@.len(),
            None => spec_find_crlf(b@, start as int) is None,
        },
{
    let n = b.len();
    let mut i = start;
    loop
        invariant
            start <= i,
            n == b@.len(),
            spec_find_crlf(b@, start as int) == spec_find_crlf(b@, i as int),
        decreases n - i,
    {
        if i >= n || n - i < 2 {
            return None;
        }
        if *vstd::slice::slice_index_get(b, i) == CR && *vstd::slice::slice_index_get(b, i + 1)
            == LF {
            return Some(i);
        }
        i += 1;
    }
}

fn find_terminator(b: &[u8], start: usize) -> (r: Option<usize>)
    ensures
        match r {
            Some(j) => spec_find_terminator(b@, start as int) == Some(j as int) && start <= j && j
                + 4 <= b@.len(),
            None => spec_find_terminator(b@, start as int) is None,
        },
{
    let n = b.len();
    let mut i = start;
    loop
        invariant
            start <= i,
            n == b@.len(),
            spec_find_terminator(b@, start as int) == spec_find_terminator(b@, i as int),
        decreases n - i,
    {
        if i >= n || n - i < 4 {
            return None;
        }
        if *vstd::slice::slice_index_get(b, i) == CR && *vstd::slice::slice_index_get(b, i + 1)
            == LF && *vstd::slice::slice_index_get(b, i + 2) == CR && *vstd::slice::slice_index_get(
            b,
            i + 3,
        ) == LF {
            return Some(i);
        }
        i += 1;
    }
}

fn ascii_eq_ci(a: &[u8], b: &[u8]) -> (r: bool)
    ensures
        r == spec_ascii_eq_ci(a@, b@),
{
    if a.len() != b.len() {
        return false;
    }
    let n = a.len();
    let mut i: usize = 0;
    while i < n
        invariant
            i <= n,
            n == a@.len() && n == b@.len(),
            forall|j: int| 0 <= j < i ==> spec_ascii_lower(a@[j]) == spec_ascii_lower(b@[j]),
        decreases n - i,
    {
        let ca = *vstd::slice::slice_index_get(a, i);
        let cb = *vstd::slice::slice_index_get(b, i);
        let la = if 65 <= ca && ca <= 90 {
            ca + 32
        } else {
            ca
        };
        let lb = if 65 <= cb && cb <= 90 {
            cb + 32
        } else {
            cb
        };
        if la != lb {
            return false;
        }
        i += 1;
    }
    true
}

fn trim_start_index(b: &[u8], start: usize, end: usize) -> (r: usize)
    requires
        start <= end <= b@.len(),
    ensures
        start <= r <= end,
        b@.subrange(r as int, end as int) == spec_trim_start(
            b@.subrange(start as int, end as int),
        ),
{
    let mut i = start;
    loop
        invariant
            start <= i <= end,
            end <= b@.len(),
            spec_trim_start(b@.subrange(start as int, end as int)) == spec_trim_start(
                b@.subrange(i as int, end as int),
            ),
        decreases end - i,
    {
        if i == end {
            return i;
        }
        let c = *vstd::slice::slice_index_get(b, i);
        if c == 32 || c == 9 {
            proof {
                assert(b@.subrange(i as int, end as int).drop_first() =~= b@.subrange(
                    i + 1,
                    end as int,
                ));
            }
            i += 1;
        } else {
            return i;
        }
    }
}

/// Sixteen to the power `n`.
pub open spec fn pow16(n: nat) -> int
    decreases n,
{
    if n == 0 {
        1
    } else {
        16 * pow16((n - 1) as nat)
    }
}

/// Ten to the power `n`.
pub open spec fn pow10(n: nat) -> int
    decreases n,
{
    if n == 0 {
        1
    } else {
        10 * pow10((n - 1) as nat)
    }
}

proof fn lemma_hex_value_bound(s: Seq<u8>, n: nat)
    requires
        spec_all_hex(s),
        s.len() <= n,
    ensures
        0 <= spec_hex_value(s),
        spec_hex_value(s) < pow16(n),
    decreases s.len(),
{
    if s.len() == 0 {
        lemma_pow16_positive(n);
    } else {
        assert(spec_all_hex(s.drop_last()));
        lemma_hex_value_bound(s.drop_last(), (n - 1) as nat);
        assert(spec_hex_digit_value(s.last()) <= 15);
    }
}

proof fn lemma_pow16_positive(n: nat)
    ensures
        pow16(n) >= 1,
    decreases n,
{
    if n > 0 {
        lemma_pow16_positive((n - 1) as nat);
    }
}

proof fn lemma_dec_value_bound(s: Seq<u8>, n: nat)
    requires
        spec_all_digits(s),
        s.len() <= n,
    ensures
        0 <= spec_dec_value(s),
        spec_dec_value(s) < pow10(n),
    decreases s.len(),
{
    if s.len() == 0 {
        lemma_pow10_positive(n);
    } else {
        assert(spec_all_digits(s.drop_last()));
        lemma_dec_value_bound(s.drop_last(), (n - 1) as nat);
        assert(s.last() - 48 <= 9);
    }
}

proof fn lemma_pow10_positive(n: nat)
    ensures
        pow10(n) >= 1,
    decreases n,
{
    if n > 0 {
        lemma_pow10_positive((n - 1) as nat);
    }
}

fn parse_hex_region(b: &[u8], start: usize, end: usize) -> (r: usize)
    requires
        start <= end <= b@.len(),
        end - start <= 7,
        spec_all_hex(b@.subrange(start as int, end as int)),
    ensures
        r as int == spec_hex_value(b@.subrange(start as int, end as int)),
        r < 0x10000000,
{
    let ghost s = b@.subrange(start as int, end as int);
    let mut i = start;
    let mut v: usize = 0;
    proof {
        assert(s.subrange(0, 0) =~= Seq::<u8>::empty());
    }
    while i < end
        invariant
            start <= i <= end,
            end <= b@.len(),
            end - start <= 7,
            s == b@.subrange(start as int, end as int),
            spec_all_hex(s),
            v as int == spec_hex_value(s.subrange(0, i - start)),
        decreases end - i,
    {
        let c = *vstd::slice::slice_index_get(b, i);
        proof {
            assert(s[i - start] == b@[i as int]);
            assert(spec_all_hex(s.subrange(0, i - start)));
            lemma_hex_value_bound(s.subrange(0, i - start), 6);
            assert(pow16(6) == 0x1000000) by {
                reveal_with_fuel(pow16, 7);
            }
        }
        let d: usize = if 48 <= c && c <= 57 {
            (c - 48) as usize
        } else if 97 <= c && c <= 102 {
            (c - 87) as usize
        } else {
            (c - 55) as usize
        };
        proof {
            assert(spec_hex_value(s.subrange(0, i - start)) * 16 + spec_hex_digit_value(
                b@[i as int],
            ) == spec_hex_value(s.subrange(0, i + 1 - start))) by {
                assert(s.subrange(0, i + 1 - start).drop_last() =~= s.subrange(0, i - start));
                assert(s.subrange(0, i + 1 - start).last() == s[i - start]);
            }
        }
        v = v * 16 + d;
        i += 1;
    }
    proof {
        assert(s.subrange(0, end - start) =~= s);
        lemma_hex_value_bound(s, 7);
        assert(pow16(7) == 0x10000000) by {
            reveal_with_fuel(pow16, 8);
        }
    }
    v
}

fn parse_dec_region(b: &[u8], start: usize, end: usize) -> (r: usize)
    requires
        start <= end <= b@.len(),
        end - start <= 9,
        spec_all_digits(b@.subrange(start as int, end as int)),
    ensures
        r as int == spec_dec_value(b@.subrange(start as int, end as int)),
        r < 0x3B9ACA00,
{
    let ghost s = b@.subrange(start as int, end as int);
    let mut i = start;
    let mut v: usize = 0;
    proof {
        assert(s.subrange(0, 0) =~= Seq::<u8>::empty());
    }
    while i < end
        invariant
            start <= i <= end,
            end <= b@.len(),
            end - start <= 9,
            s == b@.subrange(start as int, end as int),
            spec_all_digits(s),
            v as int == spec_dec_value(s.subrange(0, i - start)),
        decreases end - i,
    {
        let c = *vstd::slice::slice_index_get(b, i);
        proof {
            assert(s[i - start] == b@[i as int]);
            assert(spec_all_digits(s.subrange(0, i - start)));
            lemma_dec_value_bound(s.subrange(0, i - start), 8);
            assert(pow10(8) == 100000000) by {
                reveal_with_fuel(pow10, 9);
            }
            assert(spec_dec_value(s.subrange(0, i - start)) * 10 + (b@[i as int] - 48)
                == spec_dec_value(s.subrange(0, i + 1 - start))) by {
                assert(s.subrange(0, i + 1 - start).drop_last() =~= s.subrange(0, i - start));
                assert(s.subrange(0, i + 1 - start).last() == s[i - start]);
            }
        }
        v = v * 10 + (c - 48) as usize;
        i += 1;
    }
    proof {
        assert(s.subrange(0, end - start) =~= s);
        lemma_dec_value_bound(s, 9);
        assert(pow10(9) == 0x3B9ACA00) by {
            reveal_with_fuel(pow10, 10);
        }
    }
    v
}

fn all_hex_region(b: &[u8], start: usize, end: usize) -> (r: bool)
    requires
        start <= end <= b@.len(),
    ensures
        r == spec_all_hex(b@.subrange(start as int, end as int)),
{
    let mut i = start;
    while i < end
        invariant
            start <= i <= end,
            end <= b@.len(),
            forall|j: int| start <= j < i ==> spec_is_hex_digit(b@[j]),
        decreases end - i,
    {
        let c = *vstd::slice::slice_index_get(b, i);
        if !((48 <= c && c <= 57) || (97 <= c && c <= 102) || (65 <= c && c <= 70)) {
            proof {
                assert(b@.subrange(start as int, end as int)[i - start] == b@[i as int]);
            }
            return false;
        }
        i += 1;
    }
    proof {
        assert(forall|j: int|
            0 <= j < end - start ==> b@.subrange(start as int, end as int)[j] == b@[start + j]);
    }
    true
}

fn all_digits_region(b: &[u8], start: usize, end: usize) -> (r: bool)
    requires
        start <= end <= b@.len(),
    ensures
        r == spec_all_digits(b@.subrange(start as int, end as int)),
{
    let mut i = start;
    while i < end
        invariant
            start <= i <= end,
            end <= b@.len(),
            forall|j: int| start <= j < i ==> spec_is_digit(b@[j]),
        decreases end - i,
    {
        let c = *vstd::slice::slice_index_get(b, i);
        if !(48 <= c && c <= 57) {
            proof {
                assert(b@.subrange(start as int, end as int)[i - start] == b@[i as int]);
            }
            return false;
        }
        i += 1;
    }
    proof {
        assert(forall|j: int|
            0 <= j < end - start ==> b@.subrange(start as int, end as int)[j] == b@[start + j]);
    }
    true
}


/// The first position in `i..end` holding the byte `t`.
pub open spec fn spec_find_byte_in(b: Seq<u8>, i: int, end: int, t: u8) -> Option<int>
    decreases end - i,
{
    if i < 0 || i >= end || end > b.len() {
        None
    } else if b[i] == t {
        Some(i)
    } else {
        spec_find_byte_in(b, i + 1, end, t)
    }
}

fn find_byte_in(b: &[u8], start: usize, end: usize, t: u8) -> (r: Option<usize>)
    requires
        end <= b@.len(),
    ensures
        match r {
            Some(k) => start <= k < end && spec_find_byte_in(b@, start as int, end as int, t)
                == Some(k as int),
            None => spec_find_byte_in(b@, start as int, end as int, t) is None,
        },
{
    let _n = b.len();
    let mut i = start;
    loop
        invariant
            start <= i,
            end <= b@.len(),
            spec_find_byte_in(b@, start as int, end as int, t) == spec_find_byte_in(
                b@,
                i as int,
                end as int,
                t,
            ),
        decreases end - i,
    {
        if i >= end {
            return None;
        }
        if *vstd::slice::slice_index_get(b, i) == t {
            return Some(i);
        }
        i += 1;
    }
}

/// One HTTP header: its name, and its value with leading whitespace
/// dropped.
#[derive(Debug, Clone)]
pub struct HttpHeader {
    pub name: Vec<u8>,
    pub value: Vec<u8>,
}

/// Mathematical model of a header.
pub struct HttpHeaderModel {
    pub name: Seq<u8>,
    pub value: Seq<u8>,
}

impl View for HttpHeader {
    type V = HttpHeaderModel;

    open spec fn view(&self) -> HttpHeaderModel {
        HttpHeaderModel { name: self.name@, value: self.value@ }
    }
}

/// The models of a list of headers.
pub open spec fn headers_model(s: Seq<HttpHeader>) -> Seq<HttpHeaderModel> {
    s.map_values(|h: HttpHeader| h@)
}

/// A decoded HTTP request.
#[derive(Debug, Clone)]
pub struct SerializableHttpRequestPacket {
    pub method: Vec<u8>,
    pub path: Vec<u8>,
    pub version: Vec<u8>,
    pub headers: Vec<HttpHeader>,
    pub body: Vec<u8>,
}

/// Mathematical model of a decoded request.
pub struct HttpRequestModel {
    pub method: Seq<u8>,
    pub path: Seq<u8>,
    pub version: Seq<u8>,
    pub headers: Seq<HttpHeaderModel>,
    pub body: Seq<u8>,
}

impl View for SerializableHttpRequestPacket {
    type V = HttpRequestModel;

    open spec fn view(&self) -> HttpRequestModel {
        HttpRequestModel {
            method: self.method@,
            path: self.path@,
            version: self.version@,
            headers: headers_model(self.headers@),
            body: self.body@,
        }
    }
}

/// A decoded HTTP response.
#[derive(Debug, Clone)]
pub struct SerializableHttpResponsePacket {
    pub version: Vec<u8>,
    pub status: u16,
    pub reason: Vec<u8>,
    pub headers: Vec<HttpHeader>,
    pub body: Vec<u8>,
}

/// Mathematical model of a decoded response.
pub struct HttpResponseModel {
    pub version: Seq<u8>,
    pub status: u16,
    pub reason: Seq<u8>,
    pub headers: Seq<HttpHeaderModel>,
    pub body: Seq<u8>,
}

impl View for SerializableHttpResponsePacket {
    type V = HttpResponseModel;

    open spec fn view(&self) -> HttpResponseModel {
        HttpResponseModel {
            version: self.version@,
            status: self.status,
            reason: self.reason@,
            headers: headers_model(self.headers@),
            body: self.body@,
        }
    }
}

/// Mathematical model of a complete message of either kind.
pub enum HttpMessageModel {
    Request(HttpRequestModel),
    Response(HttpResponseModel),
}

/// The outcome of a decode attempt over a flow's buffer.
#[derive(Debug, Clone)]
pub enum HttpDecode {
    /// A complete request was present.
    CompleteRequest(SerializableHttpRequestPacket),
    /// A complete response was present.
    CompleteResponse(SerializableHttpResponsePacket),
    /// Fewer bytes than the headers or the declared body need.
    Incomplete,
    /// The bytes violate the message grammar.
    Malformed(MalformedReason),
}

/// The header parsed from the line `b[i..j]`: the name before the first
/// colon, the value after it with leading whitespace dropped.
pub open spec fn spec_parse_header_line(b: Seq<u8>, i: int, j: int) -> Result<
    HttpHeaderModel,
    MalformedReason,
> {
    match spec_find_byte_in(b, i, j, 58) {
        None => Err(MalformedReason::HttpBadHeader),
        Some(k) => if k == i {
            Err(MalformedReason::HttpBadHeader)
        } else {
            Ok(HttpHeaderModel {
                name: b.subrange(i, k),
                value: spec_trim_start(b.subrange(k + 1, j)),
            })
        },
    }
}

/// The headers parsed from the CRLF-ended lines of `b[i..end]`.
pub open spec fn spec_parse_headers(b: Seq<u8>, i: int, end: int) -> Result<
    Seq<HttpHeaderModel>,
    MalformedReason,
>
    decreases end - i,
{
    if i >= end {
        Ok(Seq::empty())
    } else {
        match spec_find_crlf(b, i) {
            None => Err(MalformedReason::HttpBadHeader),
            Some(j) => if j < i || j + 2 > end {
                Err(MalformedReason::HttpBadHeader)
            } else {
                match spec_parse_header_line(b, i, j) {
                    Err(e) => Err(e),
                    Ok(h) => match spec_parse_headers(b, j + 2, end) {
                        Ok(rest) => Ok(seq![h] + rest),
                        Err(e) => Err(e),
                    },
                }
            },
        }
    }
}

/// The value of the first header whose name equals `name` up to ASCII
/// case, if any.
pub open spec fn spec_header_value(headers: Seq<HttpHeaderModel>, name: Seq<u8>) -> Option<Seq<u8>>
    decreases headers.len(),
{
    if headers.len() == 0 {
        None
    } else if spec_ascii_eq_ci(headers.first().name, name) {
        Some(headers.first().value)
    } else {
        spec_header_value(headers.drop_first(), name)
    }
}

/// The request line `METHOD path version` read from `b[ls..le]`, each
/// part non-empty.
pub open spec fn spec_parse_request_line(b: Seq<u8>, ls: int, le: int) -> Result<
    (Seq<u8>, Seq<u8>, Seq<u8>),
    MalformedReason,
> {
    match spec_find_byte_in(b, ls, le, 32) {
        None => Err(MalformedReason::HttpBadStartLine),
        Some(s1) => match spec_find_byte_in(b, s1 + 1, le, 32) {
            None => Err(MalformedReason::HttpBadStartLine),
            Some(s2) => if s1 == ls || s2 == s1 + 1 || s2 + 1 == le {
                Err(MalformedReason::HttpBadStartLine)
            } else {
                Ok((b.subrange(ls, s1), b.subrange(s1 + 1, s2), b.subrange(s2 + 1, le)))
            },
        },
    }
}

/// The status line `version status reason` read from `b[ls..le]`: a
/// non-empty version, a three-digit status, and the rest (possibly empty)
/// as the reason phrase.
pub open spec fn spec_parse_status_line(b: Seq<u8>, ls: int, le: int) -> Result<
    (Seq<u8>, u16, Seq<u8>),
    MalformedReason,
> {
    match spec_find_byte_in(b, ls, le, 32) {
        None => Err(MalformedReason::HttpBadStartLine),
        Some(s1) => {
            let t_end = match spec_find_byte_in(b, s1 + 1, le, 32) {
                Some(s2) => s2,
                None => le,
            };
            let reason = match spec_find_byte_in(b, s1 + 1, le, 32) {
                Some(s2) => b.subrange(s2 + 1, le),
                None => Seq::<u8>::empty(),
            };
            if s1 == ls || t_end - (s1 + 1) != 3 || !spec_all_digits(b.subrange(s1 + 1, t_end)) {
                Err(MalformedReason::HttpBadStartLine)
            } else {
                Ok((b.subrange(ls, s1), spec_dec_value(b.subrange(s1 + 1, t_end)) as u16, reason))
            }
        },
    }
}

/// The body assembled from the chunked frames starting at `i`: hexadecimal
/// size lines (at most seven digits, no extensions), each chunk ended by
/// CRLF, the whole ended by a zero-size chunk. `Err(None)` stands for
/// "need more bytes".
pub open spec fn spec_parse_chunks(b: Seq<u8>, i: int) -> Result<Seq<u8>, Option<MalformedReason>>
    decreases b.len() - i,
{
    match spec_find_crlf(b, i) {
        None => Err(None),
        Some(j) => if j < i || j + 2 > b.len() {
            Err(Some(MalformedReason::HttpBadChunk))
        } else if j == i || j - i > 7 || !spec_all_hex(b.subrange(i, j)) {
            Err(Some(MalformedReason::HttpBadChunk))
        } else {
            let size = spec_hex_value(b.subrange(i, j));
            if size <= 0 {
                if b.len() < j + 4 {
                    Err(None)
                } else if b[j + 2] == CR && b[j + 3] == LF {
                    Ok(Seq::empty())
                } else {
                    Err(Some(MalformedReason::HttpBadChunk))
                }
            } else {
                if b.len() < j + 2 + size + 2 {
                    Err(None)
                } else if !(b[j + 2 + size] == CR && b[j + 2 + size + 1] == LF) {
                    Err(Some(MalformedReason::HttpBadChunk))
                } else {
                    match spec_parse_chunks(b, j + 2 + size + 2) {
                        Ok(rest) => Ok(b.subrange(j + 2, j + 2 + size) + rest),
                        Err(e) => Err(e),
                    }
                }
            }
        },
    }
}


/// The bytes of `transfer-encoding`.
pub open spec fn transfer_encoding_label() -> Seq<u8> {
    seq![116u8, 114u8, 97u8, 110u8, 115u8, 102u8, 101u8, 114u8, 45u8, 101u8, 110u8, 99u8, 111u8, 100u8, 105u8, 110u8, 103u8]
}

fn transfer_encoding_label_bytes() -> (r: Vec<u8>)
    ensures
        r@ == transfer_encoding_label(),
{
    let mut v: Vec<u8> = Vec::new();
    v.push(116);
    v.push(114);
    v.push(97);
    v.push(110);
    v.push(115);
    v.push(102);
    v.push(101);
    v.push(114);
    v.push(45);
    v.push(101);
    v.push(110);
    v.push(99);
    v.push(111);
    v.push(100);
    v.push(105);
    v.push(110);
    v.push(103);
    proof {
        assert(v@ =~= transfer_encoding_label());
    }
    v
}

/// The bytes of `content-length`.
pub open spec fn content_length_label() -> Seq<u8> {
    seq![99u8, 111u8, 110u8, 116u8, 101u8, 110u8, 116u8, 45u8, 108u8, 101u8, 110u8, 103u8, 116u8, 104u8]
}

fn content_length_label_bytes() -> (r: Vec<u8>)
    ensures
        r@ == content_length_label(),
{
    let mut v: Vec<u8> = Vec::new();
    v.push(99);
    v.push(111);
    v.push(110);
    v.push(116);
    v.push(101);
    v.push(110);
    v.push(116);
    v.push(45);
    v.push(108);
    v.push(101);
    v.push(110);
    v.push(103);
    v.push(116);
    v.push(104);
    proof {
        assert(v@ =~= content_length_label());
    }
    v
}

/// The bytes of `content-encoding`.
pub open spec fn content_encoding_label() -> Seq<u8> {
    seq![99u8, 111u8, 110u8, 116u8, 101u8, 110u8, 116u8, 45u8, 101u8, 110u8, 99u8, 111u8, 100u8, 105u8, 110u8, 103u8]
}

fn content_encoding_label_bytes() -> (r: Vec<u8>)
    ensures
        r@ == content_encoding_label(),
{
    let mut v: Vec<u8> = Vec::new();
    v.push(99);
    v.push(111);
    v.push(110);
    v.push(116);
    v.push(101);
    v.push(110);
    v.push(116);
    v.push(45);
    v.push(101);
    v.push(110);
    v.push(99);
    v.push(111);
    v.push(100);
    v.push(105);
    v.push(110);
    v.push(103);
    proof {
        assert(v@ =~= content_encoding_label());
    }
    v
}

/// The bytes of `chunked`.
pub open spec fn chunked_label() -> Seq<u8> {
    seq![99u8, 104u8, 117u8, 110u8, 107u8, 101u8, 100u8]
}

fn chunked_label_bytes() -> (r: Vec<u8>)
    ensures
        r@ == chunked_label(),
{
    let mut v: Vec<u8> = Vec::new();
    v.push(99);
    v.push(104);
    v.push(117);
    v.push(110);
    v.push(107);
    v.push(101);
    v.push(100);
    proof {
        assert(v@ =~= chunked_label());
    }
    v
}

/// The bytes of `identity`.
pub open spec fn identity_label() -> Seq<u8> {
    seq![105u8, 100u8, 101u8, 110u8, 116u8, 105u8, 116u8, 121u8]
}

fn identity_label_bytes() -> (r: Vec<u8>)
    ensures
        r@ == identity_label(),
{
    let mut v: Vec<u8> = Vec::new();
    v.push(105);
    v.push(100);
    v.push(101);
    v.push(110);
    v.push(116);
    v.push(105);
    v.push(116);
    v.push(121);
    proof {
        assert(v@ =~= identity_label());
    }
    v
}

/// The bytes of `gzip`.
pub open spec fn gzip_label() -> Seq<u8> {
    seq![103u8, 122u8, 105u8, 112u8]
}

fn gzip_label_bytes() -> (r: Vec<u8>)
    ensures
        r@ == gzip_label(),
{
    let mut v: Vec<u8> = Vec::new();
    v.push(103);
    v.push(122);
    v.push(105);
    v.push(112);
    proof {
        assert(v@ =~= gzip_label());
    }
    v
}

/// The bytes of `zlib`.
pub open spec fn zlib_label() -> Seq<u8> {
    seq![122u8, 108u8, 105u8, 98u8]
}

fn zlib_label_bytes() -> (r: Vec<u8>)
    ensures
        r@ == zlib_label(),
{
    let mut v: Vec<u8> = Vec::new();
    v.push(122);
    v.push(108);
    v.push(105);
    v.push(98);
    proof {
        assert(v@ =~= zlib_label());
    }
    v
}

/// The bytes of `deflate`.
pub open spec fn deflate_label() -> Seq<u8> {
    seq![100u8, 101u8, 102u8, 108u8, 97u8, 116u8, 101u8]
}

fn deflate_label_bytes() -> (r: Vec<u8>)
    ensures
        r@ == deflate_label(),
{
    let mut v: Vec<u8> = Vec::new();
    v.push(100);
    v.push(101);
    v.push(102);
    v.push(108);
    v.push(97);
    v.push(116);
    v.push(101);
    proof {
        assert(v@ =~= deflate_label());
    }
    v
}

fn header_value<'a>(headers: &'a Vec<HttpHeader>, name: &[u8]) -> (r: Option<&'a Vec<u8>>)
    ensures
        match r {
            Some(v) => spec_header_value(headers_model(headers@), name@) == Some(v@),
            None => spec_header_value(headers_model(headers@), name@) is None,
        },
{
    let n = headers.len();
    let mut i: usize = 0;
    proof {
        assert(headers_model(headers@).skip(0) =~= headers_model(headers@));
    }
    while i < n
        invariant
            i <= n,
            n == headers@.len(),
            spec_header_value(headers_model(headers@), name@) == spec_header_value(
                headers_model(headers@).skip(i as int),
                name@,
            ),
        decreases n - i,
    {
        proof {
            assert(headers_model(headers@)[i as int] == headers@[i as int]@);
            assert(headers_model(headers@).skip(i as int).first() == headers@[i as int]@);
        }
        if ascii_eq_ci(headers[i].name.as_slice(), name) {
            return Some(&headers[i].value);
        }
        proof {
            assert(headers_model(headers@).skip(i as int).drop_first() =~= headers_model(
                headers@,
            ).skip(i + 1));
        }
        i += 1;
    }
    proof {
        assert(headers_model(headers@).skip(n as int) =~= Seq::<HttpHeaderModel>::empty());
    }
    None
}

fn parse_headers(b: &[u8], start: usize, end: usize) -> (r: Result<Vec<HttpHeader>, MalformedReason>)
    requires
        end <= b@.len(),
    ensures
        match r {
            Ok(hs) => spec_parse_headers(b@, start as int, end as int) matches Ok(s)
                && headers_model(hs@) == s,
            Err(e) => spec_parse_headers(b@, start as int, end as int) == Err::<
                Seq<HttpHeaderModel>,
                MalformedReason,
            >(e),
        },
{
    let _n = b.len();
    let mut hs: Vec<HttpHeader> = Vec::new();
    let mut i = start;
    proof {
        let r0 = spec_parse_headers(b@, start as int, end as int);
        if r0 is Ok {
            assert(headers_model(hs@) + r0.unwrap() =~= r0.unwrap());
        }
    }
    while i < end
        invariant
            end <= b@.len(),
            spec_parse_headers(b@, start as int, end as int) == (match spec_parse_headers(
                b@,
                i as int,
                end as int,
            ) {
                Ok(rest) => Ok::<Seq<HttpHeaderModel>, MalformedReason>(headers_model(hs@) + rest),
                Err(e) => Err::<Seq<HttpHeaderModel>, MalformedReason>(e),
            }),
        decreases end - i,
    {
        let j = match find_crlf(b, i) {
            Some(j) => j,
            None => {
                return Err(MalformedReason::HttpBadHeader);
            },
        };
        if j >= end || end - j < 2 {
            return Err(MalformedReason::HttpBadHeader);
        }
        let k = match find_byte_in(b, i, j, 58) {
            Some(k) => k,
            None => {
                return Err(MalformedReason::HttpBadHeader);
            },
        };
        if k == i {
            return Err(MalformedReason::HttpBadHeader);
        }
        let name = vstd::slice::slice_to_vec(vstd::slice::slice_subrange(b, i, k));
        let vstart = trim_start_index(b, k + 1, j);
        let value = vstd::slice::slice_to_vec(vstd::slice::slice_subrange(b, vstart, j));
        let h = HttpHeader { name, value };
        proof {
            let hm = h@;
            assert(hm == spec_parse_header_line(b@, i as int, j as int).unwrap());
            let tail = spec_parse_headers(b@, j + 2, end as int);
            if tail is Ok {
                assert(headers_model(hs@.push(h)) =~= headers_model(hs@).push(hm));
                assert(headers_model(hs@) + (seq![hm] + tail.unwrap()) =~= headers_model(
                    hs@.push(h),
                ) + tail.unwrap());
            }
        }
        hs.push(h);
        i = j + 2;
    }
    proof {
        assert(headers_model(hs@) + Seq::<HttpHeaderModel>::empty() =~= headers_model(hs@));
    }
    Ok(hs)
}

fn parse_request_line(b: &[u8], ls: usize, le: usize) -> (r: Result<
    (Vec<u8>, Vec<u8>, Vec<u8>),
    MalformedReason,
>)
    requires
        ls <= le <= b@.len(),
    ensures
        match r {
            Ok((m, p, v)) => spec_parse_request_line(b@, ls as int, le as int) matches Ok(
                (ms, ps, vs),
            ) && m@ == ms && p@ == ps && v@ == vs,
            Err(e) => spec_parse_request_line(b@, ls as int, le as int) == Err::<
                (Seq<u8>, Seq<u8>, Seq<u8>),
                MalformedReason,
            >(e),
        },
{
    let _n = b.len();
    let s1 = match find_byte_in(b, ls, le, 32) {
        Some(k) => k,
        None => {
            return Err(MalformedReason::HttpBadStartLine);
        },
    };
    let s2 = match find_byte_in(b, s1 + 1, le, 32) {
        Some(k) => k,
        None => {
            return Err(MalformedReason::HttpBadStartLine);
        },
    };
    if s1 == ls || s2 == s1 + 1 || s2 + 1 == le {
        return Err(MalformedReason::HttpBadStartLine);
    }
    let method = vstd::slice::slice_to_vec(vstd::slice::slice_subrange(b, ls, s1));
    let path = vstd::slice::slice_to_vec(vstd::slice::slice_subrange(b, s1 + 1, s2));
    let version = vstd::slice::slice_to_vec(vstd::slice::slice_subrange(b, s2 + 1, le));
    Ok((method, path, version))
}

fn parse_status_line(b: &[u8], ls: usize, le: usize) -> (r: Result<
    (Vec<u8>, u16, Vec<u8>),
    MalformedReason,
>)
    requires
        ls <= le <= b@.len(),
    ensures
        match r {
            Ok((v, st, re)) => spec_parse_status_line(b@, ls as int, le as int) matches Ok(
                (vs, sts, res),
            ) && v@ == vs && st == sts && re@ == res,
            Err(e) => spec_parse_status_line(b@, ls as int, le as int) == Err::<
                (Seq<u8>, u16, Seq<u8>),
                MalformedReason,
            >(e),
        },
{
    let _n = b.len();
    let s1 = match find_byte_in(b, ls, le, 32) {
        Some(k) => k,
        None => {
            return Err(MalformedReason::HttpBadStartLine);
        },
    };
    let second = find_byte_in(b, s1 + 1, le, 32);
    let t_end = match second {
        Some(s2) => s2,
        None => le,
    };
    if s1 == ls || t_end - (s1 + 1) != 3 {
        return Err(MalformedReason::HttpBadStartLine);
    }
    if !all_digits_region(b, s1 + 1, t_end) {
        return Err(MalformedReason::HttpBadStartLine);
    }
    let status_value = parse_dec_region(b, s1 + 1, t_end);
    proof {
        lemma_dec_value_bound(b@.subrange(s1 + 1, t_end as int), 3);
        assert(pow10(3) == 1000) by {
            reveal_with_fuel(pow10, 4);
        }
    }
    let status = status_value as u16;
    let version = vstd::slice::slice_to_vec(vstd::slice::slice_subrange(b, ls, s1));
    let reason = match second {
        Some(s2) => vstd::slice::slice_to_vec(vstd::slice::slice_subrange(b, s2 + 1, le)),
        None => Vec::new(),
    };
    Ok((version, status, reason))
}

fn parse_chunked(b: &[u8], start: usize) -> (r: Result<Vec<u8>, Option<MalformedReason>>)
    requires
        start <= b@.len(),
    ensures
        match r {
            Ok(v) => spec_parse_chunks(b@, start as int) matches Ok(s) && v@ == s,
            Err(e) => spec_parse_chunks(b@, start as int) == Err::<Seq<u8>, Option<MalformedReason>>(
                e,
            ),
        },
{
    let n = b.len();
    let mut body: Vec<u8> = Vec::new();
    let mut i = start;
    loop
        invariant
            start <= i <= n,
            n == b@.len(),
            spec_parse_chunks(b@, start as int) == (match spec_parse_chunks(b@, i as int) {
                Ok(rest) => Ok::<Seq<u8>, Option<MalformedReason>>(body@ + rest),
                Err(e) => Err::<Seq<u8>, Option<MalformedReason>>(e),
            }),
        decreases n - i,
    {
        let j = match find_crlf(b, i) {
            Some(j) => j,
            None => {
                return Err(None);
            },
        };
        if j == i || j - i > 7 {
            return Err(Some(MalformedReason::HttpBadChunk));
        }
        if !all_hex_region(b, i, j) {
            return Err(Some(MalformedReason::HttpBadChunk));
        }
        let size = parse_hex_region(b, i, j);
        if size == 0 {
            if n - (j + 2) < 2 {
                return Err(None);
            }
            if *vstd::slice::slice_index_get(b, j + 2) == CR && *vstd::slice::slice_index_get(
                b,
                j + 3,
            ) == LF {
                proof {
                    assert(body@ + Seq::<u8>::empty() =~= body@);
                }
                return Ok(body);
            }
            return Err(Some(MalformedReason::HttpBadChunk));
        }
        if n - (j + 2) < size + 2 {
            return Err(None);
        }
        if !(*vstd::slice::slice_index_get(b, j + 2 + size) == CR && *vstd::slice::slice_index_get(
            b,
            j + 2 + size + 1,
        ) == LF) {
            return Err(Some(MalformedReason::HttpBadChunk));
        }
        let mut data = vstd::slice::slice_to_vec(vstd::slice::slice_subrange(b, j + 2, j + 2 + size));
        proof {
            let rest1 = spec_parse_chunks(b@, j + 2 + size + 2);
            if rest1 is Ok {
                assert(body@ + (b@.subrange(j + 2, j + 2 + size) + rest1.unwrap()) =~= (body@
                    + data@) + rest1.unwrap());
            }
        }
        body.append(&mut data);
        i = j + 2 + size + 2;
    }
}

/// The name whatever gzip decompression returns on given bytes: a result
/// determined by the compressed bytes alone, or nothing when they are not
/// a valid gzip stream.
pub uninterp spec fn gzip_inflate(s: Seq<u8>) -> Option<Seq<u8>>;

/// The name whatever zlib decompression returns on given bytes.
pub uninterp spec fn zlib_inflate(s: Seq<u8>) -> Option<Seq<u8>>;

/// The name whatever raw-deflate decompression returns on given bytes.
pub uninterp spec fn deflate_inflate(s: Seq<u8>) -> Option<Seq<u8>>;

/// Relies on flate2::read::GzDecoder (driven by std's Read::read_to_end):
/// whether a gzip stream inflates, and to what, is a function of its bytes
/// alone; an invalid stream reports an error.
#[verifier::external_body]
fn gzip_decompress(data: &[u8]) -> (r: Option<Vec<u8>>)
    ensures
        match r {
            Some(v) => gzip_inflate(data@) matches Some(s) && v@ == s,
            None => gzip_inflate(data@) is None,
        },
{
    let mut decoder = flate2::read::GzDecoder::new(data);
    let mut out = Vec::new();
    match decoder.read_to_end(&mut out) {
        Ok(_) => Some(out),
        Err(_) => None,
    }
}

/// Relies on flate2::read::ZlibDecoder (driven by std's Read::read_to_end):
/// whether a zlib stream inflates, and to what, is a function of its bytes
/// alone; an invalid stream reports an error.
#[verifier::external_body]
fn zlib_decompress(data: &[u8]) -> (r: Option<Vec<u8>>)
    ensures
        match r {
            Some(v) => zlib_inflate(data@) matches Some(s) && v@ == s,
            None => zlib_inflate(data@) is None,
        },
{
    let mut decoder = flate2::read::ZlibDecoder::new(data);
    let mut out = Vec::new();
    match decoder.read_to_end(&mut out) {
        Ok(_) => Some(out),
        Err(_) => None,
    }
}

/// Relies on flate2::read::DeflateDecoder (driven by std's
/// Read::read_to_end): whether a raw deflate stream inflates, and to what,
/// is a function of its bytes alone; an invalid stream reports an error.
#[verifier::external_body]
fn deflate_decompress(data: &[u8]) -> (r: Option<Vec<u8>>)
    ensures
        match r {
            Some(v) => deflate_inflate(data@) matches Some(s) && v@ == s,
            None => deflate_inflate(data@) is None,
        },
{
    let mut decoder = flate2::read::DeflateDecoder::new(data);
    let mut out = Vec::new();
    match decoder.read_to_end(&mut out) {
        Ok(_) => Some(out),
        Err(_) => None,
    }
}

/// The raw body bytes the framing rules select, in priority order: a
/// chunked transfer encoding; a `Content-Length` count (at most nine
/// digits); otherwise the rest of the stream, complete only at end of
/// stream. `Err(None)` stands for "need more bytes".
pub open spec fn spec_framed_body(
    b: Seq<u8>,
    headers: Seq<HttpHeaderModel>,
    body_start: int,
    at_eos: bool,
) -> Result<Seq<u8>, Option<MalformedReason>> {
    match spec_header_value(headers, transfer_encoding_label()) {
        Some(te) => if !spec_ascii_eq_ci(te, chunked_label()) {
            Err(Some(MalformedReason::HttpUnsupportedTransferEncoding))
        } else {
            spec_parse_chunks(b, body_start)
        },
        None => match spec_header_value(headers, content_length_label()) {
            Some(v) => if v.len() == 0 || v.len() > 9 || !spec_all_digits(v) {
                Err(Some(MalformedReason::HttpBadContentLength))
            } else {
                let m = spec_dec_value(v);
                if body_start + m <= b.len() {
                    Ok(b.subrange(body_start, body_start + m))
                } else {
                    Err(None)
                }
            },
            None => if at_eos {
                Ok(b.subrange(body_start, b.len() as int))
            } else {
                Err(None)
            },
        },
    }
}

/// The body after the declared content encoding, if any, is undone:
/// absent or `identity` leaves the bytes; gzip, zlib and deflate name the
/// decompressed bytes; anything else cannot be handled.
pub open spec fn spec_decoded_body(headers: Seq<HttpHeaderModel>, raw: Seq<u8>) -> Result<
    Seq<u8>,
    MalformedReason,
> {
    match spec_header_value(headers, content_encoding_label()) {
        None => Ok(raw),
        Some(ce) => if spec_ascii_eq_ci(ce, identity_label()) {
            Ok(raw)
        } else if spec_ascii_eq_ci(ce, gzip_label()) {
            match gzip_inflate(raw) {
                Some(s) => Ok(s),
                None => Err(MalformedReason::HttpDecompressionFailed),
            }
        } else if spec_ascii_eq_ci(ce, zlib_label()) {
            match zlib_inflate(raw) {
                Some(s) => Ok(s),
                None => Err(MalformedReason::HttpDecompressionFailed),
            }
        } else if spec_ascii_eq_ci(ce, deflate_label()) {
            match deflate_inflate(raw) {
                Some(s) => Ok(s),
                None => Err(MalformedReason::HttpDecompressionFailed),
            }
        } else {
            Err(MalformedReason::HttpUnsupportedContentEncoding)
        },
    }
}

/// The message body: the framed bytes with the content encoding undone.
pub open spec fn spec_message_body(
    b: Seq<u8>,
    headers: Seq<HttpHeaderModel>,
    body_start: int,
    at_eos: bool,
) -> Result<Seq<u8>, Option<MalformedReason>> {
    match spec_framed_body(b, headers, body_start, at_eos) {
        Err(x) => Err(x),
        Ok(raw) => match spec_decoded_body(headers, raw) {
            Ok(body) => Ok(body),
            Err(e) => Err(Some(e)),
        },
    }
}

/// What decoding a buffer yields: nothing before the header terminator
/// arrives; then the headers, the body the framing selects, and the start
/// line read with the grammar the direction calls for. `Err(None)` stands
/// for "need more bytes".
pub open spec fn spec_decode_http(b: Seq<u8>, kind: HttpPacketType, at_eos: bool) -> Result<
    HttpMessageModel,
    Option<MalformedReason>,
> {
    match spec_find_terminator(b, 0) {
        None => Err(None),
        Some(h) => match spec_find_crlf(b, 0) {
            None => Err(Some(MalformedReason::HttpBadStartLine)),
            Some(j0) => match spec_parse_headers(b, j0 + 2, h + 2) {
                Err(e) => Err(Some(e)),
                Ok(headers) => match spec_message_body(b, headers, h + 4, at_eos) {
                    Err(x) => Err(x),
                    Ok(body) => match kind {
                        HttpPacketType::Request => match spec_parse_request_line(b, 0, j0) {
                            Err(e) => Err(Some(e)),
                            Ok((m, p, v)) => Ok(
                                HttpMessageModel::Request(
                                    HttpRequestModel {
                                        method: m,
                                        path: p,
                                        version: v,
                                        headers,
                                        body,
                                    },
                                ),
                            ),
                        },
                        HttpPacketType::Response => match spec_parse_status_line(b, 0, j0) {
                            Err(e) => Err(Some(e)),
                            Ok((v, st, re)) => Ok(
                                HttpMessageModel::Response(
                                    HttpResponseModel {
                                        version: v,
                                        status: st,
                                        reason: re,
                                        headers,
                                        body,
                                    },
                                ),
                            ),
                        },
                    },
                },
            },
        },
    }
}

/// The executable outcome carries exactly what the specification-level
/// decode gives: `Err(None)` stands for `Incomplete`.
pub open spec fn http_decode_models(
    r: HttpDecode,
    s: Result<HttpMessageModel, Option<MalformedReason>>,
) -> bool {
    match r {
        HttpDecode::CompleteRequest(p) => s matches Ok(HttpMessageModel::Request(m)) && p@ == m,
        HttpDecode::CompleteResponse(p) => s matches Ok(HttpMessageModel::Response(m)) && p@ == m,
        HttpDecode::Incomplete => s == Err::<HttpMessageModel, Option<MalformedReason>>(None),
        HttpDecode::Malformed(e) => s == Err::<HttpMessageModel, Option<MalformedReason>>(Some(e)),
    }
}

fn framed_body(b: &[u8], headers: &Vec<HttpHeader>, body_start: usize, at_eos: bool) -> (r: Result<
    Vec<u8>,
    Option<MalformedReason>,
>)
    requires
        body_start <= b@.len(),
    ensures
        match r {
            Ok(v) => spec_framed_body(b@, headers_model(headers@), body_start as int, at_eos)
                matches Ok(s) && v@ == s,
            Err(e) => spec_framed_body(b@, headers_model(headers@), body_start as int, at_eos)
                == Err::<Seq<u8>, Option<MalformedReason>>(e),
        },
{
    let _n = b.len();
    let te_name = transfer_encoding_label_bytes();
    match header_value(headers, te_name.as_slice()) {
        Some(te) => {
            let chunked = chunked_label_bytes();
            if !ascii_eq_ci(te.as_slice(), chunked.as_slice()) {
                Err(Some(MalformedReason::HttpUnsupportedTransferEncoding))
            } else {
                parse_chunked(b, body_start)
            }
        },
        None => {
            let cl_name = content_length_label_bytes();
            match header_value(headers, cl_name.as_slice()) {
                Some(v) => {
                    if v.len() == 0 || v.len() > 9 {
                        return Err(Some(MalformedReason::HttpBadContentLength));
                    }
                    proof {
                        assert(v@.subrange(0, v@.len() as int) =~= v@);
                    }
                    if !all_digits_region(v.as_slice(), 0, v.len()) {
                        return Err(Some(MalformedReason::HttpBadContentLength));
                    }
                    let m = parse_dec_region(v.as_slice(), 0, v.len());
                    if m <= b.len() - body_start {
                        Ok(vstd::slice::slice_to_vec(
                            vstd::slice::slice_subrange(b, body_start, body_start + m),
                        ))
                    } else {
                        Err(None)
                    }
                },
                None => {
                    if at_eos {
                        Ok(vstd::slice::slice_to_vec(
                            vstd::slice::slice_subrange(b, body_start, b.len()),
                        ))
                    } else {
                        Err(None)
                    }
                },
            }
        },
    }
}

fn decoded_body(headers: &Vec<HttpHeader>, raw: Vec<u8>) -> (r: Result<Vec<u8>, MalformedReason>)
    ensures
        match r {
            Ok(v) => spec_decoded_body(headers_model(headers@), raw@) matches Ok(s) && v@ == s,
            Err(e) => spec_decoded_body(headers_model(headers@), raw@) == Err::<
                Seq<u8>,
                MalformedReason,
            >(e),
        },
{
    let ce_name = content_encoding_label_bytes();
    match header_value(headers, ce_name.as_slice()) {
        None => Ok(raw),
        Some(ce) => {
            let identity = identity_label_bytes();
            let gzip = gzip_label_bytes();
            let zlib = zlib_label_bytes();
            let deflate = deflate_label_bytes();
            if ascii_eq_ci(ce.as_slice(), identity.as_slice()) {
                Ok(raw)
            } else if ascii_eq_ci(ce.as_slice(), gzip.as_slice()) {
                match gzip_decompress(raw.as_slice()) {
                    Some(v) => Ok(v),
                    None => Err(MalformedReason::HttpDecompressionFailed),
                }
            } else if ascii_eq_ci(ce.as_slice(), zlib.as_slice()) {
                match zlib_decompress(raw.as_slice()) {
                    Some(v) => Ok(v),
                    None => Err(MalformedReason::HttpDecompressionFailed),
                }
            } else if ascii_eq_ci(ce.as_slice(), deflate.as_slice()) {
                match deflate_decompress(raw.as_slice()) {
                    Some(v) => Ok(v),
                    None => Err(MalformedReason::HttpDecompressionFailed),
                }
            } else {
                Err(MalformedReason::HttpUnsupportedContentEncoding)
            }
        },
    }
}

/// Decode the reassembled bytes of one direction of one flow, with the
/// start-line grammar the direction calls for. When `at_end_of_stream`
/// holds, a message with neither a chunked transfer encoding nor a
/// `Content-Length` takes the rest of the stream as its body.
pub fn decode_http(buffer: &[u8], kind: HttpPacketType, at_end_of_stream: bool) -> (r: HttpDecode)
    ensures
        http_decode_models(r, spec_decode_http(buffer@, kind, at_end_of_stream)),
{
    let _n = buffer.len();
    let h = match find_terminator(buffer, 0) {
        Some(h) => h,
        None => {
            return HttpDecode::Incomplete;
        },
    };
    let j0 = match find_crlf(buffer, 0) {
        Some(j) => j,
        None => {
            return HttpDecode::Malformed(MalformedReason::HttpBadStartLine);
        },
    };
    let headers = match parse_headers(buffer, j0 + 2, h + 2) {
        Ok(hs) => hs,
        Err(e) => {
            return HttpDecode::Malformed(e);
        },
    };
    let raw = match framed_body(buffer, &headers, h + 4, at_end_of_stream) {
        Ok(v) => v,
        Err(None) => {
            return HttpDecode::Incomplete;
        },
        Err(Some(e)) => {
            return HttpDecode::Malformed(e);
        },
    };
    let body = match decoded_body(&headers, raw) {
        Ok(v) => v,
        Err(e) => {
            return HttpDecode::Malformed(e);
        },
    };
    match kind {
        HttpPacketType::Request => {
            let (method, path, version) = match parse_request_line(buffer, 0, j0) {
                Ok(t) => t,
                Err(e) => {
                    return HttpDecode::Malformed(e);
                },
            };
            HttpDecode::CompleteRequest(
                SerializableHttpRequestPacket { method, path, version, headers, body },
            )
        },
        HttpPacketType::Response => {
            let (version, status, reason) = match parse_status_line(buffer, 0, j0) {
                Ok(t) => t,
                Err(e) => {
                    return HttpDecode::Malformed(e);
                },
            };
            HttpDecode::CompleteResponse(
                SerializableHttpResponsePacket { version, status, reason, headers, body },
            )
        },
    }
}


/// Law: decoding is a function of the buffer and direction alone: two
/// decode attempts over the same buffer, with no intervening append,
/// yield identical outcomes and identical records.
pub proof fn lemma_http_decode_idempotent(
    r1: HttpDecode,
    r2: HttpDecode,
    b: Seq<u8>,
    kind: HttpPacketType,
    at_eos: bool,
)
    requires
        http_decode_models(r1, spec_decode_http(b, kind, at_eos)),
        http_decode_models(r2, spec_decode_http(b, kind, at_eos)),
    ensures
        match (r1, r2) {
            (HttpDecode::CompleteRequest(p1), HttpDecode::CompleteRequest(p2)) => p1@ == p2@,
            (HttpDecode::CompleteResponse(p1), HttpDecode::CompleteResponse(p2)) => p1@ == p2@,
            (HttpDecode::Incomplete, HttpDecode::Incomplete) => true,
            (HttpDecode::Malformed(e1), HttpDecode::Malformed(e2)) => e1 == e2,
            _ => false,
        },
{
}

} // verus!

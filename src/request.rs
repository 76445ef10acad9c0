use vstd::prelude::*;
use vstd::slice::slice_subrange;
use vstd::string::StringSliceAdditionalSpecFns;
use vstd::utf8::{decode_utf8, valid_utf8};

use crate::numeral::{digits_value, is_numeral, numeral_digits, parse_usize};

verus! {

/// The most header lines that a request head is read with.
pub const MAX_HEADERS: usize = 16;

/// One header line: its name and its raw value.
pub struct HeaderLine {
    pub name: Vec<u8>,
    pub value: Vec<u8>,
}

impl View for HeaderLine {
    type V = (Seq<u8>, Seq<u8>);

    open spec fn view(&self) -> (Seq<u8>, Seq<u8>) {
        (self.name@, self.value@)
    }
}

/// A request line and its header lines, as read from the front of a buffer.
pub struct RequestHead {
    pub method: Option<Vec<u8>>,
    pub path: Option<String>,
    pub headers: Vec<HeaderLine>,
    /// Where the body starts in the buffer.
    pub body_start: usize,
}

impl View for RequestHead {
    type V = (Option<Seq<u8>>, Option<Seq<char>>, Seq<(Seq<u8>, Seq<u8>)>, nat);

    open spec fn view(&self) -> (Option<Seq<u8>>, Option<Seq<char>>, Seq<(Seq<u8>, Seq<u8>)>, nat) {
        (
            match self.method {
                Some(m) => Some(m@),
                None => None,
            },
            match self.path {
                Some(p) => Some(p@),
                None => None,
            },
            self.headers@.map_values(|h: HeaderLine| h@),
            self.body_start as nat,
        )
    }
}

/// What reading a request head from a buffer gave.
pub enum HeadParse {
    Complete(RequestHead),
    /// The buffer ends before the head does.
    Partial,
    /// The head is not a well-formed HTTP/1.x request head.
    Invalid,
}

/// The head that the HTTP parser reads from the front of `buf`, when it
/// reads a complete one.
pub uninterp spec fn parsed_head(buf: Seq<u8>) -> Option<
    (Option<Seq<u8>>, Option<Seq<char>>, Seq<(Seq<u8>, Seq<u8>)>, nat),
>;

/// Relies on `httparse::Request::parse`: it reads the request line and at
/// most `MAX_HEADERS` header lines, and on a complete head it has set the
/// method and path and returns the offset of the body, which lies within the
/// buffer. What it reads depends on the bytes alone.
#[verifier::external_body]
fn parse_head(buf: &[u8]) -> (r: HeadParse)
    ensures
        r is Complete <==> parsed_head(buf@) is Some,
        r matches HeadParse::Complete(h) ==> {
            &&& parsed_head(buf@) == Some(h@)
            &&& h.body_start <= buf@.len()
            &&& h.headers@.len() <= MAX_HEADERS
            &&& h.method is Some
            &&& h.path is Some
        },
{
    let mut headers = [httparse::EMPTY_HEADER; MAX_HEADERS];
    let mut req = httparse::Request::new(&mut headers);
    match req.parse(buf) {
        Ok(httparse::Status::Complete(n)) => HeadParse::Complete(RequestHead {
            method: req.method.map(|m| m.as_bytes().to_vec()),
            path: req.path.map(String::from),
            headers: req.headers.iter().map(|h| HeaderLine { name: h.name.as_bytes().to_vec(), value: h.value.to_vec() }).collect(),
            body_start: n,
        }),
        Ok(httparse::Status::Partial) => HeadParse::Partial,
        Err(_) => HeadParse::Invalid,
    }
}

/// Relies on `std::str::from_utf8`: it accepts exactly the valid UTF-8
/// sequences and then yields the characters they encode.
#[verifier::external_body]
fn text_of(bytes: &[u8]) -> (r: Option<String>)
    ensures
        r is Some <==> valid_utf8(bytes@),
        r matches Some(s) ==> s@ == decode_utf8(bytes@),
{
    std::str::from_utf8(bytes).ok().map(String::from)
}

/// The operation a request asks for.
#[derive(Clone, Copy, Debug, PartialEq, Eq, Structural)]
pub enum Method {
    Get,
    Put,
    /// Any other method, which the store does not serve.
    Other,
}

/// The method named by the bytes `m`.
pub open spec fn method_of(m: Seq<u8>) -> Method {
    if m == "GET".spec_bytes() {
        Method::Get
    } else if m == "PUT".spec_bytes() {
        Method::Put
    } else {
        Method::Other
    }
}

/// A decoded request: what the store is asked to do, where, and with what.
pub struct Request {
    pub method: Method,
    pub path: String,
    pub body: String,
}

/// Why a buffer does not hold a request that can be served.
#[derive(Clone, Copy, Debug, PartialEq, Eq, Structural)]
pub enum DecodeError {
    /// The buffer ends inside the request head.
    Incomplete,
    /// The request head is malformed.
    Malformed,
    /// The `Content-Length` header is not an unsigned decimal number.
    BadContentLength,
    /// The body that `Content-Length` announces runs past the buffer.
    BodyOutOfRange,
    /// The body is not UTF-8 text.
    BodyNotText,
}

/// The value of the last header in `hs` whose name is `name`.
pub open spec fn last_value_named(hs: Seq<(Seq<u8>, Seq<u8>)>, name: Seq<u8>) -> Option<Seq<u8>>
    decreases hs.len(),
{
    if hs.len() == 0 {
        None
    } else if hs.last().0 == name {
        Some(hs.last().1)
    } else {
        last_value_named(hs.drop_last(), name)
    }
}

/// The body length that headers `hs` announce: none announced means no body.
pub open spec fn body_length(hs: Seq<(Seq<u8>, Seq<u8>)>) -> Result<nat, DecodeError> {
    match last_value_named(hs, "Content-Length".spec_bytes()) {
        None => Ok(0),
        Some(v) => if is_numeral(v) && digits_value(numeral_digits(v)) <= usize::MAX {
            Ok(digits_value(numeral_digits(v)))
        } else {
            Err(DecodeError::BadContentLength)
        },
    }
}

/// The request that a buffer `buf` with head `head` holds, as
/// (method, path, body), or why there is none.
pub open spec fn decode_spec(
    head: (Option<Seq<u8>>, Option<Seq<char>>, Seq<(Seq<u8>, Seq<u8>)>, nat),
    buf: Seq<u8>,
) -> Result<(Method, Seq<char>, Seq<char>), DecodeError> {
    match body_length(head.2) {
        Err(e) => Err(e),
        Ok(n) => if head.3 + n > buf.len() {
            Err(DecodeError::BodyOutOfRange)
        } else if !valid_utf8(buf.subrange(head.3 as int, (head.3 + n) as int)) {
            Err(DecodeError::BodyNotText)
        } else {
            match (head.0, head.1) {
                (Some(m), Some(p)) => Ok(
                    (method_of(m), p, decode_utf8(buf.subrange(head.3 as int, (head.3 + n) as int))),
                ),
                _ => Err(DecodeError::Malformed),
            }
        },
    }
}

/// Whether a decoding result matches what `decode_spec` gives.
pub open spec fn decoded_as(
    r: Result<Request, DecodeError>,
    expected: Result<(Method, Seq<char>, Seq<char>), DecodeError>,
) -> bool {
    match (r, expected) {
        (Ok(req), Ok((m, p, b))) => req.method == m && req.path@ == p && req.body@ == b,
        (Err(e), Err(f)) => e == f,
        _ => false,
    }
}

/// Whether two byte strings are equal.
pub fn bytes_equal(a: &[u8], b: &[u8]) -> (r: bool)
    ensures
        r == (a@ == b@),
{
    if a.len() != b.len() {
        return false;
    }
    let mut i: usize = 0;
    while i < a.len()
        invariant
            a@.len() == b@.len(),
            i <= a@.len(),
            a@.take(i as int) == b@.take(i as int),
        decreases a@.len() - i,
    {
        if a[i] != b[i] {
            assert(a@[i as int] != b@[i as int]);
            return false;
        }
        assert(a@.take(i + 1) =~= a@.take(i as int).push(a@[i as int]));
        assert(b@.take(i + 1) =~= b@.take(i as int).push(b@[i as int]));
        i = i + 1;
    }
    assert(a@ =~= a@.take(i as int));
    assert(b@ =~= b@.take(i as int));
    true
}

/// The method that the bytes `m` name.
pub fn method_from(m: &[u8]) -> (r: Method)
    ensures
        r == method_of(m@),
{
    if bytes_equal(m, "GET".as_bytes()) {
        Method::Get
    } else if bytes_equal(m, "PUT".as_bytes()) {
        Method::Put
    } else {
        Method::Other
    }
}

/// The body length announced by `headers`.
pub fn announced_length(headers: &Vec<HeaderLine>) -> (r: Result<usize, DecodeError>)
    ensures
        match (r, body_length(headers@.map_values(|h: HeaderLine| h@))) {
            (Ok(n), Ok(m)) => n == m,
            (Err(e), Err(f)) => e == f,
            _ => false,
        },
{
    let ghost hs = headers@.map_values(|h: HeaderLine| h@);
    let ghost name = "Content-Length".spec_bytes();
    let mut last: Option<&Vec<u8>> = None;
    let mut i: usize = 0;
    while i < headers.len()
        invariant
            i <= headers@.len(),
            hs == headers@.map_values(|h: HeaderLine| h@),
            name == "Content-Length".spec_bytes(),
            match last {
                None => last_value_named(hs.take(i as int), name) is None,
                Some(v) => last_value_named(hs.take(i as int), name) == Some(v@),
            },
        decreases headers@.len() - i,
    {
        assert(hs.take(i + 1).drop_last() =~= hs.take(i as int));
        if bytes_equal(headers[i].name.as_slice(), "Content-Length".as_bytes()) {
            last = Some(&headers[i].value);
        }
        i = i + 1;
    }
    assert(hs.take(i as int) =~= hs);
    match last {
        None => Ok(0),
        Some(v) => match parse_usize(v.as_slice()) {
            Some(n) => Ok(n),
            None => Err(DecodeError::BadContentLength),
        },
    }
}

/// Decodes the request in `buf`, whose head has already been read as `head`.
pub fn decode_head(head: &RequestHead, buf: &[u8]) -> (r: Result<Request, DecodeError>)
    ensures
        decoded_as(r, decode_spec(head@, buf@)),
{
    let n = match announced_length(&head.headers) {
        Ok(n) => n,
        Err(e) => return Err(e),
    };
    let start = head.body_start;
    if n > buf.len() || start > buf.len() - n {
        return Err(DecodeError::BodyOutOfRange);
    }
    let body = match text_of(slice_subrange(buf, start, start + n)) {
        Some(b) => b,
        None => return Err(DecodeError::BodyNotText),
    };
    match (&head.method, &head.path) {
        (Some(m), Some(p)) => Ok(Request { method: method_from(m.as_slice()), path: p.clone(), body }),
        _ => Err(DecodeError::Malformed),
    }
}

/// Decodes the request at the front of `buf`.
pub fn decode(buf: &[u8]) -> (r: Result<Request, DecodeError>)
    ensures
        parsed_head(buf@) is None ==> r == Err::<Request, DecodeError>(DecodeError::Incomplete)
            || r == Err::<Request, DecodeError>(DecodeError::Malformed),
        parsed_head(buf@) matches Some(h) ==> decoded_as(r, decode_spec(h, buf@)),
{
    match parse_head(buf) {
        HeadParse::Complete(head) => decode_head(&head, buf),
        HeadParse::Partial => Err(DecodeError::Incomplete),
        HeadParse::Invalid => Err(DecodeError::Malformed),
    }
}

} // verus!

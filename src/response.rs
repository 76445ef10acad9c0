use vstd::prelude::*;
use vstd::string::StringSliceAdditionalSpecFns;
use vstd::utf8::encode_utf8;

use crate::numeral::{decimal, push_decimal};

verus! {

/// What the store answers to one request.
#[derive(Debug, PartialEq, Eq)]
pub enum Reply {
    /// A read found this value.
    Value(String),
    /// A read of this key found nothing.
    Missing(String),
    /// A read named no key.
    NoKeySpecified,
    /// A write overwrote this key with this value.
    Updated(String, String),
    /// A write created this key with this value.
    Created(String, String),
    /// A write named no key.
    BadRequest,
    /// The method is not one the store serves.
    Unsupported,
}

/// The status line that answers with `r`.
pub open spec fn status_line(r: &Reply) -> Seq<u8> {
    match r {
        Reply::Value(_) | Reply::NoKeySpecified | Reply::Created(_, _) => "HTTP/1.1 200 OK".spec_bytes(),
        Reply::Missing(_) | Reply::Unsupported => "HTTP/1.1 404 NOT FOUND".spec_bytes(),
        Reply::Updated(_, _) => "HTTP/1.1 OK".spec_bytes(),
        Reply::BadRequest => "HTTP/1.1 400 BAD REQUEST".spec_bytes(),
    }
}

/// The message text that answers with `r`, as UTF-8.
pub open spec fn message(r: &Reply) -> Seq<u8> {
    match r {
        Reply::Value(v) => encode_utf8(v@) + "\r\n".spec_bytes(),
        Reply::Missing(k) => "'".spec_bytes() + encode_utf8(k@) + "' not found\n".spec_bytes(),
        Reply::NoKeySpecified => "No key specified\n".spec_bytes(),
        Reply::Updated(k, v) => encode_utf8(k@) + " updated with ".spec_bytes() + encode_utf8(v@)
            + "\n".spec_bytes(),
        Reply::Created(k, v) => encode_utf8(k@) + ":".spec_bytes() + encode_utf8(v@)
            + " put success\n".spec_bytes(),
        Reply::BadRequest => "destination not specified\n".spec_bytes(),
        Reply::Unsupported => "Request not supported".spec_bytes(),
    }
}

/// A response: the status line, a `Content-Length` header giving the length
/// of `body` in bytes, an empty line, and `body`.
pub open spec fn framed(status: Seq<u8>, body: Seq<u8>) -> Seq<u8> {
    status + "\r\nContent-Length: ".spec_bytes() + decimal(body.len()) + "\r\n\r\n".spec_bytes()
        + body
}

/// Appends `b` to `out`.
fn append(out: &mut Vec<u8>, b: &[u8])
    ensures
        final(out)@ == old(out)@ + b@,
{
    let mut i: usize = 0;
    while i < b.len()
        invariant
            i <= b@.len(),
            out@ == old(out)@ + b@.take(i as int),
        decreases b@.len() - i,
    {
        out.push(b[i]);
        assert(b@.take(i + 1) =~= b@.take(i as int).push(b@[i as int]));
        i = i + 1;
    }
    assert(b@.take(i as int) =~= b@);
}

/// The message text that answers with `r`.
pub fn message_of(r: &Reply) -> (m: Vec<u8>)
    ensures
        m@ == message(r),
{
    let mut m: Vec<u8> = Vec::new();
    match r {
        Reply::Value(v) => {
            append(&mut m, v.as_str().as_bytes());
            append(&mut m, "\r\n".as_bytes());
        },
        Reply::Missing(k) => {
            append(&mut m, "'".as_bytes());
            append(&mut m, k.as_str().as_bytes());
            append(&mut m, "' not found\n".as_bytes());
        },
        Reply::NoKeySpecified => append(&mut m, "No key specified\n".as_bytes()),
        Reply::Updated(k, v) => {
            append(&mut m, k.as_str().as_bytes());
            append(&mut m, " updated with ".as_bytes());
            append(&mut m, v.as_str().as_bytes());
            append(&mut m, "\n".as_bytes());
        },
        Reply::Created(k, v) => {
            append(&mut m, k.as_str().as_bytes());
            append(&mut m, ":".as_bytes());
            append(&mut m, v.as_str().as_bytes());
            append(&mut m, " put success\n".as_bytes());
        },
        Reply::BadRequest => append(&mut m, "destination not specified\n".as_bytes()),
        Reply::Unsupported => append(&mut m, "Request not supported".as_bytes()),
    }
    assert(m@ =~= message(r));
    m
}

/// The status line that answers with `r`.
pub fn status_line_of(r: &Reply) -> (s: &'static str)
    ensures
        s.spec_bytes() == status_line(r),
{
    match r {
        Reply::Value(_) | Reply::NoKeySpecified | Reply::Created(_, _) => "HTTP/1.1 200 OK",
        Reply::Missing(_) | Reply::Unsupported => "HTTP/1.1 404 NOT FOUND",
        Reply::Updated(_, _) => "HTTP/1.1 OK",
        Reply::BadRequest => "HTTP/1.1 400 BAD REQUEST",
    }
}

/// The bytes of the response that answers with `r`.
pub fn render(r: &Reply) -> (out: Vec<u8>)
    ensures
        out@ == framed(status_line(r), message(r)),
{
    let body = message_of(r);
    let mut out: Vec<u8> = Vec::new();
    append(&mut out, status_line_of(r).as_bytes());
    append(&mut out, "\r\nContent-Length: ".as_bytes());
    push_decimal(&mut out, body.len());
    append(&mut out, "\r\n\r\n".as_bytes());
    append(&mut out, body.as_slice());
    out
}

} // verus!

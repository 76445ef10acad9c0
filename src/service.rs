use vstd::prelude::*;
use vstd::string::StrSliceExecFns;

use crate::request::{decode, decode_spec, decoded_as, parsed_head, DecodeError, Method, Request};
use crate::response::{framed, message, render, status_line, Reply};
use crate::shared::Store;
use crate::store::{get_spec, put_outcome_spec, put_spec, Database, Lookup, PutError, PutOutcome};

verus! {

/// The key that a request path names: the path without its leading `/`
/// (whatever its first character is). An empty path names no key.
pub open spec fn key_spec(path: Seq<char>) -> Seq<char> {
    if path.len() == 0 {
        path
    } else {
        path.drop_first()
    }
}

/// The key that `path` names.
pub fn key_of_path(path: &str) -> (k: &str)
    ensures
        k@ == key_spec(path@),
{
    let n = path.unicode_len();
    if n == 0 {
        path
    } else {
        path.substring_char(1, n)
    }
}

/// Whether `r` is the reply to a read of `key` that gave `l`.
pub open spec fn reply_to_read(key: Seq<char>, l: Lookup<Seq<char>>, r: Reply) -> bool {
    match l {
        Lookup::Found(v) => r matches Reply::Value(w) && w@ == v,
        Lookup::NotFound => r matches Reply::Missing(k) && k@ == key,
        Lookup::NoKeySpecified => r == Reply::NoKeySpecified,
    }
}

/// Whether `r` is the reply to a write of `value` under `key` that gave `o`.
pub open spec fn reply_to_write(
    key: Seq<char>,
    value: Seq<char>,
    o: Result<PutOutcome, PutError>,
    r: Reply,
) -> bool {
    match o {
        Ok(PutOutcome::Updated) => r matches Reply::Updated(k, v) && k@ == key && v@ == value,
        Ok(PutOutcome::Created) => r matches Reply::Created(k, v) && k@ == key && v@ == value,
        Err(PutError::BadRequest) => r == Reply::BadRequest,
    }
}

/// The reply to a read of `key` that gave `l`.
pub fn read_reply(key: &str, l: Lookup<String>) -> (r: Reply)
    ensures
        reply_to_read(key@, l@, r),
{
    match l {
        Lookup::Found(v) => Reply::Value(v),
        Lookup::NotFound => Reply::Missing(key.to_owned()),
        Lookup::NoKeySpecified => Reply::NoKeySpecified,
    }
}

/// The reply to a write of `value` under `key` that gave `o`.
pub fn write_reply(key: &str, value: &str, o: Result<PutOutcome, PutError>) -> (r: Reply)
    ensures
        reply_to_write(key@, value@, o, r),
{
    match o {
        Ok(PutOutcome::Updated) => Reply::Updated(key.to_owned(), value.to_owned()),
        Ok(PutOutcome::Created) => Reply::Created(key.to_owned(), value.to_owned()),
        Err(PutError::BadRequest) => Reply::BadRequest,
    }
}

/// Whether `r` can answer a read of the key that `path` names from a store
/// that other workers may change meanwhile: no key gives `NoKeySpecified`,
/// otherwise a value or a miss that echoes the key.
pub open spec fn read_served(path: Seq<char>, r: Reply) -> bool {
    if key_spec(path).len() == 0 {
        r == Reply::NoKeySpecified
    } else {
        r is Value || (r matches Reply::Missing(k) && k@ == key_spec(path))
    }
}

/// Whether `r` can answer a write of `body` under the key that `path` names
/// to a store that other workers may change meanwhile: no key gives
/// `BadRequest`, otherwise an update or a creation that echoes key and body.
pub open spec fn write_served(path: Seq<char>, body: Seq<char>, r: Reply) -> bool {
    if key_spec(path).len() == 0 {
        r == Reply::BadRequest
    } else {
        (r matches Reply::Updated(k, v) && k@ == key_spec(path) && v@ == body) || (r matches Reply::Created(
            k,
            v,
        ) && k@ == key_spec(path) && v@ == body)
    }
}

/// Whether `r` can answer the request (`m`, `path`, `body`) from the shared
/// store.
pub open spec fn served(m: Method, path: Seq<char>, body: Seq<char>, r: Reply) -> bool {
    match m {
        Method::Get => read_served(path, r),
        Method::Put => write_served(path, body, r),
        Method::Other => r == Reply::Unsupported,
    }
}

/// Serves a read of the key that `path` names from the shared store.
pub fn get(path: &str, store: &Store) -> (r: Reply)
    ensures
        read_served(path@, r),
{
    let key = key_of_path(path);
    read_reply(key, store.get(key))
}

/// Serves a write of `value` under the key that `path` names to the shared
/// store.
pub fn put(path: &str, value: &str, store: &Store) -> (r: Reply)
    ensures
        write_served(path@, value@, r),
{
    let key = key_of_path(path);
    write_reply(key, value, store.put(key, value))
}

/// Serves a decoded request from the shared store: a read through `get`, a
/// write of the body through `put`, and any other method as unsupported.
pub fn serve(req: &Request, store: &Store) -> (r: Reply)
    ensures
        served(req.method, req.path@, req.body@, r),
{
    match req.method {
        Method::Get => get(req.path.as_str(), store),
        Method::Put => put(req.path.as_str(), req.body.as_str(), store),
        Method::Other => Reply::Unsupported,
    }
}

/// Serves a decoded request from a store owned by one caller, which nobody
/// else changes meanwhile, so that the reply is fixed by the store's contents.
pub fn answer(req: &Request, db: &mut Database) -> (r: Reply)
    requires
        old(db).wf(),
    ensures
        final(db).wf(),
        req.method == Method::Get ==> {
            &&& reply_to_read(key_spec(req.path@), get_spec(old(db)@, key_spec(req.path@)), r)
            &&& final(db)@ == old(db)@
        },
        req.method == Method::Put ==> {
            &&& reply_to_write(
                key_spec(req.path@),
                req.body@,
                put_outcome_spec(old(db)@, key_spec(req.path@)),
                r,
            )
            &&& final(db)@ == put_spec(old(db)@, key_spec(req.path@), req.body@)
        },
        req.method == Method::Other ==> r == Reply::Unsupported && final(db)@ == old(db)@,
{
    let key = key_of_path(req.path.as_str());
    match req.method {
        Method::Get => read_reply(key, db.get(key)),
        Method::Put => {
            let o = db.put(key, req.body.as_str());
            write_reply(key, req.body.as_str(), o)
        },
        Method::Other => Reply::Unsupported,
    }
}

/// Handles one request held in `buf` against the shared store, giving the
/// bytes of the response, or why the buffer holds no request to serve.
///
/// The response frames a reply that serving the decoded request can give:
/// the status line, a `Content-Length` header with the message's length in
/// bytes, an empty line, and the message.
pub fn handle_request(buf: &[u8], store: &Store) -> (r: Result<Vec<u8>, DecodeError>)
    ensures
        parsed_head(buf@) is None ==> r == Err::<Vec<u8>, DecodeError>(DecodeError::Incomplete)
            || r == Err::<Vec<u8>, DecodeError>(DecodeError::Malformed),
        parsed_head(buf@) matches Some(h) ==> match decode_spec(h, buf@) {
            Err(e) => r == Err::<Vec<u8>, DecodeError>(e),
            Ok((m, p, b)) => r matches Ok(out) && exists|rep: Reply|
                #[trigger] served(m, p, b, rep) && out@ == framed(status_line(&rep), message(&rep)),
        },
        parsed_head(buf@) matches Some(h) ==> match decode_spec(h, buf@) {
            Ok((Method::Other, _, _)) => (r matches Ok(out) && out@ == framed(
                status_line(&Reply::Unsupported),
                message(&Reply::Unsupported),
            )),
            _ => true,
        },
{
    match decode(buf) {
        Ok(req) => {
            let reply = serve(&req, store);
            let out = render(&reply);
            assert(served(req.method, req.path@, req.body@, reply));
            Ok(out)
        },
        Err(e) => Err(e),
    }
}

} // verus!

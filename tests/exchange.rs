use altius::request::{decode, decode_head, DecodeError, HeaderLine, Method, RequestHead};
use altius::response::{render, Reply};
use altius::service::{answer, get, handle_request, key_of_path, put, serve};
use altius::shared::Store;
use altius::store::Database;

#[test]
fn decodes_get_request() {
    let req = decode(b"GET /x HTTP/1.1\r\nHost: a\r\n\r\n").unwrap();
    assert_eq!(req.method, Method::Get);
    assert_eq!(req.path, "/x");
    assert_eq!(req.body, "");
}

#[test]
fn decodes_put_request_with_body() {
    let req = decode(b"PUT /key HTTP/1.1\r\nContent-Length: 5\r\n\r\nhello and more").unwrap();
    assert_eq!(req.method, Method::Put);
    assert_eq!(req.path, "/key");
    assert_eq!(req.body, "hello");
}

#[test]
fn last_content_length_counts() {
    let req = decode(b"PUT /k HTTP/1.1\r\nContent-Length: 9\r\nContent-Length: 2\r\n\r\nabc").unwrap();
    assert_eq!(req.body, "ab");
}

#[test]
fn other_methods_decode_as_other() {
    let req = decode(b"POST /k HTTP/1.1\r\n\r\n").unwrap();
    assert_eq!(req.method, Method::Other);
}

#[test]
fn decode_errors() {
    assert_eq!(decode(b"GET /x HTTP/1.1\r\nHost").err(), Some(DecodeError::Incomplete));
    assert_eq!(decode(b"GET /x HTTQ/1.1\r\n\r\n").err(), Some(DecodeError::Malformed));
    assert_eq!(
        decode(b"PUT /k HTTP/1.1\r\nContent-Length: x\r\n\r\nab").err(),
        Some(DecodeError::BadContentLength)
    );
    assert_eq!(
        decode(b"PUT /k HTTP/1.1\r\nContent-Length: 10\r\n\r\nab").err(),
        Some(DecodeError::BodyOutOfRange)
    );
    assert_eq!(
        decode(b"PUT /k HTTP/1.1\r\nContent-Length: 2\r\n\r\n\xff\xfe").err(),
        Some(DecodeError::BodyNotText)
    );
}

#[test]
fn decode_head_uses_given_head() {
    let head = RequestHead {
        method: Some(b"PUT".to_vec()),
        path: Some(String::from("/a")),
        headers: vec![HeaderLine { name: b"Content-Length".to_vec(), value: b"3".to_vec() }],
        body_start: 2,
    };
    let req = decode_head(&head, b"xxabcd").unwrap();
    assert_eq!(req.method, Method::Put);
    assert_eq!(req.body, "abc");
    let no_path = RequestHead { method: Some(b"GET".to_vec()), path: None, headers: vec![], body_start: 0 };
    assert_eq!(decode_head(&no_path, b"").err(), Some(DecodeError::Malformed));
}

#[test]
fn key_drops_first_character() {
    assert_eq!(key_of_path("/abc"), "abc");
    assert_eq!(key_of_path("/"), "");
    assert_eq!(key_of_path(""), "");
    assert_eq!(key_of_path("éx"), "x");
}

#[test]
fn renders_framed_responses() {
    assert_eq!(render(&Reply::Value(String::from("1"))), b"HTTP/1.1 200 OK\r\nContent-Length: 3\r\n\r\n1\r\n".to_vec());
    assert_eq!(
        render(&Reply::Missing(String::from("x"))),
        b"HTTP/1.1 404 NOT FOUND\r\nContent-Length: 14\r\n\r\n'x' not found\n".to_vec()
    );
    assert_eq!(
        render(&Reply::NoKeySpecified),
        b"HTTP/1.1 200 OK\r\nContent-Length: 17\r\n\r\nNo key specified\n".to_vec()
    );
    assert_eq!(
        render(&Reply::Updated(String::from("x"), String::from("2"))),
        b"HTTP/1.1 OK\r\nContent-Length: 17\r\n\r\nx updated with 2\n".to_vec()
    );
    assert_eq!(
        render(&Reply::Created(String::from("x"), String::from("1"))),
        b"HTTP/1.1 200 OK\r\nContent-Length: 16\r\n\r\nx:1 put success\n".to_vec()
    );
    assert_eq!(
        render(&Reply::BadRequest),
        b"HTTP/1.1 400 BAD REQUEST\r\nContent-Length: 26\r\n\r\ndestination not specified\n".to_vec()
    );
    assert_eq!(
        render(&Reply::Unsupported),
        b"HTTP/1.1 404 NOT FOUND\r\nContent-Length: 21\r\n\r\nRequest not supported".to_vec()
    );
}

#[test]
fn serves_paths_against_shared_store() {
    let store = Store::new();
    assert_eq!(get("/x", &store), Reply::Missing(String::from("x")));
    assert_eq!(put("/x", "1", &store), Reply::Created(String::from("x"), String::from("1")));
    assert_eq!(get("/x", &store), Reply::Value(String::from("1")));
    assert_eq!(put("/x", "2", &store), Reply::Updated(String::from("x"), String::from("2")));
    assert_eq!(get("/x", &store), Reply::Value(String::from("2")));
    assert_eq!(get("", &store), Reply::NoKeySpecified);
    assert_eq!(get("/", &store), Reply::NoKeySpecified);
    assert_eq!(put("/", "v", &store), Reply::BadRequest);
}

#[test]
fn serve_and_answer_agree() {
    let store = Store::new();
    let mut db = Database::new();
    for raw in [
        &b"GET /k HTTP/1.1\r\n\r\n"[..],
        &b"PUT /k HTTP/1.1\r\nContent-Length: 1\r\n\r\n7"[..],
        &b"GET /k HTTP/1.1\r\n\r\n"[..],
        &b"DELETE /k HTTP/1.1\r\n\r\n"[..],
    ] {
        let req = decode(raw).unwrap();
        assert_eq!(serve(&req, &store), answer(&req, &mut db));
    }
}

#[test]
fn handles_raw_requests() {
    let store = Store::new();
    let out = handle_request(b"PUT /x HTTP/1.1\r\nContent-Length: 1\r\n\r\n1", &store).unwrap();
    assert_eq!(out, b"HTTP/1.1 200 OK\r\nContent-Length: 16\r\n\r\nx:1 put success\n".to_vec());
    let out = handle_request(b"GET /x HTTP/1.1\r\n\r\n", &store).unwrap();
    assert_eq!(out, b"HTTP/1.1 200 OK\r\nContent-Length: 3\r\n\r\n1\r\n".to_vec());
    assert_eq!(handle_request(b"GET /x", &store).err(), Some(DecodeError::Incomplete));
}

#[test]
fn other_method_gets_framed_not_supported() {
    let store = Store::new();
    let out = handle_request(b"DELETE /x HTTP/1.1\r\n\r\n", &store).unwrap();
    assert_eq!(out, b"HTTP/1.1 404 NOT FOUND\r\nContent-Length: 21\r\n\r\nRequest not supported".to_vec());
    assert_eq!(get("/x", &store), Reply::Missing(String::from("x")));
}

#[test]
fn raw_requests_with_empty_keys() {
    let store = Store::new();
    let out = handle_request(b"GET / HTTP/1.1\r\n\r\n", &store).unwrap();
    assert_eq!(out, b"HTTP/1.1 200 OK\r\nContent-Length: 17\r\n\r\nNo key specified\n".to_vec());
    let out = handle_request(b"PUT / HTTP/1.1\r\nContent-Length: 1\r\n\r\nv", &store).unwrap();
    assert_eq!(out, b"HTTP/1.1 400 BAD REQUEST\r\nContent-Length: 26\r\n\r\ndestination not specified\n".to_vec());
}

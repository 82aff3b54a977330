use http_server::method::Method;
use http_server::query_string::{QueryString, Value};
use http_server::request::{ParseError, Request};

fn single(q: &QueryString, k: &str) -> String {
    match q.get(k) {
        Some(Value::Single(v)) => v.clone(),
        other => panic!("expected one value for {}, got {:?}", k, other),
    }
}

fn multiple(q: &QueryString, k: &str) -> Vec<String> {
    match q.get(k) {
        Some(Value::Multiple(vs)) => vs.clone(),
        other => panic!("expected several values for {}, got {:?}", k, other),
    }
}

fn error_of(buf: &[u8]) -> ParseError {
    match Request::try_from(buf) {
        Ok(r) => panic!("expected an error, got {:?}", r),
        Err(e) => e,
    }
}

#[test]
fn well_formed_line_gives_method_and_path() {
    let r = Request::try_from(&b"POST /a/b HTTP/1.1\r\nHost: example\r\n\r\n"[..]).unwrap();
    assert_eq!(*r.method(), Method::POST);
    assert_eq!(r.path(), "/a/b");
    assert!(r.query_string().is_none());
}

#[test]
fn every_method_name_is_accepted() {
    let names = [
        ("GET", Method::GET),
        ("DELETE", Method::DELETE),
        ("POST", Method::POST),
        ("PUT", Method::PUT),
        ("HEAD", Method::HEAD),
        ("CONNECT", Method::CONNECT),
        ("OPTIONS", Method::OPTIONS),
        ("TRACE", Method::TRACE),
        ("PATCH", Method::PATCH),
    ];
    for (name, m) in names {
        let line = format!("{} /x?k=v HTTP/1.1\r\n", name);
        let r = Request::try_from(line.as_bytes()).unwrap();
        assert_eq!(*r.method(), m);
        assert_eq!(r.path(), "/x");
    }
}

#[test]
fn search_query_is_split_into_pairs() {
    let r = Request::try_from(&b"GET /search?q=rust&lang=en HTTP/1.1\r\n\r\n"[..]).unwrap();
    assert_eq!(r.path(), "/search");
    let q = r.query_string().unwrap();
    assert_eq!(q.len(), 2);
    assert_eq!(single(q, "q"), "rust");
    assert_eq!(single(q, "lang"), "en");
    assert!(q.get("missing").is_none());
}

#[test]
fn repeated_name_gathers_values_in_order() {
    let r = Request::try_from(&b"GET /dup?a=1&a=2 HTTP/1.1\r\n\r\n"[..]).unwrap();
    let q = r.query_string().unwrap();
    assert_eq!(q.len(), 1);
    assert_eq!(multiple(q, "a"), vec!["1".to_string(), "2".to_string()]);
}

#[test]
fn third_repetition_appends() {
    let r = Request::try_from(&b"GET /dup?a=1&b&a=2&a=3 HTTP/1.1\r\n"[..]).unwrap();
    let q = r.query_string().unwrap();
    assert_eq!(q.len(), 2);
    assert_eq!(
        multiple(q, "a"),
        vec!["1".to_string(), "2".to_string(), "3".to_string()]
    );
    assert_eq!(single(q, "b"), "");
}

#[test]
fn only_first_question_mark_splits() {
    let r = Request::try_from(&b"GET /p?a=b?c=d HTTP/1.1\r\n"[..]).unwrap();
    assert_eq!(r.path(), "/p");
    let q = r.query_string().unwrap();
    assert_eq!(single(q, "a"), "b?c=d");
}

#[test]
fn empty_query_gives_one_empty_entry() {
    let r = Request::try_from(&b"GET /p? HTTP/1.1\r\n"[..]).unwrap();
    assert_eq!(r.path(), "/p");
    let q = r.query_string().unwrap();
    assert_eq!(q.len(), 1);
    assert_eq!(single(q, ""), "");
}

#[test]
fn other_protocol_is_rejected() {
    assert_eq!(error_of(b"GET / HTTP/2.0\r\n\r\n"), ParseError::InvalidProtocol);
    assert_eq!(error_of(b"GET / http/1.1\r\n"), ParseError::InvalidProtocol);
    assert_eq!(error_of(b"GET / HTTP/1.1x\r\n"), ParseError::InvalidProtocol);
}

#[test]
fn unknown_method_is_rejected() {
    assert_eq!(error_of(b"FOO / HTTP/1.1\r\n\r\n"), ParseError::InvalidMethod);
    assert_eq!(error_of(b"get / HTTP/1.1\r\n"), ParseError::InvalidMethod);
    assert_eq!(error_of(b" / HTTP/1.1\r\n"), ParseError::InvalidMethod);
}

#[test]
fn protocol_is_checked_before_method() {
    assert_eq!(error_of(b"FOO / HTTP/2.0\r\n"), ParseError::InvalidProtocol);
}

#[test]
fn invalid_utf8_is_rejected_first() {
    assert_eq!(error_of(b"GET /\xff HTTP/1.1\r\n\r\n"), ParseError::InvalidEncoding);
    assert_eq!(error_of(b"GET / HTTP/1.1\r\n\xc3"), ParseError::InvalidEncoding);
    assert_eq!(error_of(b"\xe2\x82"), ParseError::InvalidEncoding);
}

#[test]
fn missing_delimiters_are_rejected() {
    assert_eq!(error_of(b"GET/HTTP/1.1"), ParseError::InvalidRequest);
    assert_eq!(error_of(b""), ParseError::InvalidRequest);
    assert_eq!(error_of(b"GET / HTTP/1.1"), ParseError::InvalidRequest);
    assert_eq!(error_of(b"GET /"), ParseError::InvalidRequest);
}

#[test]
fn bare_carriage_returns_end_words() {
    let r = Request::try_from(&b"GET\r/x\rHTTP/1.1\r"[..]).unwrap();
    assert_eq!(*r.method(), Method::GET);
    assert_eq!(r.path(), "/x");
}

#[test]
fn line_feed_is_not_a_delimiter() {
    assert_eq!(error_of(b"GET / HTTP/1.1\n\r"), ParseError::InvalidProtocol);
}

#[test]
fn non_ascii_path_is_kept_whole() {
    let r = Request::try_from("GET /caf\u{e9}?n=\u{e9}t\u{e9} HTTP/1.1\r\n".as_bytes()).unwrap();
    assert_eq!(r.path(), "/caf\u{e9}");
    assert_eq!(single(r.query_string().unwrap(), "n"), "\u{e9}t\u{e9}");
}

#[test]
fn zero_filled_receive_buffer_parses() {
    let mut buf = [0u8; 1024];
    let line = b"GET /index?x=1 HTTP/1.1\r\n\r\n";
    buf[..line.len()].copy_from_slice(line);
    let r = Request::try_from(&buf[..]).unwrap();
    assert_eq!(r.path(), "/index");
    assert_eq!(single(r.query_string().unwrap(), "x"), "1");
}

#[test]
fn parsing_twice_gives_the_same_result() {
    let buf = b"PUT /same?k=v&k=w HTTP/1.1\r\n";
    let a = Request::try_from(&buf[..]).unwrap();
    let b = Request::try_from(&buf[..]).unwrap();
    assert_eq!(a.method(), b.method());
    assert_eq!(a.path(), b.path());
    assert_eq!(
        multiple(a.query_string().unwrap(), "k"),
        multiple(b.query_string().unwrap(), "k")
    );
    assert_eq!(error_of(b"BAD / HTTP/1.1\r\n"), error_of(b"BAD / HTTP/1.1\r\n"));
}

#[test]
fn error_messages() {
    assert_eq!(ParseError::InvalidEncoding.message(), "Invalid Encoding");
    assert_eq!(ParseError::InvalidMethod.message(), "Invalid Method");
    assert_eq!(ParseError::InvalidProtocol.message(), "Invalid Protocol");
    assert_eq!(ParseError::InvalidRequest.message(), "Invalid Request");
}

#[test]
fn method_from_text_is_exact() {
    assert_eq!(Method::from_text("PATCH"), Some(Method::PATCH));
    assert_eq!(Method::from_text("PATCHX"), None);
    assert_eq!(Method::from_text(""), None);
}

#[test]
fn query_string_from_raw_text() {
    let q = QueryString::from("x=1&y&x=2&z=a=b");
    assert_eq!(q.len(), 3);
    assert_eq!(multiple(&q, "x"), vec!["1".to_string(), "2".to_string()]);
    assert_eq!(single(&q, "y"), "");
    assert_eq!(single(&q, "z"), "a=b");
}

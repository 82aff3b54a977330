use http_server::request::{ParseError, Request};
use http_server::server::{bad_request, on_read, Handler, Response, Server, StatusCode, Step};

struct Echo;

impl Handler for Echo {
    fn handle_request(&mut self, request: &Request) -> Response {
        Response::new(StatusCode::OK, Some(request.path().to_string()))
    }
}

#[test]
fn failed_read_abandons_the_connection() {
    assert!(matches!(on_read(None, b"GET / HTTP/1.1\r\n"), Step::Abandon));
}

#[test]
fn good_request_is_handed_to_the_handler() {
    let mut h = Echo;
    match on_read(Some(28), b"GET /hello?x=1 HTTP/1.1\r\n\r\n") {
        Step::Handle(req) => {
            let resp = h.handle_request(&req);
            assert_eq!(resp.status_code(), StatusCode::OK);
            assert_eq!(resp.status_code().code(), 200);
            assert_eq!(resp.body(), Some("/hello"));
        }
        other => panic!("expected a request, got {:?}", other),
    }
}

#[test]
fn garbage_gets_bad_request() {
    let mut h = Echo;
    match on_read(Some(9), b"\x00\x01garbage") {
        Step::Reject(e) => {
            assert_eq!(e, ParseError::InvalidRequest);
            let resp = h.handle_bad_request(&e);
            assert_eq!(resp.status_code(), StatusCode::BadRequest);
            assert_eq!(resp.status_code().code(), 400);
            assert_eq!(resp.body(), None);
        }
        other => panic!("expected a rejection, got {:?}", other),
    }
}

#[test]
fn empty_read_abandons_the_connection() {
    let buf = [0u8; 1024];
    assert!(matches!(on_read(Some(0), &buf[..]), Step::Abandon));
}

#[test]
fn default_bad_request_hook_for_every_error() {
    let mut h = Echo;
    for e in [
        ParseError::InvalidRequest,
        ParseError::InvalidEncoding,
        ParseError::InvalidProtocol,
        ParseError::InvalidMethod,
    ] {
        let resp = h.handle_bad_request(&e);
        assert_eq!(resp.status_code(), StatusCode::BadRequest);
        assert_eq!(resp.body(), None);
    }
}

#[test]
fn bad_request_response_has_no_body() {
    let r = bad_request();
    assert_eq!(r.status_code(), StatusCode::BadRequest);
    assert_eq!(r.body(), None);
    assert_eq!(StatusCode::NotFound.code(), 404);
}

#[test]
fn server_keeps_its_address() {
    let s = Server::new("127.0.0.1:8080".to_string());
    assert_eq!(s.addr(), "127.0.0.1:8080");
}

#[test]
fn reason_phrases() {
    assert_eq!(StatusCode::OK.reason_phrase(), "Ok");
    assert_eq!(StatusCode::BadRequest.reason_phrase(), "Bad Request");
    assert_eq!(StatusCode::NotFound.reason_phrase(), "Not Found");
}

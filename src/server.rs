//! The decisions of the connection loop: what a received buffer leads to,
//! and the handler that turns requests into responses.
use vstd::prelude::*;
use crate::request::{parse_bytes, ParseError, Request, RequestLine};

verus! {

/// The status of a response.
#[derive(Clone, Copy, Debug, PartialEq, Eq, Structural)]
pub enum StatusCode {
    OK,
    BadRequest,
    NotFound,
}

impl StatusCode {
    pub open spec fn code_of(self) -> u16 {
        match self {
            StatusCode::OK => 200,
            StatusCode::BadRequest => 400,
            StatusCode::NotFound => 404,
        }
    }

    /// The numeric code sent on the status line.
    pub fn code(&self) -> (r: u16)
        ensures
            r == self.code_of(),
    {
        match self {
            StatusCode::OK => 200,
            StatusCode::BadRequest => 400,
            StatusCode::NotFound => 404,
        }
    }
}

impl StatusCode {
    pub open spec fn reason_of(self) -> Seq<char> {
        match self {
            StatusCode::OK => seq!['O', 'k'],
            StatusCode::BadRequest => seq!['B', 'a', 'd', ' ', 'R', 'e', 'q', 'u', 'e', 's', 't'],
            StatusCode::NotFound => seq!['N', 'o', 't', ' ', 'F', 'o', 'u', 'n', 'd'],
        }
    }

    /// The reason phrase sent after the code.
    pub fn reason_phrase(&self) -> (r: &'static str)
        ensures
            r@ == self.reason_of(),
    {
        proof {
            reveal_strlit("Ok");
            reveal_strlit("Bad Request");
            reveal_strlit("Not Found");
        }
        match self {
            StatusCode::OK => {
                assert("Ok"@ =~= self.reason_of());
                "Ok"
            },
            StatusCode::BadRequest => {
                assert("Bad Request"@ =~= self.reason_of());
                "Bad Request"
            },
            StatusCode::NotFound => {
                assert("Not Found"@ =~= self.reason_of());
                "Not Found"
            },
        }
    }
}

/// A response: a status and an optional body.
#[derive(Debug)]
pub struct Response {
    status_code: StatusCode,
    body: Option<String>,
}

impl Response {
    pub closed spec fn status_of(&self) -> StatusCode {
        self.status_code
    }

    pub closed spec fn body_of(&self) -> Option<Seq<char>> {
        match &self.body {
            Some(b) => Some(b@),
            None => None,
        }
    }

    pub fn new(status_code: StatusCode, body: Option<String>) -> (r: Response)
        ensures
            r.status_of() == status_code,
            r.body_of() == (match body {
                Some(b) => Some(b@),
                None => None::<Seq<char>>,
            }),
    {
        Response { status_code, body }
    }

    pub fn status_code(&self) -> (r: StatusCode)
        ensures
            r == self.status_of(),
    {
        self.status_code
    }

    pub fn body(&self) -> (r: Option<&str>)
        ensures
            match r {
                Some(b) => self.body_of() == Some(b@),
                None => self.body_of().is_none(),
            },
    {
        match &self.body {
            Some(b) => Some(b.as_str()),
            None => None,
        }
    }
}

/// The response to a request that could not be decoded: `400 Bad Request`
/// with no body.
pub fn bad_request() -> (r: Response)
    ensures
        r.status_of() == StatusCode::BadRequest,
        r.body_of().is_none(),
{
    Response::new(StatusCode::BadRequest, None)
}

/// What the embedding application does with requests.
pub trait Handler {
    /// The response to a decoded request.
    fn handle_request(&mut self, request: &Request) -> Response;

    /// The response to a buffer that could not be decoded; by default
    /// `400 Bad Request` with no body.
    fn handle_bad_request(&mut self, _error: &ParseError) -> (r: Response)
        default_ensures
            r.status_of() == StatusCode::BadRequest,
            r.body_of().is_none(),
    {
        bad_request()
    }
}

/// What the loop does with one connection once its read has ended.
#[derive(Debug)]
pub enum Step {
    /// The read failed or brought no bytes: the connection is dropped and
    /// nothing is sent.
    Abandon,
    /// The buffer held a request, to be handed to the handler.
    Handle(Request),
    /// The buffer held no request, for the handler's bad-request response.
    Reject(ParseError),
}

/// Decides what happens to a connection whose read has ended, given the
/// number of bytes read (`None` when the read failed) and the receive
/// buffer: nothing when the read failed or brought no bytes, else the
/// request that the buffer holds or the reason it holds none.
pub fn on_read(received: Option<usize>, buf: &[u8]) -> (r: Step)
    ensures
        (received is None || received == Some(0usize)) ==> r is Abandon,
        (received matches Some(n) && n > 0) ==> match parse_bytes(buf@) {
            Ok(line) => r matches Step::Handle(req) && req@ == line && req.wf(),
            Err(e) => r == Step::Reject(e),
        },
{
    match received {
        None => return Step::Abandon,
        Some(n) => {
            if n == 0 {
                return Step::Abandon;
            }
        },
    }
    match Request::try_from(buf) {
        Ok(req) => Step::Handle(req),
        Err(e) => Step::Reject(e),
    }
}

/// A server that listens on one address.
pub struct Server {
    addr: String,
}

impl Server {
    pub closed spec fn addr_of(&self) -> Seq<char> {
        self.addr@
    }

    pub fn new(addr: String) -> (r: Server)
        ensures
            r.addr_of() == addr@,
    {
        Server { addr }
    }

    /// The address to listen on, `host:port`.
    pub fn addr(&self) -> (r: &str)
        ensures
            r@ == self.addr_of(),
    {
        self.addr.as_str()
    }
}

} // verus!

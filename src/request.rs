//! Decoding of a request line into a method, a path and a query string.
use vstd::prelude::*;
use vstd::string::*;
use vstd::utf8::*;
use crate::method::Method;
use crate::query_string::{query_of, Entries, QueryString};
use crate::text::{
    char_pos, find_char, get_next_word, is_word_end, lemma_char_pos_bounds, lemma_word_end_absent,
    lemma_word_end_extend, next_word, same_text, word_end,
};

verus! {

/// Why a buffer could not be decoded into a request.
#[derive(Clone, Copy, Debug, PartialEq, Eq, Structural)]
pub enum ParseError {
    InvalidRequest,
    InvalidEncoding,
    InvalidProtocol,
    InvalidMethod,
}

impl ParseError {
    /// The human-readable message of each kind of error.
    pub open spec fn message_text(self) -> Seq<char> {
        match self {
            ParseError::InvalidEncoding => seq![
                'I', 'n', 'v', 'a', 'l', 'i', 'd', ' ', 'E', 'n', 'c', 'o', 'd', 'i', 'n', 'g',
            ],
            ParseError::InvalidMethod => seq![
                'I', 'n', 'v', 'a', 'l', 'i', 'd', ' ', 'M', 'e', 't', 'h', 'o', 'd',
            ],
            ParseError::InvalidProtocol => seq![
                'I', 'n', 'v', 'a', 'l', 'i', 'd', ' ', 'P', 'r', 'o', 't', 'o', 'c', 'o', 'l',
            ],
            ParseError::InvalidRequest => seq![
                'I', 'n', 'v', 'a', 'l', 'i', 'd', ' ', 'R', 'e', 'q', 'u', 'e', 's', 't',
            ],
        }
    }

    /// A human-readable message for the error.
    pub fn message(&self) -> (r: &'static str)
        ensures
            r@ == self.message_text(),
    {
        proof {
            reveal_strlit("Invalid Encoding");
            reveal_strlit("Invalid Method");
            reveal_strlit("Invalid Protocol");
            reveal_strlit("Invalid Request");
        }
        match self {
            ParseError::InvalidEncoding => {
                assert("Invalid Encoding"@ =~= self.message_text());
                "Invalid Encoding"
            },
            ParseError::InvalidMethod => {
                assert("Invalid Method"@ =~= self.message_text());
                "Invalid Method"
            },
            ParseError::InvalidProtocol => {
                assert("Invalid Protocol"@ =~= self.message_text());
                "Invalid Protocol"
            },
            ParseError::InvalidRequest => {
                assert("Invalid Request"@ =~= self.message_text());
                "Invalid Request"
            },
        }
    }
}

/// What a decoded request holds: its method, its path without the query,
/// and the entries of its query string when its path held a `?`.
pub struct RequestLine {
    pub method: Method,
    pub path: Seq<char>,
    pub query: Option<Entries>,
}

/// The only protocol accepted.
pub open spec fn http_version() -> Seq<char> {
    seq!['H', 'T', 'T', 'P', '/', '1', '.', '1']
}

/// The path of a path token: the text before its first `?`.
pub open spec fn path_part(p: Seq<char>) -> Seq<char> {
    p.subrange(0, char_pos(p, '?'))
}

/// The query of a path token: the entries of the text after its first `?`,
/// absent when it holds none.
pub open spec fn query_part(p: Seq<char>) -> Option<Entries> {
    let i = char_pos(p, '?');
    if i < p.len() {
        Some(query_of(p.subrange(i + 1, p.len() as int)))
    } else {
        None
    }
}

/// The request that a text describes: three words (method, path, protocol)
/// each ended by a space or a carriage return, the protocol exactly
/// `HTTP/1.1` and the method one of the known names. The protocol is checked
/// before the method.
pub open spec fn parse_text(s: Seq<char>) -> Result<RequestLine, ParseError> {
    match next_word(s) {
        None => Err(ParseError::InvalidRequest),
        Some((m, r1)) => match next_word(r1) {
            None => Err(ParseError::InvalidRequest),
            Some((p, r2)) => match next_word(r2) {
                None => Err(ParseError::InvalidRequest),
                Some((proto, _)) => if proto != http_version() {
                    Err(ParseError::InvalidProtocol)
                } else {
                    match Method::of_name(m) {
                        None => Err(ParseError::InvalidMethod),
                        Some(method) => Ok(
                            RequestLine { method, path: path_part(p), query: query_part(p) },
                        ),
                    }
                },
            },
        },
    }
}

/// The request that a buffer describes: the whole buffer must be valid
/// UTF-8, and its text must describe a request.
pub open spec fn parse_bytes(b: Seq<u8>) -> Result<RequestLine, ParseError> {
    if !valid_utf8(b) {
        Err(ParseError::InvalidEncoding)
    } else {
        parse_text(decode_utf8(b))
    }
}

/// Relies on std::str::from_utf8: it succeeds exactly on valid UTF-8, and the
/// text it gives is made of the bytes it was given.
#[verifier::external_body]
fn decode_text(b: &[u8]) -> (r: Option<&str>)
    ensures
        r.is_some() == valid_utf8(b@),
        r matches Some(t) ==> t.spec_bytes() == b@,
{
    std::str::from_utf8(b).ok()
}

/// A decoded request line.
#[derive(Debug)]
pub struct Request {
    path: String,
    query_string: Option<QueryString>,
    method: Method,
}

impl View for Request {
    type V = RequestLine;

    closed spec fn view(&self) -> RequestLine {
        RequestLine {
            method: self.method,
            path: self.path@,
            query: match self.query_string {
                Some(q) => Some(q.entries()),
                None => None,
            },
        }
    }
}

impl Request {
    pub closed spec fn wf(&self) -> bool {
        self.query_string matches Some(q) ==> q.wf()
    }

    /// The path, without its query string.
    pub fn path(&self) -> (r: &str)
        ensures
            r@ == self@.path,
    {
        self.path.as_str()
    }

    pub fn method(&self) -> (r: &Method)
        ensures
            *r == self@.method,
    {
        &self.method
    }

    pub fn query_string(&self) -> (r: Option<&QueryString>)
        requires
            self.wf(),
        ensures
            match r {
                Some(q) => self@.query == Some(q.entries()) && q.wf(),
                None => self@.query.is_none(),
            },
    {
        match &self.query_string {
            Some(q) => Some(q),
            None => None,
        }
    }

    /// Decodes the request line of `buf`. Only the first line counts; what
    /// follows the protocol word is ignored.
    pub fn try_from(buf: &[u8]) -> (r: Result<Request, ParseError>)
        ensures
            match r {
                Ok(req) => parse_bytes(buf@) == Ok::<RequestLine, ParseError>(req@) && req.wf(),
                Err(e) => parse_bytes(buf@) == Err::<RequestLine, ParseError>(e),
            },
    {
        let text = match decode_text(buf) {
            Some(t) => t,
            None => return Err(ParseError::InvalidEncoding),
        };
        proof {
            encode_utf8_decode_utf8(text@);
        }
        assert(text@ == decode_utf8(buf@));
        let (method, rest) = match get_next_word(text) {
            Some(w) => w,
            None => return Err(ParseError::InvalidRequest),
        };
        let (path, rest) = match get_next_word(rest) {
            Some(w) => w,
            None => return Err(ParseError::InvalidRequest),
        };
        let (protocol, _) = match get_next_word(rest) {
            Some(w) => w,
            None => return Err(ParseError::InvalidRequest),
        };
        proof {
            reveal_strlit("HTTP/1.1");
        }
        assert("HTTP/1.1"@ =~= http_version());
        if !same_text(protocol, "HTTP/1.1") {
            return Err(ParseError::InvalidProtocol);
        }
        let method = match Method::from_text(method) {
            Some(m) => m,
            None => return Err(ParseError::InvalidMethod),
        };
        proof {
            lemma_char_pos_bounds(path@, '?');
        }
        let n = path.unicode_len();
        match find_char(path, '?') {
            Some(i) => {
                let query = QueryString::from(path.substring_char(i + 1, n));
                let req = Request {
                    path: path.substring_char(0, i).to_owned(),
                    query_string: Some(query),
                    method,
                };
                assert(req@ == parse_text(text@).unwrap());
                Ok(req)
            },
            None => {
                let req = Request {
                    path: path.substring_char(0, n).to_owned(),
                    query_string: None,
                    method,
                };
                assert(req@.path =~= path_part(path@));
                Ok(req)
            },
        }
    }
}

/// A word free of delimiters, then a delimiter, then anything: the word is
/// cut off whole and the rest is what follows the delimiter.
pub proof fn lemma_next_word_of(a: Seq<char>, d: char, rest: Seq<char>)
    requires
        forall|j: int| 0 <= j < a.len() ==> !is_word_end(#[trigger] a[j]),
        is_word_end(d),
    ensures
        next_word(a + seq![d] + rest) == Some((a, rest)),
{
    let s = a + seq![d] + rest;
    lemma_word_end_absent(a);
    assert((a + seq![d]).drop_last() =~= a);
    assert(word_end(a + seq![d]) == a.len());
    lemma_word_end_extend(a + seq![d], rest);
    assert(s.subrange(0, a.len() as int) =~= a);
    assert(s.subrange(a.len() as int + 1, s.len() as int) =~= rest);
}

/// No method name holds a delimiter.
pub proof fn lemma_method_name_plain(m: Method)
    ensures
        forall|j: int| 0 <= j < m.name().len() ==> !is_word_end(#[trigger] m.name()[j]),
{
}

/// A well-formed request line `<M> <P> HTTP/1.1\r...`, with `M` the name of
/// a method and `P` free of spaces and carriage returns, decodes to that
/// method, the part of `P` before its first `?` as the path, and the
/// entries of the part after it as the query.
pub proof fn lemma_well_formed_line(m: Method, p: Seq<char>, rest: Seq<char>)
    requires
        forall|j: int| 0 <= j < p.len() ==> !is_word_end(#[trigger] p[j]),
    ensures
        parse_bytes(
            encode_utf8(
                m.name() + seq![' '] + p + seq![' '] + http_version() + seq!['\r'] + rest,
            ),
        ) == Ok::<RequestLine, ParseError>(
            RequestLine { method: m, path: path_part(p), query: query_part(p) },
        ),
{
    let tail = http_version() + seq!['\r'] + rest;
    let r1 = p + seq![' '] + tail;
    let s = m.name() + seq![' '] + p + seq![' '] + http_version() + seq!['\r'] + rest;
    assert(s =~= m.name() + seq![' '] + r1);
    encode_utf8_valid_utf8(s);
    encode_utf8_decode_utf8(s);
    lemma_method_name_plain(m);
    lemma_next_word_of(m.name(), ' ', r1);
    lemma_next_word_of(p, ' ', tail);
    assert forall|j: int| 0 <= j < http_version().len() implies !is_word_end(
        #[trigger] http_version()[j],
    ) by {}
    lemma_next_word_of(http_version(), '\r', rest);
    Method::lemma_of_own_name(m);
}

/// A buffer of valid UTF-8 whose text holds no space and no carriage return
/// is rejected as an invalid request.
pub proof fn lemma_no_delimiter(b: Seq<u8>)
    requires
        valid_utf8(b),
        forall|j: int| 0 <= j < decode_utf8(b).len() ==> !is_word_end(#[trigger] decode_utf8(b)[j]),
    ensures
        parse_bytes(b) == Err::<RequestLine, ParseError>(ParseError::InvalidRequest),
{
    lemma_word_end_absent(decode_utf8(b));
}

/// A buffer that is not valid UTF-8 is rejected for its encoding, whatever
/// words it holds.
pub proof fn lemma_invalid_encoding(b: Seq<u8>)
    requires
        !valid_utf8(b),
    ensures
        parse_bytes(b) == Err::<RequestLine, ParseError>(ParseError::InvalidEncoding),
{
}

/// Decoding depends on the bytes alone: equal buffers give equal results.
pub proof fn lemma_parse_deterministic(a: Seq<u8>, b: Seq<u8>)
    requires
        a == b,
    ensures
        parse_bytes(a) == parse_bytes(b),
{
}

} // verus!

//! The request methods that the decoder recognises.
use vstd::prelude::*;
use crate::text::same_text;

verus! {

/// A request method; matched case-sensitively against its name.
#[derive(Clone, Copy, Debug, PartialEq, Eq, Structural)]
pub enum Method {
    GET,
    DELETE,
    POST,
    PUT,
    HEAD,
    CONNECT,
    OPTIONS,
    TRACE,
    PATCH,
}

impl Method {
    /// The name by which the method is written in a request line.
    pub open spec fn name(self) -> Seq<char> {
        match self {
            Method::GET => seq!['G', 'E', 'T'],
            Method::DELETE => seq!['D', 'E', 'L', 'E', 'T', 'E'],
            Method::POST => seq!['P', 'O', 'S', 'T'],
            Method::PUT => seq!['P', 'U', 'T'],
            Method::HEAD => seq!['H', 'E', 'A', 'D'],
            Method::CONNECT => seq!['C', 'O', 'N', 'N', 'E', 'C', 'T'],
            Method::OPTIONS => seq!['O', 'P', 'T', 'I', 'O', 'N', 'S'],
            Method::TRACE => seq!['T', 'R', 'A', 'C', 'E'],
            Method::PATCH => seq!['P', 'A', 'T', 'C', 'H'],
        }
    }

    /// The method whose name is exactly `t`, if any.
    pub open spec fn of_name(t: Seq<char>) -> Option<Method> {
        if t == Method::GET.name() {
            Some(Method::GET)
        } else if t == Method::DELETE.name() {
            Some(Method::DELETE)
        } else if t == Method::POST.name() {
            Some(Method::POST)
        } else if t == Method::PUT.name() {
            Some(Method::PUT)
        } else if t == Method::HEAD.name() {
            Some(Method::HEAD)
        } else if t == Method::CONNECT.name() {
            Some(Method::CONNECT)
        } else if t == Method::OPTIONS.name() {
            Some(Method::OPTIONS)
        } else if t == Method::TRACE.name() {
            Some(Method::TRACE)
        } else if t == Method::PATCH.name() {
            Some(Method::PATCH)
        } else {
            None
        }
    }

    /// Every method is found again from its own name.
    pub proof fn lemma_of_own_name(m: Method)
        ensures
            Method::of_name(m.name()) == Some(m),
    {
    }

    /// Reads a method from its exact name; `None` for any other text.
    pub fn from_text(t: &str) -> (r: Option<Method>)
        ensures
            r == Method::of_name(t@),
    {
        proof {
            reveal_strlit("GET");
            reveal_strlit("DELETE");
            reveal_strlit("POST");
            reveal_strlit("PUT");
            reveal_strlit("HEAD");
            reveal_strlit("CONNECT");
            reveal_strlit("OPTIONS");
            reveal_strlit("TRACE");
            reveal_strlit("PATCH");
        }
        assert("GET"@ =~= Method::GET.name());
        assert("DELETE"@ =~= Method::DELETE.name());
        assert("POST"@ =~= Method::POST.name());
        assert("PUT"@ =~= Method::PUT.name());
        assert("HEAD"@ =~= Method::HEAD.name());
        assert("CONNECT"@ =~= Method::CONNECT.name());
        assert("OPTIONS"@ =~= Method::OPTIONS.name());
        assert("TRACE"@ =~= Method::TRACE.name());
        assert("PATCH"@ =~= Method::PATCH.name());
        if same_text(t, "GET") {
            Some(Method::GET)
        } else if same_text(t, "DELETE") {
            Some(Method::DELETE)
        } else if same_text(t, "POST") {
            Some(Method::POST)
        } else if same_text(t, "PUT") {
            Some(Method::PUT)
        } else if same_text(t, "HEAD") {
            Some(Method::HEAD)
        } else if same_text(t, "CONNECT") {
            Some(Method::CONNECT)
        } else if same_text(t, "OPTIONS") {
            Some(Method::OPTIONS)
        } else if same_text(t, "TRACE") {
            Some(Method::TRACE)
        } else if same_text(t, "PATCH") {
            Some(Method::PATCH)
        } else {
            None
        }
    }
}

} // verus!

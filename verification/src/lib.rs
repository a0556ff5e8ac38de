//! An HTTP request workbench for the terminal: the editing, caching,
//! dispatch and state-machine logic, stated and proved independently of
//! any terminal or network.

use vstd::prelude::*;

pub mod answer;
pub mod app;
pub mod default_key_binds;
pub mod export;
pub mod key_bind;
pub mod paragraph_with_state;
pub mod persistence;
pub mod text;
pub mod ui;
pub mod web_request_handler;

use crate::persistence::KeyValuePair;

verus! {

/// The HTTP methods that a request can be sent with.
#[derive(Copy, Clone, PartialEq, Eq, Structural, Debug)]
pub enum Method {
    GET,
    POST,
    PUT,
    DELETE,
    PATCH,
}

impl Method {
    /// The name of the method, as it is written in a request.
    pub open spec fn name(&self) -> Seq<char> {
        match self {
            Method::GET => "GET"@,
            Method::POST => "POST"@,
            Method::PUT => "PUT"@,
            Method::DELETE => "DELETE"@,
            Method::PATCH => "PATCH"@,
        }
    }

    /// The name of the method, as it is written in a request.
    pub fn as_str(&self) -> (r: &'static str)
        ensures
            r@ == self.name(),
    {
        match self {
            Method::GET => "GET",
            Method::POST => "POST",
            Method::PUT => "PUT",
            Method::DELETE => "DELETE",
            Method::PATCH => "PATCH",
        }
    }
}

/// One message of the answer to a request. A successful exchange sends
/// its status, then its headers, then its body in chunks; a failed one
/// sends `Failure` alone.
#[derive(Debug)]
pub enum Response {
    Status(u16),
    Headers(Vec<KeyValuePair>),
    Body(Vec<u8>),
    Failure,
}

/// A request as the form holds it: the headers are still the text that
/// was typed, one header a line.
#[derive(Debug)]
pub struct Request {
    pub method: Method,
    pub url: String,
    pub headers: String,
    pub body: String,
}

/// A message to the network worker.
#[derive(Debug)]
pub enum WebRequest {
    Request(Request),
    Cancel,
}

/// The direction of a scroll step in a read-only pane.
#[derive(Copy, Clone, PartialEq, Eq, Structural, Debug)]
pub enum ScrollDirection {
    Up,
    Down,
}

/// The logical actions that a key binding can trigger.
#[derive(Copy, Clone, PartialEq, Eq, Structural, Debug)]
pub enum Operation {
    GotoUrl,
    GotoRequestBody,
    GotoRequestHeaders,
    GotoResponseBody,
    GotoResponseHeaders,
    NextMethod,
    LoadRequest,
    SaveRequest,
    SaveResponse,
    GotoRequestView,
    GotoResponseView,
    SendRequest,
    Quit,
}

} // verus!

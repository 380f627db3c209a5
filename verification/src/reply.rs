//! What the endpoint answers: for each outcome of the routing, the status,
//! the headers, how the body is framed and what the body is.
//!
//! A reply is a plan. The caller hands it to its HTTP encoder: status first,
//! then the headers in their order, then the framing; the body follows only
//! where the encoder asks for one.

use crate::data::BUNDLE;
use crate::data::CSS;
use crate::data::HTML;
use crate::routing::route_of;
use crate::routing::Error;
use crate::routing::Route;
use vstd::prelude::*;

verus! {

/// The value of the `Server` header of every reply.
pub const SERVER: &'static str = "self-meter-http/0.4.1";

/// The status of a reply.
#[derive(Clone, Copy, Debug, PartialEq, Eq, Structural)]
pub enum Status {
    /// 200: the resource follows.
    Success,
    /// 404: nothing is served under the path.
    NotFound,
    /// 405: the method is not served.
    MethodNotAllowed,
}

/// How the length of a body is announced.
#[derive(Clone, Copy, Debug, PartialEq, Eq, Structural)]
pub enum Framing {
    /// A `Content-Length` header with this number of bytes.
    Length(u64),
    /// Chunked transfer encoding.
    Chunked,
}

/// What a body consists of.
#[derive(Clone, Copy, Debug, PartialEq, Eq)]
pub enum Body {
    /// This text.
    Static(&'static str),
    /// The JSON document of the report, taken when the body is written.
    Report,
}

/// A reply to one request.
#[derive(Clone, Debug, PartialEq, Eq)]
pub struct Reply {
    /// The status line.
    pub status: Status,
    /// The headers, in the order in which they are sent, each a name and a
    /// value. The header that frames the body is not among them.
    pub headers: Vec<(&'static str, &'static str)>,
    /// How the body is framed.
    pub framing: Framing,
    /// The body.
    pub body: Body,
}

impl Reply {
    /// What is written behind the headers: the body where the encoder asks
    /// for one, nothing where it does not, as in the reply to a `HEAD`
    /// request.
    pub fn body_to_write(&self, asked: bool) -> (r: Option<Body>)
        ensures
            r == (if asked {
                Some(self.body)
            } else {
                None::<Body>
            }),
    {
        if asked {
            Some(self.body)
        } else {
            None
        }
    }
}

impl Status {
    /// The number of the status.
    pub open spec fn number(self) -> u16 {
        match self {
            Status::Success => 200,
            Status::NotFound => 404,
            Status::MethodNotAllowed => 405,
        }
    }

    /// The number of the status.
    pub fn code(self) -> (r: u16)
        ensures
            r == self.number(),
    {
        match self {
            Status::Success => 200,
            Status::NotFound => 404,
            Status::MethodNotAllowed => 405,
        }
    }
}

/// The status that an outcome of the routing gets: every route is served,
/// and each error has its own status.
pub open spec fn status_of(route: Result<Route, Error>) -> Status {
    match route {
        Ok(_) => Status::Success,
        Err(Error::NotFound) => Status::NotFound,
        Err(Error::MethodNotAllowed) => Status::MethodNotAllowed,
    }
}

/// The content type that an outcome of the routing gets. An error is
/// answered with the report, as JSON.
pub open spec fn content_type_of(route: Result<Route, Error>) -> &'static str {
    match route {
        Ok(Route::Page) => "text/html",
        Ok(Route::Bundle) => "application/javascript",
        Ok(Route::Stylesheet) => "text/stylesheet",
        Ok(Route::StatusJson) => "application/json",
        Err(_) => "application/json",
    }
}

/// The body that an outcome of the routing gets.
pub open spec fn body_of(route: Result<Route, Error>) -> Body {
    match route {
        Ok(Route::Page) => Body::Static(HTML),
        Ok(Route::Bundle) => Body::Static(BUNDLE),
        Ok(Route::Stylesheet) => Body::Static(CSS),
        Ok(Route::StatusJson) => Body::Report,
        Err(_) => Body::Report,
    }
}

/// How a body is framed: a text by its length in bytes, the report in
/// chunks.
pub open spec fn framing_of(body: Body) -> Framing {
    match body {
        Body::Static(text) => Framing::Length(text.len() as u64),
        Body::Report => Framing::Chunked,
    }
}

/// Whether `reply` is the reply that this outcome of the routing gets.
pub open spec fn answers(reply: Reply, route: Result<Route, Error>) -> bool {
    &&& reply.status == status_of(route)
    &&& reply.headers@ == seq![("Server", SERVER), ("Content-Type", content_type_of(route))]
    &&& reply.body == body_of(route)
    &&& reply.framing == framing_of(reply.body)
}

/// Routing and reply together: every `GET` is answered with 200, whatever
/// the path, and every other method with 405 and the report as the body. No
/// request is answered with 404.
pub proof fn lemma_status_by_method(method: Seq<char>, path: Seq<char>)
    ensures
        method == "GET"@ ==> status_of(route_of(method, path)).number() == 200,
        method != "GET"@ ==> status_of(route_of(method, path)).number() == 405 && body_of(
            route_of(method, path),
        ) == Body::Report,
        status_of(route_of(method, path)).number() != 404,
{
}

/// A reply announces the length of a body that is a text, and that length
/// is the number of bytes of the text; the report goes out in chunks.
pub proof fn lemma_length_is_announced(reply: Reply, route: Result<Route, Error>)
    requires
        answers(reply, route),
    ensures
        reply.body matches Body::Static(text) ==> reply.framing == Framing::Length(
            text.len() as u64,
        ),
        reply.body is Report <==> reply.framing is Chunked,
        reply.body is Report <==> (route matches Ok(found) ==> found == Route::StatusJson),
{
}

/// The reply that an outcome of the routing gets.
pub fn reply_to(route: Result<Route, Error>) -> (r: Reply)
    ensures
        answers(r, route),
{
    let status = match route {
        Ok(_) => Status::Success,
        Err(Error::NotFound) => Status::NotFound,
        Err(Error::MethodNotAllowed) => Status::MethodNotAllowed,
    };
    let content_type = match route {
        Ok(Route::Page) => "text/html",
        Ok(Route::Bundle) => "application/javascript",
        Ok(Route::Stylesheet) => "text/stylesheet",
        Ok(Route::StatusJson) => "application/json",
        Err(_) => "application/json",
    };
    let body = match route {
        Ok(Route::Page) => Body::Static(HTML),
        Ok(Route::Bundle) => Body::Static(BUNDLE),
        Ok(Route::Stylesheet) => Body::Static(CSS),
        Ok(Route::StatusJson) => Body::Report,
        Err(_) => Body::Report,
    };
    let framing = match body {
        Body::Static(text) => Framing::Length(text.len() as u64),
        Body::Report => Framing::Chunked,
    };
    let mut headers: Vec<(&'static str, &'static str)> = Vec::new();
    headers.push(("Server", SERVER));
    headers.push(("Content-Type", content_type));
    assert(headers@ =~= seq![("Server", SERVER), ("Content-Type", content_type_of(route))]);
    Reply { status, headers, framing, body }
}

} // verus!

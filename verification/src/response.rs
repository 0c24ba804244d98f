//! Responses and their text on the wire.
//!
//! A response is a status and a body. On the wire it is the status line, the
//! fixed headers of that status, a blank line, and the body.

use vstd::prelude::*;
use vstd::string::StringExecFns;

verus! {

/// The statuses that the service answers with.
#[derive(Debug, Clone, Copy, PartialEq, Eq, Structural)]
pub enum Status {
    Success,
    Unauthorized,
    NotFound,
    InternalError,
}

/// Which headers the service sends: the plain ones, or those and the headers
/// that let a page of another origin call the service.
#[derive(Debug, Clone, Copy, PartialEq, Eq, Structural)]
pub enum Variant {
    Plain,
    Cors,
}

/// One response.
#[derive(Debug, Clone, PartialEq, Eq)]
pub struct Response {
    pub status: Status,
    pub body: String,
}

/// The mathematical content of a response.
pub struct ResponseView {
    pub status: Status,
    pub body: Seq<char>,
}

impl View for Response {
    type V = ResponseView;

    open spec fn view(&self) -> ResponseView {
        ResponseView { status: self.status, body: self.body@ }
    }
}

impl Status {
    /// The number of the status.
    pub open spec fn code(self) -> int {
        match self {
            Status::Success => 200,
            Status::Unauthorized => 401,
            Status::NotFound => 404,
            Status::InternalError => 500,
        }
    }

    /// The status line, with its line break.
    pub open spec fn line(self) -> Seq<char> {
        match self {
            Status::Success => "HTTP/1.1 200 OK\r\n"@,
            Status::Unauthorized => "HTTP/1.1 401 UNAUTHORIZED\r\n"@,
            Status::NotFound => "HTTP/1.1 404 NOT FOUND\r\n"@,
            Status::InternalError => "HTTP/1.1 500 INTERNAL ERROR\r\n"@,
        }
    }

    /// The content type header of the status: present on the statuses whose
    /// body is announced as JSON, empty on the others.
    pub open spec fn content_type(self) -> Seq<char> {
        match self {
            Status::Success | Status::Unauthorized => "Content-Type: application/json\r\n"@,
            Status::NotFound | Status::InternalError => Seq::empty(),
        }
    }

    /// The number of the status.
    pub fn number(self) -> (n: u16)
        ensures
            n == self.code(),
    {
        match self {
            Status::Success => 200,
            Status::Unauthorized => 401,
            Status::NotFound => 404,
            Status::InternalError => 500,
        }
    }
}

impl Variant {
    /// The headers that the variant adds to every response.
    pub open spec fn headers(self) -> Seq<char> {
        match self {
            Variant::Plain => Seq::empty(),
            Variant::Cors =>
                "Access-Control-Allow-Origin: *\r\nAccess-Control-Allow-Methods: GET, POST, PUT, DELETE, OPTIONS\r\nAccess-Control-Allow-Headers: Content-Type\r\n"@,
        }
    }
}

/// The text of a response on the wire.
pub open spec fn wire_text(variant: Variant, response: ResponseView) -> Seq<char> {
    response.status.line() + response.status.content_type() + variant.headers() + "\r\n"@
        + response.body
}

/// Renders a response as the text that is written back on the connection.
pub fn encode(variant: Variant, response: &Response) -> (text: String)
    ensures
        text@ == wire_text(variant, response@),
{
    let mut text = match response.status {
        Status::Success => String::from_str("HTTP/1.1 200 OK\r\n"),
        Status::Unauthorized => String::from_str("HTTP/1.1 401 UNAUTHORIZED\r\n"),
        Status::NotFound => String::from_str("HTTP/1.1 404 NOT FOUND\r\n"),
        Status::InternalError => String::from_str("HTTP/1.1 500 INTERNAL ERROR\r\n"),
    };
    match response.status {
        Status::Success | Status::Unauthorized => text.append("Content-Type: application/json\r\n"),
        Status::NotFound | Status::InternalError => {
            assert(text@ =~= response.status.line() + response.status.content_type());
        },
    }
    match variant {
        Variant::Plain => {
            assert(text@ =~= response.status.line() + response.status.content_type()
                + variant.headers());
        },
        Variant::Cors => text.append(
            "Access-Control-Allow-Origin: *\r\nAccess-Control-Allow-Methods: GET, POST, PUT, DELETE, OPTIONS\r\nAccess-Control-Allow-Headers: Content-Type\r\n",
        ),
    }
    text.append("\r\n");
    text.append(response.body.as_str());
    text
}

/// The response with this status and this body.
pub fn respond(status: Status, body: &str) -> (response: Response)
    ensures
        response@ == (ResponseView { status, body: body@ }),
{
    Response { status, body: String::from_str(body) }
}

} // verus!

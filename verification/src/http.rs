//! Plain HTTP messages: what a handler is asked, what it answers and what it asks of others.

use vstd::prelude::*;
use vstd::utf8::encode_utf8;
use crate::json::{json_model, json_text, render, JsonModel};
use crate::text::{bytes_of, owned};

verus! {

/// The method of an HTTP request.
#[derive(Debug)]
pub enum Method {
    Get,
    Post,
    Put,
    Delete,
    Patch,
    Head,
    Options,
    Connect,
    Trace,
    Other(String),
}

/// A method, by what it holds.
pub enum MethodModel {
    Get,
    Post,
    Put,
    Delete,
    Patch,
    Head,
    Options,
    Connect,
    Trace,
    Other(Seq<char>),
}

impl View for Method {
    type V = MethodModel;

    open spec fn view(&self) -> MethodModel {
        match self {
            Method::Get => MethodModel::Get,
            Method::Post => MethodModel::Post,
            Method::Put => MethodModel::Put,
            Method::Delete => MethodModel::Delete,
            Method::Patch => MethodModel::Patch,
            Method::Head => MethodModel::Head,
            Method::Options => MethodModel::Options,
            Method::Connect => MethodModel::Connect,
            Method::Trace => MethodModel::Trace,
            Method::Other(name) => MethodModel::Other(name@),
        }
    }
}

impl Method {
    /// The same method once more.
    pub fn duplicate(&self) -> (r: Method)
        ensures
            r@ == self@,
    {
        match self {
            Method::Get => Method::Get,
            Method::Post => Method::Post,
            Method::Put => Method::Put,
            Method::Delete => Method::Delete,
            Method::Patch => Method::Patch,
            Method::Head => Method::Head,
            Method::Options => Method::Options,
            Method::Connect => Method::Connect,
            Method::Trace => Method::Trace,
            Method::Other(name) => Method::Other(owned(name.as_str())),
        }
    }
}

/// The answer of a handler.
#[derive(Debug)]
pub struct Reply {
    pub status: u16,
    pub headers: Vec<(String, String)>,
    pub body: Vec<u8>,
}

/// What an answer holds.
pub struct ReplyModel {
    pub status: u16,
    pub headers: Seq<(Seq<char>, Seq<char>)>,
    pub body: Seq<u8>,
}

impl View for Reply {
    type V = ReplyModel;

    open spec fn view(&self) -> ReplyModel {
        ReplyModel {
            status: self.status,
            headers: self.headers.deep_view(),
            body: self.body@,
        }
    }
}

/// A request with a body that a handler makes of an upstream server.
#[derive(Debug)]
pub struct Outgoing {
    pub method: Method,
    pub uri: String,
    pub headers: Vec<(String, String)>,
    pub body: Vec<u8>,
}

/// What came of a request to an upstream server: no answer, and the text of the error, or an
/// answer with its status and body.
#[derive(Debug)]
pub enum Upstream {
    Failed(String),
    Answered { status: u16, body: Vec<u8> },
}

/// What came of a request, by what it holds.
pub enum UpstreamModel {
    Failed(Seq<char>),
    Answered { status: u16, body: Seq<u8> },
}

impl View for Upstream {
    type V = UpstreamModel;

    open spec fn view(&self) -> UpstreamModel {
        match self {
            Upstream::Failed(e) => UpstreamModel::Failed(e@),
            Upstream::Answered { status, body } => UpstreamModel::Answered {
                status: *status,
                body: body@,
            },
        }
    }
}

/// Adds a header with a text as its value.
pub(crate) fn push_header(headers: &mut Vec<(String, String)>, name: &str, value: &str)
    ensures
        final(headers).deep_view() == old(headers).deep_view().push((name@, value@)),
{
    let ghost before = headers.deep_view();
    headers.push((owned(name), owned(value)));
    proof {
        assert(headers.deep_view() =~= before.push((name@, value@)));
    }
}

/// An empty list of headers.
pub(crate) fn no_headers() -> (r: Vec<(String, String)>)
    ensures
        r.deep_view() == Seq::<(Seq<char>, Seq<char>)>::empty(),
{
    let r: Vec<(String, String)> = Vec::new();
    proof {
        assert(r.deep_view() =~= Seq::<(Seq<char>, Seq<char>)>::empty());
    }
    r
}

/// An answer with JSON text as its body that any page may read.
pub open spec fn text_reply(status: u16, body: Seq<char>) -> ReplyModel {
    ReplyModel {
        status,
        headers: Seq::empty().push(("content-type"@, "application/json"@)).push(
            ("access-control-allow-origin"@, "*"@),
        ),
        body: encode_utf8(body),
    }
}

/// Makes an answer with JSON text as its body that any page may read.
pub fn text_response(status: u16, body: &str) -> (r: Reply)
    ensures
        r@ == text_reply(status, body@),
{
    let mut headers = no_headers();
    push_header(&mut headers, "content-type", "application/json");
    push_header(&mut headers, "access-control-allow-origin", "*");
    Reply { status, headers, body: bytes_of(body) }
}

/// An answer with a JSON value as its body that any page may read.
pub open spec fn json_reply(status: u16, body: JsonModel) -> ReplyModel {
    text_reply(status, json_text(body))
}

/// Makes an answer with a JSON value as its body that any page may read.
pub fn build_response(status: u16, body: &serde_json::Value) -> (r: Reply)
    ensures
        r@ == json_reply(status, json_model(*body)),
{
    text_response(status, render(body).as_str())
}

} // verus!

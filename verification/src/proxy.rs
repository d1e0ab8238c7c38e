//! What the two proxies have in common: messages whose bodies are streamed, and answers that
//! a proxy gives on its own.

use vstd::prelude::*;
use vstd::utf8::encode_utf8;
use crate::cors::{append_cors_headers, gains_cors, header_models};
use crate::http::{Method, MethodModel};
use crate::text::bytes_of;

verus! {

/// An answer that a proxy gives on its own.
pub struct ProxyReply {
    pub status: u16,
    pub headers: Vec<(String, Vec<u8>)>,
    pub body: Vec<u8>,
}

/// A request that a proxy makes of an upstream server. Its body is streamed.
pub struct ProxyRequest {
    pub method: Method,
    pub uri: String,
    pub headers: Vec<(String, Vec<u8>)>,
}

/// The head of the answer of an upstream server. Its body is streamed.
pub struct UpstreamHead {
    pub status: u16,
    pub headers: Vec<(String, Vec<u8>)>,
}

/// What a proxy does once it knows what came of its request: it answers on its own, or it
/// passes the answer on under this head.
pub enum RelayStep {
    Respond(ProxyReply),
    Stream(UpstreamHead),
}

/// Whether an answer has the given status and text, and no headers but those that let a page
/// of another origin read it.
pub open spec fn is_plain_reply(
    reply: ProxyReply,
    status: u16,
    text: Seq<char>,
    method: MethodModel,
    origin: Seq<char>,
    allowed_origins: Option<Seq<char>>,
) -> bool {
    &&& reply.status == status
    &&& reply.body@ == encode_utf8(text)
    &&& gains_cors(Seq::empty(), header_models(reply.headers@), method, origin, allowed_origins)
}

/// An answer of the proxy's own: an error, or the answer to a preflight request.
pub fn respond(
    status: u16,
    text: &str,
    method: &Method,
    origin: &str,
    allowed_origins: &Option<String>,
) -> (r: ProxyReply)
    ensures
        is_plain_reply(r, status, text@, method@, origin@, allowed_origins.deep_view()),
{
    let mut headers: Vec<(String, Vec<u8>)> = Vec::new();
    proof {
        assert(header_models(headers@) =~= Seq::empty());
    }
    append_cors_headers(&mut headers, method, origin, allowed_origins);
    ProxyReply { status, headers, body: bytes_of(text) }
}

} // verus!

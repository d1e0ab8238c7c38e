//! A streaming proxy that makes servers on an allowlist readable for pages of other origins.

use vstd::prelude::*;
use crate::cors::{
    append_cors_headers, gains_cors, header_models, origin_of, origin_readable, request_origin,
};
use crate::http::Method;
use crate::proxy::{is_plain_reply, respond, ProxyReply, ProxyRequest, RelayStep, UpstreamHead};
use crate::text::{
    after_prefix, join, joined, owned, pieces, split, starts_with, strip_prefix, trim, trimmed,
};

verus! {

/// The target that a path with its query names: a URL behind `/cors-proxy/`.
pub open spec fn target_of(path: Option<Seq<char>>) -> Option<Seq<char>> {
    match path {
        Some(p) => match after_prefix(p, "/cors-proxy/"@) {
            Some(t) => if "http://"@.is_prefix_of(t) || "https://"@.is_prefix_of(t) {
                Some(t)
            } else {
                None
            },
            None => None,
        },
        None => None,
    }
}

/// Extracts the target from a path with its query. There is none where it is missing or
/// malformed.
pub fn get_target(path: Option<&str>) -> (r: Option<String>)
    ensures
        r.deep_view() == target_of(path.deep_view()),
{
    match path {
        Some(p) => match strip_prefix(p, "/cors-proxy/") {
            Some(t) => if starts_with(t.as_str(), "http://") || starts_with(
                t.as_str(),
                "https://",
            ) {
                Some(t)
            } else {
                None
            },
            None => None,
        },
        None => None,
    }
}

/// The beginnings of allowed targets that a list with commas names.
pub open spec fn allowed_targets(list: Seq<char>) -> Seq<Seq<char>> {
    pieces(list, ',').map_values(|s: Seq<char>| trimmed(s))
}

pub fn get_allowed_targets(list: &str) -> (r: Vec<String>)
    ensures
        r.deep_view() == allowed_targets(list@),
{
    let parts = split(list, ',');
    let mut out: Vec<String> = Vec::new();
    let mut i: usize = 0;
    while i < parts.len()
        invariant
            i <= parts.len(),
            parts.deep_view() == pieces(list@, ','),
            out.deep_view() == allowed_targets(list@).take(i as int),
        decreases parts.len() - i,
    {
        let ghost before = out.deep_view();
        let part = trim(parts[i].as_str());
        let ghost p = part@;
        out.push(part);
        proof {
            assert(parts.deep_view()[i as int] == parts@[i as int]@);
            assert(out.deep_view() =~= before.push(p));
            assert(allowed_targets(list@).take(i + 1) =~= allowed_targets(list@).take(
                i as int,
            ).push(p));
        }
        i += 1;
    }
    proof {
        assert(allowed_targets(list@).take(parts@.len() as int) =~= allowed_targets(list@));
    }
    out
}

/// Whether a target begins as one of the allowed targets does.
pub open spec fn target_allowed(target: Seq<char>, list: Seq<char>) -> bool {
    let allowed = allowed_targets(list);
    allowed.len() == 0 || exists|i: int|
        0 <= i < allowed.len() && (#[trigger] allowed[i]).is_prefix_of(target)
}

/// Checks a target against the allowlist.
pub fn is_target_allowed(target: &str, list: &str) -> (r: bool)
    ensures
        r == target_allowed(target@, list@),
{
    let allowed = get_allowed_targets(list);
    if allowed.len() == 0 {
        return true;
    }
    let mut i: usize = 0;
    while i < allowed.len()
        invariant
            i <= allowed.len(),
            allowed.deep_view() == allowed_targets(list@),
            allowed@.len() > 0,
            forall|j: int| 0 <= j < i ==> !(#[trigger] allowed_targets(list@)[j]).is_prefix_of(
                target@,
            ),
        decreases allowed.len() - i,
    {
        proof {
            assert(allowed_targets(list@)[i as int] == allowed@[i as int]@);
        }
        if starts_with(target, allowed[i].as_str()) {
            return true;
        }
        i += 1;
    }
    false
}

/// What the proxy does first with a request.
pub enum CorsProxyStep {
    Respond(ProxyReply),
    Forward { request: ProxyRequest, next: Relaying },
}

/// A request that has been passed on.
pub struct Relaying {
    pub method: Method,
    pub origin: String,
    pub allowed_origins: Option<String>,
}

/// What a request asks, and the lists that the proxy is configured with.
pub struct CorsProxyRequest {
    pub method: Method,
    pub path: Option<String>,
    pub headers: Vec<(String, Vec<u8>)>,
    pub allowed_targets: String,
    pub allowed_origins: Option<String>,
}

impl CorsProxyRequest {
    /// Whether `reply` is an answer of the proxy's own to this request.
    pub open spec fn gets(self, reply: ProxyReply, status: u16, text: Seq<char>) -> bool {
        is_plain_reply(
            reply,
            status,
            text,
            self.method@,
            origin_of(header_models(self.headers@)),
            self.allowed_origins.deep_view(),
        )
    }

    /// Whether `step` is what the proxy does first with this request.
    pub open spec fn begins(self, step: CorsProxyStep) -> bool {
        match target_of(self.path.deep_view()) {
            None => step matches CorsProxyStep::Respond(r) && self.gets(
                r,
                400,
                "Malformed or missing target URL. Usage: /cors-proxy/https://<target>"@,
            ),
            Some(target) => if !target_allowed(target, self.allowed_targets@) {
                step matches CorsProxyStep::Respond(r) && self.gets(
                    r,
                    403,
                    "Target domain not allowed. Allowed domains: "@ + joined(
                        allowed_targets(self.allowed_targets@),
                        ", "@,
                    ),
                )
            } else {
                &&& step matches CorsProxyStep::Forward { request, next }
                &&& request.method@ == self.method@
                &&& request.uri@ == target
                &&& request.headers@ == self.headers@
                &&& next.method@ == self.method@
                &&& next.origin@ == origin_of(header_models(self.headers@))
                &&& next.allowed_origins == self.allowed_origins
            },
        }
    }

    /// Starts the handling of a request.
    pub fn cors_proxy(self) -> (r: CorsProxyStep)
        requires
            origin_readable(header_models(self.headers@)),
        ensures
            self.begins(r),
    {
        let origin = request_origin(&self.headers);
        let path: Option<&str> = match &self.path {
            Some(p) => Some(p.as_str()),
            None => None,
        };
        let target = match get_target(path) {
            Some(t) => t,
            None => {
                return CorsProxyStep::Respond(
                    respond(
                        400,
                        "Malformed or missing target URL. Usage: /cors-proxy/https://<target>",
                        &self.method,
                        origin.as_str(),
                        &self.allowed_origins,
                    ),
                );
            },
        };
        if !is_target_allowed(target.as_str(), self.allowed_targets.as_str()) {
            let list = join(&get_allowed_targets(self.allowed_targets.as_str()), ", ");
            let text = owned("Target domain not allowed. Allowed domains: ").concat(list.as_str());
            return CorsProxyStep::Respond(
                respond(403, text.as_str(), &self.method, origin.as_str(), &self.allowed_origins),
            );
        }
        CorsProxyStep::Forward {
            request: ProxyRequest {
                method: self.method.duplicate(),
                uri: target,
                headers: self.headers,
            },
            next: Relaying { method: self.method, origin, allowed_origins: self.allowed_origins },
        }
    }
}

impl Relaying {
    /// Whether `step` is what the proxy does with the head of the upstream answer, or without
    /// one where there is no answer.
    pub open spec fn goes_on(self, upstream: Option<UpstreamHead>, step: RelayStep) -> bool {
        match upstream {
            None => step matches RelayStep::Respond(r) && is_plain_reply(
                r,
                502,
                "Error sending upstream request"@,
                self.method@,
                self.origin@,
                self.allowed_origins.deep_view(),
            ),
            Some(head) => {
                &&& step matches RelayStep::Stream(h)
                &&& h.status == head.status
                &&& gains_cors(
                    header_models(head.headers@),
                    header_models(h.headers@),
                    self.method@,
                    self.origin@,
                    self.allowed_origins.deep_view(),
                )
            },
        }
    }

    /// Goes on with the head of the upstream answer, or without one where there is no answer.
    pub fn resume(self, upstream: Option<UpstreamHead>) -> (r: RelayStep)
        ensures
            self.goes_on(upstream, r),
    {
        match upstream {
            None => RelayStep::Respond(
                respond(
                    502,
                    "Error sending upstream request",
                    &self.method,
                    self.origin.as_str(),
                    &self.allowed_origins,
                ),
            ),
            Some(head) => {
                let mut headers = head.headers;
                append_cors_headers(
                    &mut headers,
                    &self.method,
                    self.origin.as_str(),
                    &self.allowed_origins,
                );
                RelayStep::Stream(UpstreamHead { status: head.status, headers })
            },
        }
    }
}

/// Only a target that is a URL over HTTP and that begins as an allowed target does is ever
/// asked, and it is asked with the method and the headers of the caller.
pub proof fn only_allowed_targets_are_asked(asked: CorsProxyRequest, step: CorsProxyStep)
    requires
        asked.begins(step),
        step is Forward,
    ensures
        step matches CorsProxyStep::Forward { request, next } && {
            &&& "http://"@.is_prefix_of(request.uri@) || "https://"@.is_prefix_of(request.uri@)
            &&& target_allowed(request.uri@, asked.allowed_targets@)
            &&& asked.path matches Some(p) && p@ == "/cors-proxy/"@ + request.uri@
            &&& request.method@ == asked.method@
            &&& request.headers@ == asked.headers@
        },
{
    let p = asked.path.deep_view()->0;
    let t = target_of(Some(p))->0;
    assert(p =~= "/cors-proxy/"@ + t);
}

/// Every target over HTTP on the allowlist is asked: a request for it is never refused.
pub proof fn allowed_targets_are_asked(
    asked: CorsProxyRequest,
    step: CorsProxyStep,
    target: Seq<char>,
)
    requires
        asked.begins(step),
        asked.path.deep_view() == Some("/cors-proxy/"@ + target),
        "http://"@.is_prefix_of(target) || "https://"@.is_prefix_of(target),
        target_allowed(target, asked.allowed_targets@),
    ensures
        step matches CorsProxyStep::Forward { request, next } && request.uri@ == target,
{
    let p = "/cors-proxy/"@ + target;
    assert("/cors-proxy/"@.is_prefix_of(p));
    assert(p.skip("/cors-proxy/"@.len() as int) =~= target);
}

/// With an empty allowlist every target is allowed.
pub proof fn empty_allowlist_allows_everything(target: Seq<char>)
    ensures
        target_allowed(target, Seq::empty()),
{
    let allowed = allowed_targets(Seq::empty());
    assert(pieces(Seq::empty(), ',') =~= seq![Seq::<char>::empty()]);
    assert(allowed[0] =~= Seq::<char>::empty());
    assert(allowed[0].is_prefix_of(target));
}

} // verus!

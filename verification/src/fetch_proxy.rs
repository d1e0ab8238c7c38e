//! A proxy for reading public pages over HTTPS. There is no allowlist: it only ever sends GET
//! requests, only over HTTPS, and without the authorization and the cookies of the caller.

use vstd::prelude::*;
use vstd::utf8::encode_utf8;
use crate::cors::{
    append_cors_headers, copy_bytes, gained_fields_are_cors_fields, gains_cors, header_models,
    is_cors_name, origin_of, origin_readable, request_origin,
};
use crate::http::Method;
use crate::path::{is_dots, segments_of, tidied, tidy, tidy_paths_stay};
use crate::proxy::{is_plain_reply, respond, ProxyReply, ProxyRequest, RelayStep, UpstreamHead};
use crate::text::{
    after_prefix, around_first, ascii_lower, bytes_of, chars_of, first_index, from_utf8_lossy,
    lemma_first_index, owned, same, split_once, starts_with, strip_prefix, text_of,
    to_ascii_lowercase, utf8_lossy,
};

verus! {

/// An upstream body is cut off after this many bytes.
pub const MAX_RESPONSE_BYTES: usize = 2097152;

/// The target that a path with its query names: a URL over HTTPS behind `/fetch/`.
pub open spec fn target_of(path: Option<Seq<char>>) -> Option<Seq<char>> {
    match path {
        Some(p) => match after_prefix(p, "/fetch/"@) {
            Some(t) => if "https://"@.is_prefix_of(t) {
                Some(t)
            } else {
                None
            },
            None => None,
        },
        None => None,
    }
}

/// Extracts the target from a path with its query. Only targets over HTTPS are accepted.
pub fn get_target(path: Option<&str>) -> (r: Option<String>)
    ensures
        r.deep_view() == target_of(path.deep_view()),
{
    match path {
        Some(p) => match strip_prefix(p, "/fetch/") {
            Some(t) => if starts_with(t.as_str(), "https://") {
                Some(t)
            } else {
                None
            },
            None => None,
        },
        None => None,
    }
}

/// Whether a character ends the host of a URL.
pub open spec fn ends_host(c: char) -> bool {
    c == '/' || c == '?' || c == '#'
}

/// What stands before the first character that ends a host.
pub open spec fn host_of(s: Seq<char>) -> Seq<char>
    decreases s.len(),
{
    if s.len() == 0 || ends_host(s[0]) {
        Seq::empty()
    } else {
        seq![s[0]] + host_of(s.skip(1))
    }
}

/// What stands behind the last `c`, or the whole text where there is none.
pub open spec fn after_last(s: Seq<char>, c: char) -> Seq<char>
    decreases s.len(),
{
    if s.len() == 0 || s.last() == c {
        Seq::empty()
    } else {
        after_last(s.drop_last(), c).push(s.last())
    }
}

/// The `https://host[:port]` part of a URL, if it is over HTTPS and has a host. What the URL
/// says of a user is left out.
pub open spec fn origin_part(url: Seq<char>) -> Option<Seq<char>> {
    match after_prefix(url, "https://"@) {
        Some(rest) => {
            let host = after_last(host_of(rest), '@');
            if host.len() == 0 {
                None
            } else {
                Some("https://"@ + host)
            }
        },
        None => None,
    }
}

pub(crate) proof fn lemma_host(s: Seq<char>, i: int)
    requires
        0 <= i <= s.len(),
        forall|j: int| 0 <= j < i ==> !ends_host(s[j]),
        i < s.len() ==> ends_host(s[i]),
    ensures
        host_of(s) == s.take(i),
    decreases i,
{
    if i > 0 {
        lemma_host(s.skip(1), i - 1);
        assert(s.take(i) =~= seq![s[0]] + s.skip(1).take(i - 1));
    } else {
        assert(s.take(0) =~= Seq::<char>::empty());
    }
}

pub(crate) proof fn lemma_after_last(s: Seq<char>, c: char, i: int)
    requires
        0 <= i <= s.len(),
        i > 0 ==> s[i - 1] == c,
        forall|j: int| i <= j < s.len() ==> s[j] != c,
    ensures
        after_last(s, c) == s.skip(i),
    decreases s.len(),
{
    if i < s.len() {
        lemma_after_last(s.drop_last(), c, i);
        assert(s.skip(i) =~= s.drop_last().skip(i).push(s.last()));
    } else {
        assert(s.skip(i) =~= Seq::<char>::empty());
    }
}

/// What stands behind the host at the beginning of a text.
pub open spec fn behind_host(s: Seq<char>) -> Seq<char> {
    s.skip(host_of(s).len() as int)
}

fn split_host(s: &str) -> (r: (String, String))
    ensures
        r.0@ == host_of(s@),
        r.1@ == behind_host(s@),
{
    let x = chars_of(s);
    let mut i: usize = 0;
    while i < x.len() && !(x[i] == '/' || x[i] == '?' || x[i] == '#')
        invariant
            i <= x.len(),
            x@ == s@,
            forall|j: int| 0 <= j < i ==> !ends_host(x@[j]),
        decreases x.len() - i,
    {
        i += 1;
    }
    proof {
        lemma_host(s@, i as int);
        assert(s@.subrange(0, i as int) =~= s@.take(i as int));
        assert(s@.subrange(i as int, s@.len() as int) =~= s@.skip(i as int));
    }
    (text_of(&x, 0, i), text_of(&x, i, x.len()))
}

fn text_after_last(s: &str, c: char) -> (r: String)
    ensures
        r@ == after_last(s@, c),
{
    let x = chars_of(s);
    let mut from: usize = x.len();
    while from > 0 && x[from - 1] != c
        invariant
            from <= x.len(),
            x@ == s@,
            forall|j: int| from <= j < x@.len() ==> x@[j] != c,
        decreases from,
    {
        from -= 1;
    }
    proof {
        lemma_after_last(s@, c, from as int);
        assert(s@.subrange(from as int, s@.len() as int) =~= s@.skip(from as int));
    }
    text_of(&x, from, x.len())
}

/// The `https://host[:port]` part of a URL, if it is over HTTPS and has a host.
pub fn https_origin(url: &str) -> (r: Option<String>)
    ensures
        r.deep_view() == origin_part(url@),
{
    let rest = match strip_prefix(url, "https://") {
        Some(t) => t,
        None => {
            return None;
        },
    };
    let (authority, _) = split_host(rest.as_str());
    let host = text_after_last(authority.as_str(), '@');
    if host.as_str().is_empty() {
        return None;
    }
    Some(owned("https://").concat(host.as_str()))
}

/// Whether a text is the name of a scheme: a letter, and behind it letters, digits, plus
/// signs, hyphens and dots.
pub open spec fn is_scheme(s: Seq<char>) -> bool {
    &&& s.len() > 0
    &&& is_letter(s[0])
    &&& forall|i: int| 0 <= i < s.len() ==> is_scheme_char(#[trigger] s[i])
}

pub open spec fn is_letter(c: char) -> bool {
    'a' <= c <= 'z' || 'A' <= c <= 'Z'
}

pub open spec fn is_scheme_char(c: char) -> bool {
    is_letter(c) || '0' <= c <= '9' || c == '+' || c == '-' || c == '.'
}

/// Whether a location has a scheme, and so is not relative.
pub open spec fn has_scheme(location: Seq<char>) -> bool {
    match around_first(location, ':') {
        Some((name, rest)) => is_scheme(name),
        None => false,
    }
}

fn names_scheme(location: &str) -> (r: bool)
    ensures
        r == has_scheme(location@),
{
    match split_once(location, ':') {
        Some((name, _)) => is_scheme_name(name.as_str()),
        None => false,
    }
}

fn is_scheme_name(name: &str) -> (r: bool)
    ensures
        r == is_scheme(name@),
{
    let x = chars_of(name);
    if x.len() == 0 {
        return false;
    }
    let first = x[0];
    if !(('a' <= first && first <= 'z') || ('A' <= first && first <= 'Z')) {
        return false;
    }
    let mut i: usize = 0;
    while i < x.len()
        invariant
            i <= x.len(),
            x@ == name@,
            forall|j: int| 0 <= j < i ==> is_scheme_char(#[trigger] x@[j]),
        decreases x.len() - i,
    {
        let c = x[i];
        if !(('a' <= c && c <= 'z') || ('A' <= c && c <= 'Z') || ('0' <= c && c <= '9') || c == '+'
            || c == '-' || c == '.') {
            proof {
                assert(!is_scheme_char(name@[i as int]));
            }
            return false;
        }
        i += 1;
    }
    true
}

/// What stands before the first `c`, or the whole text where there is none.
pub open spec fn up_to(s: Seq<char>, c: char) -> Seq<char> {
    s.take(first_index(s, c))
}

fn text_up_to(s: &str, c: char) -> (r: String)
    ensures
        r@ == up_to(s@, c),
{
    match split_once(s, c) {
        Some((before, _)) => before,
        None => {
            proof {
                lemma_index_range(s@, c);
                assert(s@.take(s@.len() as int) =~= s@);
            }
            owned(s)
        },
    }
}

proof fn lemma_index_range(s: Seq<char>, c: char)
    ensures
        0 <= first_index(s, c) <= s.len(),
        forall|j: int| 0 <= j < first_index(s, c) ==> #[trigger] s[j] != c,
    decreases s.len(),
{
    if s.len() > 0 && s[0] != c {
        lemma_index_range(s.skip(1), c);
        assert forall|j: int| 0 <= j < first_index(s, c) implies #[trigger] s[j] != c by {
            if j > 0 {
                assert(s[j] == s.skip(1)[j - 1]);
            }
        }
    }
}

/// A URL without its fragment.
pub open spec fn before_fragment(url: Seq<char>) -> Seq<char> {
    up_to(url, '#')
}

/// A URL without its query and its fragment.
pub open spec fn before_query(url: Seq<char>) -> Seq<char> {
    up_to(before_fragment(url), '?')
}

/// A text up to its last `c`, with it; nothing where there is none.
pub open spec fn through_last(s: Seq<char>, c: char) -> Seq<char>
    decreases s.len(),
{
    if s.len() == 0 || s.last() == c {
        s
    } else {
        through_last(s.drop_last(), c)
    }
}

pub(crate) proof fn lemma_through_last(s: Seq<char>, c: char, i: int)
    requires
        0 <= i <= s.len(),
        i > 0 ==> s[i - 1] == c,
        forall|j: int| i <= j < s.len() ==> s[j] != c,
    ensures
        through_last(s, c) == s.take(i),
    decreases s.len(),
{
    if i < s.len() {
        lemma_through_last(s.drop_last(), c, i);
        assert(s.take(i) =~= s.drop_last().take(i));
    } else {
        assert(s.take(i) =~= s);
    }
}

/// A path up to its last slash, with it. That of an empty path is the one slash.
pub open spec fn directory(s: Seq<char>) -> Seq<char> {
    if s.contains('/') {
        through_last(s, '/')
    } else {
        s.push('/')
    }
}

fn directory_of(s: &str) -> (r: String)
    ensures
        r@ == directory(s@),
{
    let x = chars_of(s);
    let mut i: usize = x.len();
    while i > 0 && x[i - 1] != '/'
        invariant
            i <= x.len(),
            x@ == s@,
            forall|j: int| i <= j < x@.len() ==> x@[j] != '/',
        decreases i,
    {
        i -= 1;
    }
    if i == 0 {
        let mut whole = owned(s);
        whole.push('/');
        whole
    } else {
        proof {
            assert(s@.contains(s@[i - 1]));
            lemma_through_last(s@, '/', i as int);
            assert(s@.subrange(0, i as int) =~= s@.take(i as int));
        }
        text_of(&x, 0, i)
    }
}

/// A path, with a query and a fragment that may be left out, without dot segments in the path.
pub open spec fn without_dots(s: Seq<char>) -> Seq<char> {
    tidied(before_query(s)) + s.skip(before_query(s).len() as int)
}

fn take_out_dots(s: &str) -> (r: String)
    ensures
        r@ == without_dots(s@),
{
    let path = text_up_to(text_up_to(s, '#').as_str(), '?');
    proof {
        lemma_before_query(s@);
    }
    let tail = strip_prefix(s, path.as_str()).unwrap();
    tidy(path.as_str()).concat(tail.as_str())
}

proof fn lemma_before_query(s: Seq<char>)
    ensures
        before_query(s).is_prefix_of(s),
        before_fragment(s).is_prefix_of(s),
{
    lemma_index_range(s, '#');
    let bare = before_fragment(s);
    lemma_index_range(bare, '?');
    let n = first_index(bare, '?');
    assert(bare.take(n) =~= s.subrange(0, n));
    assert(bare =~= s.subrange(0, bare.len() as int));
}

/// What a URL over HTTPS says behind its host: the path, the query and the fragment.
pub open spec fn path_part(url: Seq<char>) -> Seq<char> {
    behind_host(url.skip("https://"@.len() as int))
}

/// The URL that a location without a scheme stands for on a target with the given origin: one
/// that begins with two slashes names a host of its own, one that begins with a slash a path on
/// the server of the target, one that begins with a question mark or a number sign a query or a
/// fragment of the target, and an empty one the target. Any other stands beside the target. A
/// path that the location gives is taken without its dot segments.
pub open spec fn resolved(target: Seq<char>, origin: Seq<char>, location: Seq<char>) -> Seq<char> {
    if "//"@.is_prefix_of(location) {
        let rest = location.skip("//"@.len() as int);
        "https://"@ + host_of(rest) + without_dots(behind_host(rest))
    } else if "/"@.is_prefix_of(location) {
        origin + without_dots(location)
    } else if "?"@.is_prefix_of(location) {
        origin + before_query(path_part(target)) + location
    } else if "#"@.is_prefix_of(location) || location.len() == 0 {
        origin + before_fragment(path_part(target)) + location
    } else {
        origin + without_dots(directory(before_query(path_part(target))) + location)
    }
}

fn resolve(target: &str, origin: &str, location: &str) -> (r: String)
    requires
        "https://"@.is_prefix_of(target@),
    ensures
        r@ == resolved(target@, origin@, location@),
{
    if let Some(rest) = strip_prefix(location, "//") {
        let (host, behind) = split_host(rest.as_str());
        return owned("https://").concat(host.as_str()).concat(
            take_out_dots(behind.as_str()).as_str(),
        );
    }
    if starts_with(location, "/") {
        return owned(origin).concat(take_out_dots(location).as_str());
    }
    let rest = strip_prefix(target, "https://").unwrap();
    let (_, behind) = split_host(rest.as_str());
    let bare = text_up_to(behind.as_str(), '#');
    if starts_with(location, "#") || location.is_empty() {
        proof {
            reveal_strlit("#");
            reveal_strlit("?");
            assert("#"@.is_prefix_of(location@) ==> location@.subrange(0, 1)[0] == '#');
            assert("?"@.is_prefix_of(location@) ==> location@.subrange(0, 1)[0] == '?');
        }
        return owned(origin).concat(bare.as_str()).concat(location);
    }
    let path = text_up_to(bare.as_str(), '?');
    if starts_with(location, "?") {
        return owned(origin).concat(path.as_str()).concat(location);
    }
    let beside = directory_of(path.as_str()).concat(location);
    owned(origin).concat(take_out_dots(beside.as_str()).as_str())
}

/// Where a redirect of a target leads a page: a URL over HTTPS back through the proxy, and so
/// a relative location, resolved against the target. A location with another scheme stays as
/// it is.
pub open spec fn rewritten(target: Seq<char>, location: Seq<char>) -> Seq<char> {
    if "https://"@.is_prefix_of(location) {
        "/fetch/"@ + location
    } else if has_scheme(location) {
        location
    } else {
        match origin_part(target) {
            Some(origin) => "/fetch/"@ + resolved(target, origin, location),
            None => location,
        }
    }
}

/// Routes the location of a redirect back through the proxy.
pub fn rewrite_location(target: &str, location: &str) -> (r: String)
    ensures
        r@ == rewritten(target@, location@),
{
    if starts_with(location, "https://") {
        return owned("/fetch/").concat(location);
    }
    if names_scheme(location) {
        return owned(location);
    }
    match https_origin(target) {
        Some(origin) => owned("/fetch/").concat(
            resolve(target, origin.as_str(), location).as_str(),
        ),
        None => owned(location),
    }
}

/// Whether a header of the caller is passed on. `host` belongs to the proxy, `origin` and
/// `referer` to the browser; `authorization`, `cookie` and `x-*` may carry credentials, and
/// `spin-*` what the server says of the caller.
pub open spec fn forwardable(name: Seq<char>) -> bool {
    let k = ascii_lower(name);
    &&& k != "host"@
    &&& k != "origin"@
    &&& k != "referer"@
    &&& k != "authorization"@
    &&& k != "cookie"@
    &&& !"x-"@.is_prefix_of(k)
    &&& !"spin-"@.is_prefix_of(k)
}

/// The headers of the caller that are passed on.
pub open spec fn forwarded(headers: Seq<(Seq<char>, Seq<u8>)>) -> Seq<(Seq<char>, Seq<u8>)> {
    headers.filter(|h: (Seq<char>, Seq<u8>)| forwardable(h.0))
}

fn is_forwardable(name: &str) -> (r: bool)
    ensures
        r == forwardable(name@),
{
    let lower = to_ascii_lowercase(name);
    let k = lower.as_str();
    !same(k, "host") && !same(k, "origin") && !same(k, "referer") && !same(k, "authorization")
        && !same(k, "cookie") && !starts_with(k, "x-") && !starts_with(k, "spin-")
}

/// Selects the headers of the caller that are passed on.
pub fn forward_headers(headers: &Vec<(String, Vec<u8>)>) -> (r: Vec<(String, Vec<u8>)>)
    ensures
        header_models(r@) == forwarded(header_models(headers@)),
{
    let ghost all = header_models(headers@);
    let ghost keep = |h: (Seq<char>, Seq<u8>)| forwardable(h.0);
    let mut out: Vec<(String, Vec<u8>)> = Vec::new();
    let mut i: usize = 0;
    proof {
        reveal(Seq::filter);
        assert(header_models(out@) =~= all.take(0).filter(keep));
    }
    while i < headers.len()
        invariant
            i <= headers.len(),
            all == header_models(headers@),
            keep == (|h: (Seq<char>, Seq<u8>)| forwardable(h.0)),
            header_models(out@) == all.take(i as int).filter(keep),
        decreases headers.len() - i,
    {
        let ghost before = out@;
        let ghost h = all[i as int];
        proof {
            reveal(Seq::filter);
            assert(all.take(i + 1).drop_last() =~= all.take(i as int));
            assert(all.take(i + 1).last() == h);
        }
        if is_forwardable(headers[i].0.as_str()) {
            out.push((owned(headers[i].0.as_str()), copy_bytes(&headers[i].1)));
            proof {
                assert(header_models(out@) =~= header_models(before).push(h));
            }
        }
        i += 1;
    }
    proof {
        assert(all.take(all.len() as int) =~= all);
    }
    out
}

/// Whether a header of the upstream answer is passed on: the proxy sets the fields for other
/// origins itself, and passes no cookies on.
pub open spec fn relayable(name: Seq<char>) -> bool {
    let k = ascii_lower(name);
    !"access-control-"@.is_prefix_of(k) && k != "set-cookie"@
}

/// A header of the upstream answer as it is passed on.
pub open spec fn relayed_header(target: Seq<char>, h: (Seq<char>, Seq<u8>)) -> (
    Seq<char>,
    Seq<u8>,
) {
    if ascii_lower(h.0) == "location"@ {
        (h.0, encode_utf8(rewritten(target, utf8_lossy(h.1))))
    } else {
        h
    }
}

/// The headers of the upstream answer as they are passed on.
pub open spec fn relayed(target: Seq<char>, headers: Seq<(Seq<char>, Seq<u8>)>) -> Seq<
    (Seq<char>, Seq<u8>),
> {
    headers.filter(|h: (Seq<char>, Seq<u8>)| relayable(h.0)).map_values(
        |h: (Seq<char>, Seq<u8>)| relayed_header(target, h),
    )
}

fn is_relayable(name: &str) -> (r: bool)
    ensures
        r == relayable(name@),
{
    let lower = to_ascii_lowercase(name);
    !starts_with(lower.as_str(), "access-control-") && !same(lower.as_str(), "set-cookie")
}

/// Selects the headers of the upstream answer that are passed on and routes redirects back
/// through the proxy.
pub fn relay_headers(target: &str, headers: &Vec<(String, Vec<u8>)>) -> (r: Vec<
    (String, Vec<u8>),
>)
    ensures
        header_models(r@) == relayed(target@, header_models(headers@)),
{
    let ghost all = header_models(headers@);
    let ghost keep = |h: (Seq<char>, Seq<u8>)| relayable(h.0);
    let ghost change = |h: (Seq<char>, Seq<u8>)| relayed_header(target@, h);
    let mut out: Vec<(String, Vec<u8>)> = Vec::new();
    let mut i: usize = 0;
    proof {
        reveal(Seq::filter);
        assert(header_models(out@) =~= all.take(0).filter(keep).map_values(change));
    }
    while i < headers.len()
        invariant
            i <= headers.len(),
            all == header_models(headers@),
            keep == (|h: (Seq<char>, Seq<u8>)| relayable(h.0)),
            change == (|h: (Seq<char>, Seq<u8>)| relayed_header(target@, h)),
            header_models(out@) == all.take(i as int).filter(keep).map_values(change),
        decreases headers.len() - i,
    {
        let ghost before = out@;
        let ghost h = all[i as int];
        let ghost kept = all.take(i as int).filter(keep);
        proof {
            reveal(Seq::filter);
            assert(all.take(i + 1).drop_last() =~= all.take(i as int));
            assert(all.take(i + 1).last() == h);
        }
        if is_relayable(headers[i].0.as_str()) {
            let name = owned(headers[i].0.as_str());
            let lower = to_ascii_lowercase(name.as_str());
            let value: Vec<u8> = if same(lower.as_str(), "location") {
                let location = from_utf8_lossy(headers[i].1.as_slice());
                bytes_of(rewrite_location(target, location.as_str()).as_str())
            } else {
                copy_bytes(&headers[i].1)
            };
            out.push((name, value));
            proof {
                assert(header_models(out@) =~= header_models(before).push(
                    relayed_header(target@, h),
                ));
                assert(kept.push(h).map_values(change) =~= kept.map_values(change).push(
                    relayed_header(target@, h),
                ));
            }
        }
        i += 1;
    }
    proof {
        assert(all.take(all.len() as int) =~= all);
    }
    out
}

/// What the proxy does first with a request.
pub enum FetchStep {
    Respond(ProxyReply),
    Forward { request: ProxyRequest, next: Fetching },
}

/// A request that has been passed on.
pub struct Fetching {
    pub target: String,
    pub method: Method,
    pub origin: String,
    pub allowed_origins: Option<String>,
}

/// What a request asks, and the list of origins that the proxy is configured with.
pub struct FetchRequest {
    pub method: Method,
    pub path: Option<String>,
    pub headers: Vec<(String, Vec<u8>)>,
    pub allowed_origins: Option<String>,
}

impl FetchRequest {
    /// Whether `reply` is an answer of the proxy's own to this request.
    pub open spec fn gets(self, reply: ProxyReply, status: u16, text: Seq<char>) -> bool {
        is_plain_reply(
            reply,
            status,
            text,
            self.method@,
            origin_of(header_models(self.headers@)),
            self.allowed_origins.deep_view(),
        )
    }

    /// Whether `step` is what the proxy does first with this request.
    pub open spec fn begins(self, step: FetchStep) -> bool {
        match self.method {
            Method::Options => step matches FetchStep::Respond(r) && self.gets(r, 204, ""@),
            Method::Get => match target_of(self.path.deep_view()) {
                None => step matches FetchStep::Respond(r) && self.gets(
                    r,
                    400,
                    "Malformed or missing target URL. Usage: /fetch/https://<target>"@,
                ),
                Some(target) => {
                    &&& step matches FetchStep::Forward { request, next }
                    &&& request.method is Get
                    &&& request.uri@ == target
                    &&& header_models(request.headers@) == forwarded(header_models(self.headers@))
                    &&& next.target@ == target
                    &&& next.method@ == self.method@
                    &&& next.origin@ == origin_of(header_models(self.headers@))
                    &&& next.allowed_origins == self.allowed_origins
                },
            },
            _ => step matches FetchStep::Respond(r) && self.gets(r, 405, "Only GET is supported"@),
        }
    }

    fn answer(&self, status: u16, text: &str, origin: &str) -> (r: FetchStep)
        requires
            origin@ == origin_of(header_models(self.headers@)),
        ensures
            r matches FetchStep::Respond(reply) && self.gets(reply, status, text@),
    {
        FetchStep::Respond(respond(status, text, &self.method, origin, &self.allowed_origins))
    }

    /// Starts the handling of a request.
    pub fn fetch_proxy(self) -> (r: FetchStep)
        requires
            origin_readable(header_models(self.headers@)),
        ensures
            self.begins(r),
    {
        let origin = request_origin(&self.headers);
        match &self.method {
            // A preflight request is between the browser and the proxy.
            Method::Options => {
                return self.answer(204, "", origin.as_str());
            },
            Method::Get => {},
            _ => {
                return self.answer(405, "Only GET is supported", origin.as_str());
            },
        }
        let path: Option<&str> = match &self.path {
            Some(p) => Some(p.as_str()),
            None => None,
        };
        let target = match get_target(path) {
            Some(t) => t,
            None => {
                return self.answer(
                    400,
                    "Malformed or missing target URL. Usage: /fetch/https://<target>",
                    origin.as_str(),
                );
            },
        };
        FetchStep::Forward {
            request: ProxyRequest {
                method: Method::Get,
                uri: owned(target.as_str()),
                headers: forward_headers(&self.headers),
            },
            next: Fetching {
                target,
                method: self.method,
                origin,
                allowed_origins: self.allowed_origins,
            },
        }
    }
}

impl Fetching {
    /// Whether `step` is what the proxy does with the head of the upstream answer, or without
    /// one where there is no answer.
    pub open spec fn goes_on(self, upstream: Option<UpstreamHead>, step: RelayStep) -> bool {
        match upstream {
            None => step matches RelayStep::Respond(r) && is_plain_reply(
                r,
                502,
                "Error sending upstream request"@,
                self.method@,
                self.origin@,
                self.allowed_origins.deep_view(),
            ),
            Some(head) => {
                &&& step matches RelayStep::Stream(h)
                &&& h.status == head.status
                &&& gains_cors(
                    relayed(self.target@, header_models(head.headers@)),
                    header_models(h.headers@),
                    self.method@,
                    self.origin@,
                    self.allowed_origins.deep_view(),
                )
            },
        }
    }

    /// Goes on with the head of the upstream answer, or without one where there is no answer.
    pub fn resume(self, upstream: Option<UpstreamHead>) -> (r: RelayStep)
        ensures
            self.goes_on(upstream, r),
    {
        match upstream {
            None => RelayStep::Respond(
                respond(
                    502,
                    "Error sending upstream request",
                    &self.method,
                    self.origin.as_str(),
                    &self.allowed_origins,
                ),
            ),
            Some(head) => {
                let mut headers = relay_headers(self.target.as_str(), &head.headers);
                append_cors_headers(
                    &mut headers,
                    &self.method,
                    self.origin.as_str(),
                    &self.allowed_origins,
                );
                RelayStep::Stream(UpstreamHead { status: head.status, headers })
            },
        }
    }
}

/// How many bytes of a chunk are passed on when `sent` bytes have been passed on before.
pub open spec fn chunk_share(sent: nat, chunk: nat) -> nat {
    if sent + chunk <= MAX_RESPONSE_BYTES {
        chunk
    } else if sent <= MAX_RESPONSE_BYTES {
        (MAX_RESPONSE_BYTES - sent) as nat
    } else {
        0
    }
}

/// Counts a chunk of the upstream body: how many bytes of it are passed on, and whether the
/// body is cut off behind them.
pub fn count_chunk(sent: usize, chunk: usize) -> (r: (usize, bool))
    ensures
        r.0 == chunk_share(sent as nat, chunk as nat),
        r.1 == (sent + r.0 >= MAX_RESPONSE_BYTES),
{
    let left: usize = MAX_RESPONSE_BYTES.saturating_sub(sent);
    let share: usize = if chunk <= left {
        chunk
    } else {
        left
    };
    (share, share == left)
}

/// What is passed on of a chunk when `sent` bytes have been passed on before, and whether the
/// body is cut off behind it.
pub open spec fn chunk_cut(sent: nat, chunk: Seq<u8>) -> (Seq<u8>, bool) {
    let kept = chunk.take(chunk_share(sent, chunk.len()) as int);
    (kept, sent + kept.len() >= MAX_RESPONSE_BYTES)
}

/// Cuts a chunk of the upstream body down to what is passed on of it, and says whether the
/// body is cut off behind it.
pub fn cut_chunk(sent: usize, chunk: Vec<u8>) -> (r: (Vec<u8>, bool))
    ensures
        (r.0@, r.1) == chunk_cut(sent as nat, chunk@),
        r.0@ == chunk@.take(chunk_share(sent as nat, chunk@.len()) as int),
        r.1 == (sent + r.0@.len() >= MAX_RESPONSE_BYTES),
{
    let (share, last) = count_chunk(sent, chunk.len());
    let mut kept = chunk;
    kept.truncate(share);
    proof {
        assert(kept@ =~= chunk@.take(share as int));
    }
    (kept, last)
}

/// Only a target over HTTPS is ever asked, only for a GET request, and only with GET.
pub proof fn only_https_targets_are_read(asked: FetchRequest, step: FetchStep)
    requires
        asked.begins(step),
        step is Forward,
    ensures
        step matches FetchStep::Forward { request, next } && {
            &&& asked.method is Get
            &&& request.method is Get
            &&& "https://"@.is_prefix_of(request.uri@)
            &&& asked.path matches Some(p) && p@ == "/fetch/"@ + request.uri@
        },
{
    let p = asked.path.deep_view()->0;
    let t = target_of(Some(p))->0;
    assert(p =~= "/fetch/"@ + t);
}

/// None of the headers that are held back is passed on, in whatever case its name is written:
/// neither the authorization nor the cookies of the caller. Every other header is, and no
/// header is made up.
pub proof fn withheld_headers_are_not_forwarded(headers: Seq<(Seq<char>, Seq<u8>)>)
    ensures
        forall|i: int|
            0 <= i < forwarded(headers).len() ==> {
                &&& forwardable((#[trigger] forwarded(headers)[i]).0)
                &&& ascii_lower(forwarded(headers)[i].0) != "authorization"@
                &&& ascii_lower(forwarded(headers)[i].0) != "cookie"@
                &&& headers.contains(forwarded(headers)[i])
            },
        forall|i: int|
            0 <= i < headers.len() && forwardable((#[trigger] headers[i]).0) ==> forwarded(
                headers,
            ).contains(headers[i]),
{
    let keep = |h: (Seq<char>, Seq<u8>)| forwardable(h.0);
    assert forall|i: int|
        0 <= i < headers.len() && forwardable((#[trigger] headers[i]).0) implies forwarded(
        headers,
    ).contains(headers[i]) by {
        headers.lemma_filter_contains(keep, i);
    }
    assert forall|i: int| 0 <= i < forwarded(headers).len() implies forwardable(
        (#[trigger] forwarded(headers)[i]).0,
    ) && headers.contains(forwarded(headers)[i]) by {
        headers.lemma_filter_pred(keep, i);
        lemma_filter_within(headers, keep, i);
    }
}

proof fn lemma_filter_within<A>(s: Seq<A>, keep: spec_fn(A) -> bool, i: int)
    requires
        0 <= i < s.filter(keep).len(),
    ensures
        s.contains(s.filter(keep)[i]),
    decreases s.len(),
{
    reveal(Seq::filter);
    if s.len() > 0 {
        let before = s.drop_last().filter(keep);
        if i < before.len() {
            lemma_filter_within(s.drop_last(), keep, i);
            let j = choose|j: int| 0 <= j < s.drop_last().len() && s.drop_last()[j] == before[i];
            assert(s[j] == before[i]);
        } else {
            assert(s[s.len() - 1] == s.filter(keep)[i]);
        }
    }
}

/// The location of a redirect to a URL over HTTPS is a path of the proxy that names that URL
/// as its target.
pub proof fn https_redirects_come_back(target: Seq<char>, location: Seq<char>)
    requires
        "https://"@.is_prefix_of(location),
    ensures
        target_of(Some(rewritten(target, location))) == Some(location),
{
    lemma_target_of(location);
}

/// The location of a redirect without a scheme is a path of the proxy that names as its
/// target the URL that the location stands for on the target of the request.
pub proof fn relative_redirects_come_back(target: Seq<char>, location: Seq<char>)
    requires
        origin_part(target) is Some,
        !has_scheme(location),
    ensures
        target_of(Some(rewritten(target, location))) == Some(
            resolved(target, origin_part(target)->0, location),
        ),
{
    reveal_strlit("https://");
    let url = resolved(target, origin_part(target)->0, location);
    if "https://"@.is_prefix_of(location) {
        assert forall|j: int| 0 <= j < 8 implies location[j] == "https://"@[j] by {
            assert(location.subrange(0, 8)[j] == location[j]);
        }
        lemma_first_index(location, ':', 5);
        assert(is_scheme(location.take(5)));
    }
    assert("https://"@.is_prefix_of(url)) by {
        assert(url.subrange(0, 8) =~= "https://"@);
    }
    lemma_target_of(url);
}

/// The location of a redirect to a path is a path of the proxy that names that path, without
/// its dot segments, on the server of the target.
pub proof fn path_redirects_come_back(target: Seq<char>, path: Seq<char>)
    requires
        origin_part(target) is Some,
        !"/"@.is_prefix_of(path),
    ensures
        rewritten(target, "/"@ + path) == "/fetch/"@ + (origin_part(target)->0 + without_dots(
            "/"@ + path,
        )),
        target_of(Some(rewritten(target, "/"@ + path))) == Some(
            origin_part(target)->0 + without_dots("/"@ + path),
        ),
{
    let location = "/"@ + path;
    reveal_strlit("/");
    reveal_strlit("//");
    reveal_strlit("https://");
    assert(location[0] == '/');
    lemma_no_scheme(location);
    assert("https://"@.is_prefix_of(location) ==> location.subrange(0, 8)[0] == 'h');
    assert("/"@.is_prefix_of(location)) by {
        assert(location.subrange(0, 1) =~= "/"@);
    }
    assert(!"//"@.is_prefix_of(location)) by {
        if "//"@.is_prefix_of(location) {
            assert(location.subrange(0, 2)[1] == '/');
            assert(path[0] == '/');
            assert(path.subrange(0, 1) =~= "/"@);
        }
    }
    relative_redirects_come_back(target, location);
}

/// A path with a query and a fragment stays as it is where the path has no dot segments.
pub proof fn references_without_dots_stay(s: Seq<char>)
    requires
        forall|i: int|
            0 <= i < segments_of(before_query(s)).len() ==> !is_dots(
                #[trigger] segments_of(before_query(s))[i],
            ),
    ensures
        without_dots(s) == s,
{
    lemma_before_query(s);
    tidy_paths_stay(before_query(s));
    assert(before_query(s) + s.skip(before_query(s).len() as int) =~= s);
}

proof fn lemma_no_scheme(location: Seq<char>)
    requires
        location.len() > 0,
        !is_letter(location[0]),
    ensures
        !has_scheme(location),
{
    lemma_index_range(location, ':');
    let i = first_index(location, ':');
    if i > 0 {
        assert(location.take(i)[0] == location[0]);
    }
}

/// The location of a redirect to another host, without a scheme, is a path of the proxy that
/// names that host over HTTPS, and the path on it without its dot segments.
pub proof fn host_redirects_come_back(target: Seq<char>, rest: Seq<char>)
    requires
        origin_part(target) is Some,
    ensures
        target_of(Some(rewritten(target, "//"@ + rest))) == Some(
            "https://"@ + host_of(rest) + without_dots(behind_host(rest)),
        ),
{
    let location = "//"@ + rest;
    reveal_strlit("//");
    assert(location[0] == '/');
    lemma_no_scheme(location);
    assert(location.subrange(0, 2) =~= "//"@);
    assert(location.skip(2) =~= rest);
    relative_redirects_come_back(target, location);
}

/// The location of a redirect to a page beside the target is a path of the proxy that names
/// that page, from the directory of the target and without dot segments.
pub proof fn sibling_redirects_come_back(
    host: Seq<char>,
    dir: Seq<char>,
    page: Seq<char>,
    location: Seq<char>,
)
    requires
        host.len() > 0,
        forall|i: int| 0 <= i < host.len() ==> !ends_host(#[trigger] host[i]) && host[i] != '@',
        dir.len() > 0,
        dir[0] == '/',
        dir.last() == '/',
        forall|i: int| 0 <= i < dir.len() ==> #[trigger] dir[i] != '?' && dir[i] != '#',
        forall|i: int| 0 <= i < page.len() ==> !ends_host(#[trigger] page[i]),
        location.len() > 0,
        !ends_host(location[0]),
        !has_scheme(location),
    ensures
        target_of(Some(rewritten("https://"@ + host + dir + page, location))) == Some(
            "https://"@ + host + without_dots(dir + location),
        ),
{
    let rest = host + dir + page;
    let target = "https://"@ + host + dir + page;
    reveal_strlit("/");
    reveal_strlit("//");
    reveal_strlit("?");
    reveal_strlit("#");
    reveal_strlit("https://");
    assert(target =~= "https://"@ + rest);
    assert("https://"@.is_prefix_of(target)) by {
        assert(target.subrange(0, 8) =~= "https://"@);
    }
    assert(target.skip(8) =~= rest);
    let n = host.len() as int;
    lemma_host(rest, n);
    assert(rest.take(n) =~= host);
    lemma_after_last(host, '@', 0);
    assert(host.skip(0) =~= host);
    let behind = dir + page;
    assert(rest.skip(n) =~= behind);
    lemma_first_index(behind, '#', behind.len() as int);
    assert(behind.take(behind.len() as int) =~= behind);
    lemma_first_index(behind, '?', behind.len() as int);
    let k = dir.len() as int;
    assert(behind[0] == '/');
    assert(behind.contains('/'));
    assert(behind[k - 1] == dir.last());
    lemma_through_last(behind, '/', k);
    assert(behind.take(k) =~= dir);
    assert("/"@.is_prefix_of(location) ==> location.subrange(0, 1)[0] == location[0]);
    assert("//"@.is_prefix_of(location) ==> location.subrange(0, 2)[0] == location[0]);
    assert("?"@.is_prefix_of(location) ==> location.subrange(0, 1)[0] == location[0]);
    assert("#"@.is_prefix_of(location) ==> location.subrange(0, 1)[0] == location[0]);
    relative_redirects_come_back(target, location);
}

proof fn lemma_target_of(url: Seq<char>)
    requires
        "https://"@.is_prefix_of(url),
    ensures
        target_of(Some("/fetch/"@ + url)) == Some(url),
{
    let p = "/fetch/"@ + url;
    assert("/fetch/"@.is_prefix_of(p));
    assert(p.skip("/fetch/"@.len() as int) =~= url);
}

/// No cookie and no field for other origins is passed on from upstream: in the answer that is
/// streamed such a field is one of the proxy's own, and stands there once.
pub proof fn upstream_cors_and_cookies_are_dropped(
    next: Fetching,
    upstream: UpstreamHead,
    head: UpstreamHead,
)
    requires
        next.goes_on(Some(upstream), RelayStep::Stream(head)),
    ensures
        ({
            let kept = relayed(next.target@, header_models(upstream.headers@));
            let all = header_models(head.headers@);
            &&& kept.is_prefix_of(all)
            &&& forall|i: int| 0 <= i < kept.len() ==> relayable((#[trigger] kept[i]).0)
            &&& forall|i: int, j: int|
                kept.len() <= i < j < all.len() ==> (#[trigger] all[i]).0 != (#[trigger] all[j]).0
            &&& forall|i: int|
                kept.len() <= i < all.len() ==> is_cors_name((#[trigger] all[i]).0)
        }),
{
    let kept = relayed(next.target@, header_models(upstream.headers@));
    let all = header_models(head.headers@);
    let added = all.skip(kept.len() as int);
    let keep = |h: (Seq<char>, Seq<u8>)| relayable(h.0);
    let source = header_models(upstream.headers@);
    assert forall|i: int| 0 <= i < kept.len() implies relayable((#[trigger] kept[i]).0) by {
        source.lemma_filter_pred(keep, i);
    }
    assert forall|i: int, j: int| kept.len() <= i < j < all.len() implies (#[trigger] all[i]).0 != (
    #[trigger] all[j]).0 by {
        assert(added[i - kept.len()] == all[i]);
        assert(added[j - kept.len()] == all[j]);
    }
    gained_fields_are_cors_fields(
        added,
        next.method@,
        next.origin@,
        next.allowed_origins.deep_view(),
    );
    assert forall|i: int| kept.len() <= i < all.len() implies is_cors_name(
        (#[trigger] all[i]).0,
    ) by {
        assert(added[i - kept.len()] == all[i]);
    }
}

/// The chunks of a list one behind the other.
pub open spec fn whole_body(chunks: Seq<Seq<u8>>) -> Seq<u8>
    decreases chunks.len(),
{
    if chunks.len() == 0 {
        Seq::empty()
    } else {
        chunks[0] + whole_body(chunks.skip(1))
    }
}

/// What is passed on of a body that comes in chunks, each cut by `cut_chunk`, when `sent` bytes
/// have been passed on before.
pub open spec fn passed_on(sent: nat, chunks: Seq<Seq<u8>>) -> Seq<u8>
    decreases chunks.len(),
{
    if chunks.len() == 0 {
        Seq::empty()
    } else {
        let (kept, last) = chunk_cut(sent, chunks[0]);
        if last {
            kept
        } else {
            kept + passed_on(sent + kept.len(), chunks.skip(1))
        }
    }
}

/// Of a body, in whatever chunks it comes, the first bytes are passed on: as many as it has,
/// or as many as the size cap admits, whichever is less.
pub proof fn bodies_are_cut_off_at_the_cap(chunks: Seq<Seq<u8>>)
    ensures
        passed_on(0, chunks) == whole_body(chunks).take(
            if whole_body(chunks).len() <= 2097152 {
                whole_body(chunks).len() as int
            } else {
                2097152
            },
        ),
{
    lemma_passed_on(0, chunks);
}

proof fn lemma_passed_on(sent: nat, chunks: Seq<Seq<u8>>)
    requires
        sent < MAX_RESPONSE_BYTES,
    ensures
        passed_on(sent, chunks) == whole_body(chunks).take(
            if sent + whole_body(chunks).len() <= MAX_RESPONSE_BYTES {
                whole_body(chunks).len() as int
            } else {
                MAX_RESPONSE_BYTES - sent
            },
        ),
    decreases chunks.len(),
{
    let body = whole_body(chunks);
    if chunks.len() == 0 {
        assert(body.take(0) =~= Seq::<u8>::empty());
    } else {
        let share = chunk_share(sent, chunks[0].len());
        let kept = chunks[0].take(share as int);
        let rest = whole_body(chunks.skip(1));
        if sent + share >= MAX_RESPONSE_BYTES {
            assert(kept =~= body.take(MAX_RESPONSE_BYTES - sent));
            if sent + body.len() <= MAX_RESPONSE_BYTES {
                assert(body.len() == MAX_RESPONSE_BYTES - sent);
            }
        } else {
            lemma_passed_on(sent + share, chunks.skip(1));
            assert(kept =~= chunks[0]);
            let n = if sent + body.len() <= MAX_RESPONSE_BYTES {
                body.len() as int
            } else {
                MAX_RESPONSE_BYTES - sent
            };
            assert(body.take(n) =~= chunks[0] + rest.take(n - chunks[0].len()));
        }
    }
}

} // verus!

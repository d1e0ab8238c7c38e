//! What the two proxies promise: which requests are passed on, and what comes back of them.

use vstd::prelude::*;
use vstd::utf8::{decode_utf8, encode_utf8, valid_utf8};
use crate::cors::{
    cors_fields, gains_cors, header_models, lists, origin_field, origin_of, origin_readable,
};
use crate::cors_proxy::{CorsProxyRequest, CorsProxyStep, Relaying};
use crate::fetch_proxy::{
    chunk_cut, forwarded, passed_on, relayed, rewritten, FetchRequest, FetchStep, Fetching,
};
use crate::http::MethodModel;
use crate::laws::text::spaces_are_trimmed_off;
use crate::proxy::{ProxyReply, RelayStep, UpstreamHead};
use crate::text::{
    ascii_lower, is_space, joined, lemma_pieces_append, lemma_pieces_nonempty,
    lemma_pieces_of_one, pieces, trimmed, utf8_lossy,
};

verus! {

/// Whether `after` is `before` with the fields behind it that `build_with_cors` gives an answer
/// where every method and every header is allowed, no credentials are, and a preflight answer
/// may be kept for an hour: to the origins of a list, or to all where there is none.
pub open spec fn gains_fields(
    before: Seq<(Seq<char>, Seq<u8>)>,
    after: Seq<(Seq<char>, Seq<u8>)>,
    method: MethodModel,
    origin: Seq<char>,
    origins: Option<Seq<char>>,
) -> bool {
    &&& before.is_prefix_of(after)
    &&& lists(
        after.skip(before.len() as int),
        cors_fields(
            method == MethodModel::Options,
            origin,
            if origins is Some {
                origins->0
            } else {
                "*"@
            },
            "*"@,
            false,
            Some(3600u32),
        ),
    )
}

/// Whether `origin` is what the first header `origin` says; empty where there is no such header.
pub open spec fn names_origin(headers: Seq<(String, Vec<u8>)>, origin: Seq<char>) -> bool {
    ||| exists|i: int|
        {
            &&& 0 <= i < headers.len()
            &&& (#[trigger] headers[i]).0@ == "origin"@
            &&& decode_utf8(headers[i].1@) == origin
            &&& forall|j: int| 0 <= j < i ==> (#[trigger] headers[j]).0@ != "origin"@
        }
    ||| {
        &&& origin.len() == 0
        &&& forall|j: int| 0 <= j < headers.len() ==> (#[trigger] headers[j]).0@ != "origin"@
    }
}

proof fn lemma_origin(headers: Seq<(String, Vec<u8>)>, origin: Seq<char>)
    requires
        names_origin(headers, origin),
    ensures
        origin_of(header_models(headers)) == origin,
{
    let all = header_models(headers);
    assert forall|j: int| 0 <= j < all.len() implies (#[trigger] all[j]) == (
        headers[j].0@,
        headers[j].1@,
    ) by {}
    if forall|j: int| 0 <= j < headers.len() ==> (#[trigger] headers[j]).0@ != "origin"@ {
        lemma_origin_field(all, all.len() as int);
        assert(origin =~= Seq::empty());
    } else {
        let i = choose|i: int|
            {
                &&& 0 <= i < headers.len()
                &&& (#[trigger] headers[i]).0@ == "origin"@
                &&& decode_utf8(headers[i].1@) == origin
                &&& forall|j: int| 0 <= j < i ==> (#[trigger] headers[j]).0@ != "origin"@
            };
        lemma_origin_field(all, i);
    }
}

proof fn lemma_origin_field(headers: Seq<(Seq<char>, Seq<u8>)>, i: int)
    requires
        0 <= i <= headers.len(),
        forall|j: int| 0 <= j < i ==> (#[trigger] headers[j]).0 != "origin"@,
        i < headers.len() ==> headers[i].0 == "origin"@,
    ensures
        origin_field(headers) == if i < headers.len() {
            Some(headers[i].1)
        } else {
            None
        },
    decreases i,
{
    if i > 0 {
        assert(headers[0].0 != "origin"@);
        let rest = headers.skip(1);
        assert forall|j: int| 0 <= j < i - 1 implies (#[trigger] rest[j]).0 != "origin"@ by {
            assert(rest[j] == headers[j + 1]);
        }
        lemma_origin_field(rest, i - 1);
    }
}

/// The origin of a request can be read if and only if it names none, or the first header that
/// names it is UTF-8.
pub proof fn origins_are_text(headers: Seq<(String, Vec<u8>)>, i: int)
    requires
        0 <= i <= headers.len(),
        forall|j: int| 0 <= j < i ==> (#[trigger] headers[j]).0@ != "origin"@,
        i < headers.len() ==> headers[i].0@ == "origin"@,
    ensures
        origin_readable(header_models(headers)) <==> i == headers.len() || valid_utf8(
            headers[i].1@,
        ),
{
    let all = header_models(headers);
    assert forall|j: int| 0 <= j < all.len() implies (#[trigger] all[j]) == (
        headers[j].0@,
        headers[j].1@,
    ) by {}
    lemma_origin_field(all, i);
}

/// Whether an answer of a proxy's own has the status and the text, and besides only the fields
/// that let a page read it.
pub open spec fn says(
    reply: ProxyReply,
    status: u16,
    text: Seq<char>,
    method: MethodModel,
    origin: Seq<char>,
    origins: Option<Seq<char>>,
) -> bool {
    &&& reply.status == status
    &&& reply.body@ == encode_utf8(text)
    &&& gains_fields(Seq::empty(), header_models(reply.headers@), method, origin, origins)
}

/// A page of any origin may read an answer where no list of origins is configured, without
/// credentials; a preflight answer allows it every method and every header for an hour.
pub proof fn all_pages_may_read(
    before: Seq<(Seq<char>, Seq<u8>)>,
    after: Seq<(Seq<char>, Seq<u8>)>,
    method: MethodModel,
    origin: Seq<char>,
)
    requires
        gains_cors(before, after, method, origin, None),
        origin.len() > 0,
    ensures
        before.is_prefix_of(after),
        after.contains(("access-control-allow-origin"@, encode_utf8(origin))),
        after.contains(("access-control-allow-credentials"@, encode_utf8("false"@))),
        method is Options ==> {
            &&& after.contains(("access-control-allow-methods"@, encode_utf8("*"@)))
            &&& after.contains(("access-control-allow-headers"@, encode_utf8("*"@)))
            &&& after.contains(("access-control-max-age"@, encode_utf8("3600"@)))
        },
{
    lemma_field_names();
    let added = after.skip(before.len() as int);
    let fields = crate::cors::answer_fields(method, origin, None);
    assert(lists(added, fields));
    lemma_listed(before, after, fields, "access-control-allow-origin"@);
    lemma_listed(before, after, fields, "access-control-allow-credentials"@);
    if method is Options {
        lemma_listed(before, after, fields, "access-control-allow-methods"@);
        lemma_listed(before, after, fields, "access-control-allow-headers"@);
        lemma_listed(before, after, fields, "access-control-max-age"@);
    }
}

proof fn lemma_listed(
    before: Seq<(Seq<char>, Seq<u8>)>,
    after: Seq<(Seq<char>, Seq<u8>)>,
    fields: Map<Seq<char>, Seq<u8>>,
    name: Seq<char>,
)
    requires
        before.is_prefix_of(after),
        lists(after.skip(before.len() as int), fields),
        fields.contains_key(name),
    ensures
        after.contains((name, fields[name])),
{
    let added = after.skip(before.len() as int);
    let i = choose|i: int| 0 <= i < added.len() && #[trigger] added[i].0 == name;
    assert(added[i] == (name, fields[name]));
    assert(after[before.len() + i] == added[i]);
}

proof fn lemma_field_names()
    ensures
        "access-control-allow-origin"@ != "access-control-allow-credentials"@,
        "access-control-allow-origin"@ != "access-control-allow-methods"@,
        "access-control-allow-origin"@ != "access-control-allow-headers"@,
        "access-control-allow-origin"@ != "access-control-max-age"@,
        "access-control-allow-credentials"@ != "access-control-allow-methods"@,
        "access-control-allow-credentials"@ != "access-control-allow-headers"@,
        "access-control-allow-credentials"@ != "access-control-max-age"@,
        "access-control-allow-methods"@ != "access-control-allow-headers"@,
        "access-control-allow-methods"@ != "access-control-max-age"@,
        "access-control-allow-headers"@ != "access-control-max-age"@,
        crate::json::integer(3600) == "3600"@,
{
    reveal_strlit("access-control-allow-origin");
    reveal_strlit("access-control-allow-credentials");
    reveal_strlit("access-control-allow-methods");
    reveal_strlit("access-control-allow-headers");
    reveal_strlit("access-control-max-age");
    reveal_strlit("3600");
    assert("access-control-allow-origin"@.len() == 27);
    assert("access-control-allow-credentials"@.len() == 32);
    assert("access-control-allow-methods"@.len() == 28);
    assert("access-control-allow-headers"@.len() == 28);
    assert("access-control-allow-methods"@[21] == 'm');
    assert("access-control-allow-headers"@[21] == 'h');
    assert("access-control-max-age"@.len() == 22);
    reveal_with_fuel(crate::text::decimal, 5);
    assert(crate::text::decimal(3600) =~= "3600"@);
}

/// A text is split at every separator: what stands before one and what stands behind it are
/// split each for itself.
pub proof fn texts_are_split_at_separators(a: Seq<char>, sep: char, b: Seq<char>)
    ensures
        pieces(a + seq![sep] + b, sep) == pieces(a, sep) + pieces(b, sep),
        !a.contains(sep) ==> pieces(a, sep) == seq![a],
    decreases b.len(),
{
    let s = a + seq![sep] + b;
    lemma_pieces_nonempty(a, sep);
    if !a.contains(sep) {
        lemma_pieces_of_one(a, sep);
    }
    if b.len() == 0 {
        assert(b =~= Seq::empty());
        lemma_pieces_append(a, sep, b);
        assert(pieces(a, sep).push(b) =~= pieces(a, sep) + pieces(b, sep));
    } else {
        texts_are_split_at_separators(a, sep, b.drop_last());
        lemma_pieces_nonempty(b.drop_last(), sep);
        assert(s.drop_last() =~= a + seq![sep] + b.drop_last());
        assert(s.last() == b.last());
        let x = pieces(a, sep);
        let y = pieces(b.drop_last(), sep);
        assert((x + y).last() == y.last());
        if b.last() == sep {
            assert((x + y).push(Seq::empty()) =~= x + y.push(Seq::empty()));
        } else {
            let z = y.last().push(b.last());
            assert((x + y).drop_last().push(z) =~= x + y.drop_last().push(z));
        }
    }
}

/// An entry of a list is one of its pieces.
proof fn lemma_entry(before: Seq<char>, entry: Seq<char>, after: Seq<char>) -> (i: int)
    requires
        before.len() == 0 || before.last() == ',',
        after.len() == 0 || after[0] == ',',
        !entry.contains(','),
    ensures
        0 <= i < pieces(before + entry + after, ',').len(),
        pieces(before + entry + after, ',')[i] == entry,
{
    let list = before + entry + after;
    let head = before + entry;
    let n: int = if before.len() == 0 {
        assert(head =~= entry);
        lemma_pieces_of_one(entry, ',');
        0
    } else {
        let b = before.drop_last();
        assert(head =~= b + seq![','] + entry);
        lemma_pieces_append(b, ',', entry);
        lemma_pieces_nonempty(b, ',');
        pieces(b, ',').len() as int
    };
    assert(pieces(head, ',')[n] == entry);
    if after.len() == 0 {
        assert(list =~= head);
    } else {
        assert(list =~= head + seq![','] + after.skip(1));
        texts_are_split_at_separators(head, ',', after.skip(1));
    }
    n
}

/// Every target over HTTP that begins as some entry of the allowlist does is asked, with the
/// method, the headers and the URL of the caller. An entry is what stands between two commas, or
/// between a comma and an end of the list, without the spaces around it; it does not matter
/// which entry it is, nor how many there are.
pub proof fn targets_of_every_entry_are_asked(
    asked: CorsProxyRequest,
    step: CorsProxyStep,
    target: Seq<char>,
    before: Seq<char>,
    left: Seq<char>,
    entry: Seq<char>,
    right: Seq<char>,
    after: Seq<char>,
    origin: Seq<char>,
)
    requires
        asked.begins(step),
        asked.path matches Some(p) && p@ == "/cors-proxy/"@ + target,
        "http://"@.is_prefix_of(target) || "https://"@.is_prefix_of(target),
        asked.allowed_targets@ == before + (left + entry + right) + after,
        before.len() == 0 || before.last() == ',',
        after.len() == 0 || after[0] == ',',
        !entry.contains(','),
        forall|i: int| 0 <= i < left.len() ==> is_space(#[trigger] left[i]),
        forall|i: int| 0 <= i < right.len() ==> is_space(#[trigger] right[i]),
        entry.len() > 0 ==> !is_space(entry[0]) && !is_space(entry.last()),
        entry.is_prefix_of(target),
        names_origin(asked.headers@, origin),
    ensures
        step matches CorsProxyStep::Forward { request, next } && {
            &&& request.uri@ == target
            &&& request.method@ == asked.method@
            &&& request.headers@ == asked.headers@
            &&& next.method@ == asked.method@
            &&& next.origin@ == origin
            &&& next.allowed_origins == asked.allowed_origins
        },
{
    let padded = left + entry + right;
    assert(!padded.contains(',')) by {
        if padded.contains(',') {
            let k = choose|k: int| 0 <= k < padded.len() && padded[k] == ',';
            if left.len() <= k < left.len() + entry.len() {
                assert(entry[k - left.len()] == ',');
            } else if k < left.len() {
                assert(is_space(left[k]));
            } else {
                assert(is_space(right[k - left.len() - entry.len()]));
            }
        }
    }
    let i = lemma_entry(before, padded, after);
    spaces_are_trimmed_off(left, entry, right);
    let list = asked.allowed_targets@;
    assert(crate::cors_proxy::allowed_targets(list)[i] == entry);
    lemma_cors_target(target);
    lemma_origin(asked.headers@, origin);
}

proof fn lemma_cors_target(target: Seq<char>)
    ensures
        crate::text::after_prefix("/cors-proxy/"@ + target, "/cors-proxy/"@) == Some(target),
{
    let p = "/cors-proxy/"@ + target;
    assert("/cors-proxy/"@ =~= p.subrange(0, "/cors-proxy/"@.len() as int));
    assert(p.skip("/cors-proxy/"@.len() as int) =~= target);
}

/// A target that begins as no entry of the allowlist does is refused with 403 and the entries of
/// the list; a path that names no target over HTTP is refused with 400. Neither is asked.
pub proof fn other_targets_are_refused(
    asked: CorsProxyRequest,
    step: CorsProxyStep,
    path: Seq<char>,
    entries: Seq<Seq<char>>,
    origin: Seq<char>,
)
    requires
        asked.begins(step),
        asked.path is Some ==> asked.path->0@ == path,
        names_origin(asked.headers@, origin),
        entries.len() == pieces(asked.allowed_targets@, ',').len(),
        forall|i: int|
            0 <= i < entries.len() ==> #[trigger] entries[i] == trimmed(
                pieces(asked.allowed_targets@, ',')[i],
            ),
    ensures
        asked.path is None || !("/cors-proxy/http://"@.is_prefix_of(path)
            || "/cors-proxy/https://"@.is_prefix_of(path)) ==> (step matches CorsProxyStep::Respond(
            reply,
        ) && says(
            reply,
            400,
            "Malformed or missing target URL. Usage: /cors-proxy/https://<target>"@,
            asked.method@,
            origin,
            asked.allowed_origins.deep_view(),
        )),
        asked.path is Some && ("/cors-proxy/http://"@.is_prefix_of(path)
            || "/cors-proxy/https://"@.is_prefix_of(path)) && (forall|i: int|
            0 <= i < entries.len() ==> !(#[trigger] entries[i]).is_prefix_of(path.skip(12)))
            ==> (step matches CorsProxyStep::Respond(reply) && says(
            reply,
            403,
            "Target domain not allowed. Allowed domains: "@ + joined(entries, ", "@),
            asked.method@,
            origin,
            asked.allowed_origins.deep_view(),
        )),
{
    lemma_origin(asked.headers@, origin);
    lemma_pieces_nonempty(asked.allowed_targets@, ',');
    assert(crate::cors_proxy::allowed_targets(asked.allowed_targets@) =~= entries);
    lemma_proxy_path(path);
}

proof fn lemma_proxy_path(path: Seq<char>)
    ensures
        "/cors-proxy/"@.len() == 12,
        "/cors-proxy/http://"@.is_prefix_of(path) <==> "/cors-proxy/"@.is_prefix_of(path)
            && "http://"@.is_prefix_of(path.skip(12)),
        "/cors-proxy/https://"@.is_prefix_of(path) <==> "/cors-proxy/"@.is_prefix_of(path)
            && "https://"@.is_prefix_of(path.skip(12)),
{
    reveal_strlit("/cors-proxy/");
    reveal_strlit("http://");
    reveal_strlit("https://");
    reveal_strlit("/cors-proxy/http://");
    reveal_strlit("/cors-proxy/https://");
    assert("/cors-proxy/http://"@ =~= "/cors-proxy/"@ + "http://"@);
    assert("/cors-proxy/https://"@ =~= "/cors-proxy/"@ + "https://"@);
    lemma_prefix_of_two("/cors-proxy/"@, "http://"@, path);
    lemma_prefix_of_two("/cors-proxy/"@, "https://"@, path);
}

pub(crate) proof fn lemma_prefix_of_two(a: Seq<char>, b: Seq<char>, s: Seq<char>)
    ensures
        (a + b).is_prefix_of(s) <==> a.is_prefix_of(s) && b.is_prefix_of(s.skip(a.len() as int)),
{
    let n = a.len() as int;
    let m = b.len() as int;
    if (a + b).is_prefix_of(s) {
        assert(a =~= s.subrange(0, n)) by {
            assert forall|i: int| 0 <= i < n implies a[i] == s[i] by {
                assert((a + b)[i] == s.subrange(0, n + m)[i]);
            }
        }
        assert(b =~= s.skip(n).subrange(0, m)) by {
            assert forall|i: int| 0 <= i < m implies b[i] == s[n + i] by {
                assert((a + b)[n + i] == s.subrange(0, n + m)[n + i]);
            }
        }
    }
    if a.is_prefix_of(s) && b.is_prefix_of(s.skip(n)) {
        assert(a + b =~= s.subrange(0, n + m)) by {
            assert forall|i: int| 0 <= i < n + m implies (a + b)[i] == s[i] by {
                if i < n {
                    assert(a[i] == s.subrange(0, n)[i]);
                } else {
                    assert(b[i - n] == s.skip(n).subrange(0, m)[i - n]);
                }
            }
        }
    }
}

/// The answer of an allowed target comes back with its status and its headers, and behind them
/// the fields that let the page read it. Where there is no answer, that is said with 502.
pub proof fn answers_of_targets_come_back(
    next: Relaying,
    upstream: Option<UpstreamHead>,
    step: RelayStep,
)
    requires
        next.goes_on(upstream, step),
    ensures
        match upstream {
            Some(head) => step matches RelayStep::Stream(h) && h.status == head.status
                && gains_fields(
                header_models(head.headers@),
                header_models(h.headers@),
                next.method@,
                next.origin@,
                next.allowed_origins.deep_view(),
            ),
            None => step matches RelayStep::Respond(reply) && says(
                reply,
                502,
                "Error sending upstream request"@,
                next.method@,
                next.origin@,
                next.allowed_origins.deep_view(),
            ),
        },
{
}

/// Whether a header of a caller stays with the proxy.
pub open spec fn stays_behind(name: Seq<char>) -> bool {
    let k = ascii_lower(name);
    ||| k == "host"@
    ||| k == "origin"@
    ||| k == "referer"@
    ||| k == "authorization"@
    ||| k == "cookie"@
    ||| "x-"@.is_prefix_of(k)
    ||| "spin-"@.is_prefix_of(k)
}

/// Every GET request for a page over HTTPS is passed on as a GET request for that page, with
/// all headers of the caller, in their order and with their values, but for those that stay
/// with the proxy.
pub proof fn pages_over_https_are_read(
    asked: FetchRequest,
    step: FetchStep,
    target: Seq<char>,
    origin: Seq<char>,
)
    requires
        asked.begins(step),
        asked.method is Get,
        asked.path matches Some(p) && p@ == "/fetch/"@ + target,
        "https://"@.is_prefix_of(target),
        names_origin(asked.headers@, origin),
    ensures
        step matches FetchStep::Forward { request, next } && {
            &&& request.method is Get
            &&& request.uri@ == target
            &&& header_models(request.headers@) == header_models(asked.headers@).filter(
                |h: (Seq<char>, Seq<u8>)| !stays_behind(h.0),
            )
            &&& next.target@ == target
            &&& next.method is Get
            &&& next.origin@ == origin
            &&& next.allowed_origins == asked.allowed_origins
        },
{
    let p = "/fetch/"@ + target;
    assert("/fetch/"@ =~= p.subrange(0, "/fetch/"@.len() as int));
    assert(p.skip("/fetch/"@.len() as int) =~= target);
    lemma_origin(asked.headers@, origin);
    lemma_forwarded(header_models(asked.headers@));
    if let FetchStep::Forward { request, next } = step {
        assert(next.method@ is Get);
    }
}

proof fn lemma_forwarded(headers: Seq<(Seq<char>, Seq<u8>)>)
    ensures
        forwarded(headers) == headers.filter(|h: (Seq<char>, Seq<u8>)| !stays_behind(h.0)),
    decreases headers.len(),
{
    reveal(Seq::filter);
    if headers.len() > 0 {
        lemma_forwarded(headers.drop_last());
    }
}

/// A preflight request is answered 204, any other request that is not a GET request 405, and a
/// GET request that names no page over HTTPS 400, whatever its headers are.
pub proof fn other_requests_are_not_read(
    asked: FetchRequest,
    step: FetchStep,
    path: Seq<char>,
    origin: Seq<char>,
)
    requires
        asked.begins(step),
        asked.path is Some ==> asked.path->0@ == path,
        names_origin(asked.headers@, origin),
    ensures
        asked.method is Options ==> (step matches FetchStep::Respond(reply) && says(
            reply,
            204,
            Seq::empty(),
            MethodModel::Options,
            origin,
            asked.allowed_origins.deep_view(),
        )),
        !(asked.method is Options) && !(asked.method is Get) ==> (
        step matches FetchStep::Respond(reply) && says(
            reply,
            405,
            "Only GET is supported"@,
            asked.method@,
            origin,
            asked.allowed_origins.deep_view(),
        )),
        asked.method is Get && (asked.path is None || !"/fetch/https://"@.is_prefix_of(path)) ==> (
        step matches FetchStep::Respond(reply) && says(
            reply,
            400,
            "Malformed or missing target URL. Usage: /fetch/https://<target>"@,
            MethodModel::Get,
            origin,
            asked.allowed_origins.deep_view(),
        )),
{
    lemma_origin(asked.headers@, origin);
    reveal_strlit("");
    assert(""@ =~= Seq::empty());
    reveal_strlit("/fetch/");
    reveal_strlit("https://");
    reveal_strlit("/fetch/https://");
    assert("/fetch/https://"@ =~= "/fetch/"@ + "https://"@);
    lemma_prefix_of_two("/fetch/"@, "https://"@, path);
    assert(asked.method is Options ==> asked.method@ == MethodModel::Options);
    assert(asked.method is Get ==> asked.method@ == MethodModel::Get);
}

/// Whether a header of a page does not come back with it.
pub open spec fn is_dropped(name: Seq<char>) -> bool {
    let k = ascii_lower(name);
    "access-control-"@.is_prefix_of(k) || k == "set-cookie"@
}

/// A page comes back with its status and with all its headers, in their order and with their
/// values, but for cookies and for what it says to pages of other origins; only the location of a
/// redirect is changed. Behind them stand the fields that let the page read it. Where there is no
/// answer, that is said with 502.
pub proof fn pages_come_back(next: Fetching, upstream: Option<UpstreamHead>, step: RelayStep)
    requires
        next.goes_on(upstream, step),
    ensures
        match upstream {
            Some(head) => step matches RelayStep::Stream(h) && h.status == head.status
                && exists|kept: Seq<(Seq<char>, Seq<u8>)>|
                {
                    &&& kept.len() == left_over(head).len()
                    &&& forall|i: int|
                        0 <= i < kept.len() ==> (#[trigger] kept[i]).0 == left_over(head)[i].0
                            && kept[i].1 == if ascii_lower(left_over(head)[i].0) == "location"@ {
                            encode_utf8(rewritten(next.target@, utf8_lossy(left_over(head)[i].1)))
                        } else {
                            left_over(head)[i].1
                        }
                    &&& #[trigger] gains_fields(
                        kept,
                        header_models(h.headers@),
                        next.method@,
                        next.origin@,
                        next.allowed_origins.deep_view(),
                    )
                },
            None => step matches RelayStep::Respond(reply) && says(
                reply,
                502,
                "Error sending upstream request"@,
                next.method@,
                next.origin@,
                next.allowed_origins.deep_view(),
            ),
        },
{
    if let Some(head) = upstream {
        if let RelayStep::Stream(h) = step {
            let all = header_models(head.headers@);
            let kept = relayed(next.target@, all);
            lemma_relayed(all);
            assert(gains_fields(
                kept,
                header_models(h.headers@),
                next.method@,
                next.origin@,
                next.allowed_origins.deep_view(),
            ));
        }
    }
}

/// The headers of a page that come back.
pub open spec fn left_over(head: UpstreamHead) -> Seq<(Seq<char>, Seq<u8>)> {
    header_models(head.headers@).filter(|h: (Seq<char>, Seq<u8>)| !is_dropped(h.0))
}

proof fn lemma_relayed(headers: Seq<(Seq<char>, Seq<u8>)>)
    ensures
        headers.filter(|h: (Seq<char>, Seq<u8>)| crate::fetch_proxy::relayable(h.0))
            == headers.filter(|h: (Seq<char>, Seq<u8>)| !is_dropped(h.0)),
    decreases headers.len(),
{
    reveal(Seq::filter);
    if headers.len() > 0 {
        lemma_relayed(headers.drop_last());
    }
}

/// Of a chunk that comes after `sent` bytes the first bytes are passed on, up to two mebibytes in
/// all, and the body ends there.
pub proof fn chunks_are_cut_at_the_cap(sent: nat, chunk: Seq<u8>)
    requires
        sent <= 2097152,
    ensures
        chunk_cut(sent, chunk).0.is_prefix_of(chunk),
        chunk_cut(sent, chunk).0.len() == chunk.len() || sent + chunk_cut(sent, chunk).0.len()
            == 2097152,
        sent + chunk_cut(sent, chunk).0.len() <= 2097152,
        chunk_cut(sent, chunk).1 <==> sent + chunk.len() >= 2097152,
        !chunk_cut(sent, chunk).1 ==> passed_on(sent, seq![chunk]) == chunk,
{
    let (kept, last) = chunk_cut(sent, chunk);
    assert(kept =~= chunk.subrange(0, kept.len() as int));
    let rest = seq![chunk].skip(1);
    assert(passed_on(sent + kept.len(), rest) =~= Seq::empty());
    if !last {
        assert(kept =~= chunk);
        assert(passed_on(sent, seq![chunk]) =~= chunk);
    }
}

} // verus!

//! The headers that let pages of other origins read an answer.

use vstd::prelude::*;
use vstd::utf8::{decode_utf8, encode_utf8, valid_utf8};
use spin_contrib_http::cors::{CorsConfig, CorsResponseBuilder};
use spin_sdk::http::{Method as SdkMethod, ResponseBuilder};
use crate::http::{Method, MethodModel};
use crate::json::integer;
use crate::text::{is_space, lowercase, owned, pieces, same, trimmed};

verus! {

/// Headers as names and bytes.
pub open spec fn header_models(headers: Seq<(String, Vec<u8>)>) -> Seq<(Seq<char>, Seq<u8>)> {
    headers.map_values(|h: (String, Vec<u8>)| (h.0@, h.1@))
}

/// Whether a list holds each field of a map once, and nothing else, in whatever order.
pub open spec fn lists(list: Seq<(Seq<char>, Seq<u8>)>, fields: Map<Seq<char>, Seq<u8>>) -> bool {
    &&& forall|i: int, j: int|
        0 <= i < j < list.len() ==> #[trigger] list[i].0 != #[trigger] list[j].0
    &&& forall|i: int|
        0 <= i < list.len() ==> fields.contains_key(#[trigger] list[i].0) && fields[list[i].0]
            == list[i].1
    &&& forall|k: Seq<char>| #[trigger]
        fields.contains_key(k) ==> exists|i: int| 0 <= i < list.len() && #[trigger] list[i].0 == k
}

/// The text of a truth value.
pub open spec fn truth(b: bool) -> Seq<char> {
    if b {
        "true"@
    } else {
        "false"@
    }
}

/// A text without its spaces.
pub open spec fn without_spaces(s: Seq<char>) -> Seq<char> {
    s.filter(|c: char| !is_space(c))
}

/// Whether a list of origins lets no origin in.
pub open spec fn lets_none_in(allowed_origins: Seq<char>) -> bool {
    allowed_origins.len() == 0 || allowed_origins == "null"@
}

/// Whether a list of origins with commas lets an origin in: `*` lets all in, `null` and an
/// empty list none. Spaces and the case of letters do not count.
pub open spec fn is_listed(allowed_origins: Seq<char>, origin: Seq<char>) -> bool {
    ||| allowed_origins == "*"@
    ||| {
        &&& !lets_none_in(allowed_origins)
        &&& pieces(without_spaces(lowercase(allowed_origins)), ',').contains(
            trimmed(lowercase(origin)),
        )
    }
}

/// Whether a text holds another somewhere.
pub open spec fn holds(s: Seq<char>, part: Seq<char>) -> bool {
    exists|i: int| 0 <= i <= s.len() && part.is_prefix_of(#[trigger] s.skip(i))
}

/// As what an origin on a list is let in: as itself where the list has it letter for letter,
/// otherwise as `null`.
pub open spec fn let_in_as(allowed_origins: Seq<char>, origin: Seq<char>) -> Seq<char> {
    if allowed_origins == "*"@ || holds(allowed_origins, origin) {
        origin
    } else {
        "null"@
    }
}

/// The fields that `build_with_cors` of `spin_contrib_http` gives an answer where every method
/// is allowed: by whether the request is an OPTIONS request, the origin that it names, and the
/// configuration.
pub open spec fn cors_fields(
    options: bool,
    origin: Seq<char>,
    allowed_origins: Seq<char>,
    allowed_headers: Seq<char>,
    allow_credentials: bool,
    max_age: Option<u32>,
) -> Map<Seq<char>, Seq<u8>> {
    let simple = if is_listed(allowed_origins, origin) {
        Map::empty().insert(
            "access-control-allow-origin"@,
            encode_utf8(let_in_as(allowed_origins, origin)),
        ).insert("access-control-allow-credentials"@, encode_utf8(truth(allow_credentials)))
    } else {
        Map::empty()
    };
    let varied = if allowed_origins == "*"@ || lets_none_in(allowed_origins) {
        simple
    } else {
        simple.insert("vary"@, encode_utf8("Origin"@))
    };
    let aged = match max_age {
        Some(n) => varied.insert("access-control-max-age"@, encode_utf8(integer(n as int))),
        None => varied,
    };
    if origin.len() == 0 {
        Map::empty()
    } else if options {
        aged.insert("access-control-allow-methods"@, encode_utf8("*"@)).insert(
            "access-control-allow-headers"@,
            encode_utf8(allowed_headers),
        )
    } else {
        varied
    }
}

/// `build_with_cors` of `spin_contrib_http`, with the configuration made by `CorsConfig::new`.
/// Where every method is allowed, it gives an answer the fields of `cors_fields`, each once, in
/// an order that changes from call to call. Of a list of methods the result is not stated, so
/// only `*` is admitted.
#[verifier::external_body]
fn cors_headers(
    method: &Method,
    origin: &str,
    allowed_origins: &str,
    allowed_methods: &str,
    allowed_headers: &str,
    allow_credentials: bool,
    max_age: Option<u32>,
) -> (r: Vec<(String, Vec<u8>)>)
    requires
        allowed_methods@ == "*"@,
    ensures
        lists(
            header_models(r@),
            cors_fields(
                method@ is Options,
                origin@,
                allowed_origins@,
                allowed_headers@,
                allow_credentials,
                max_age,
            ),
        ),
{
    let m = match method {
        Method::Get => SdkMethod::Get, Method::Post => SdkMethod::Post,
        Method::Put => SdkMethod::Put, Method::Delete => SdkMethod::Delete,
        Method::Patch => SdkMethod::Patch, Method::Head => SdkMethod::Head,
        Method::Options => SdkMethod::Options, Method::Connect => SdkMethod::Connect,
        Method::Trace => SdkMethod::Trace, Method::Other(name) => SdkMethod::Other(name.into()),
    };
    let config = CorsConfig::new(
        allowed_origins.into(), allowed_methods.into(), allowed_headers.into(),
        allow_credentials, max_age,
    );
    let answer = ResponseBuilder::new(200u16).build_with_cors(&m, origin.into(), &config);
    answer.headers().map(|(k, v)| (k.into(), v.as_bytes().into())).collect()
}

/// `String::from_utf8`: the text that the bytes are the UTF-8 encoding of, if there is one.
#[verifier::external_body]
fn from_utf8(bytes: Vec<u8>) -> (r: Option<String>)
    ensures
        r is Some <==> valid_utf8(bytes@),
        r matches Some(s) ==> s@ == decode_utf8(bytes@),
{
    String::from_utf8(bytes).ok()
}

/// A row of bytes of its own with the bytes of `bytes`.
pub(crate) fn copy_bytes(bytes: &Vec<u8>) -> (r: Vec<u8>)
    ensures
        r@ == bytes@,
{
    vstd::slice::slice_to_vec(bytes.as_slice())
}

/// The value of the first header with the name `origin`.
pub open spec fn origin_field(headers: Seq<(Seq<char>, Seq<u8>)>) -> Option<Seq<u8>>
    decreases headers.len(),
{
    if headers.len() == 0 {
        None
    } else if headers[0].0 == "origin"@ {
        Some(headers[0].1)
    } else {
        origin_field(headers.skip(1))
    }
}

/// Whether the origin of a request, where it names one, is a text.
pub open spec fn origin_readable(headers: Seq<(Seq<char>, Seq<u8>)>) -> bool {
    origin_field(headers) matches Some(v) ==> valid_utf8(v)
}

/// The origin that a request names; empty where it names none.
pub open spec fn origin_of(headers: Seq<(Seq<char>, Seq<u8>)>) -> Seq<char> {
    match origin_field(headers) {
        Some(v) => decode_utf8(v),
        None => Seq::empty(),
    }
}

fn find_origin(headers: &Vec<(String, Vec<u8>)>) -> (r: Option<Vec<u8>>)
    ensures
        match r {
            Some(v) => origin_field(header_models(headers@)) == Some(v@),
            None => origin_field(header_models(headers@)) is None,
        },
{
    let ghost all = header_models(headers@);
    let mut i: usize = 0;
    proof {
        assert(all.skip(0) =~= all);
    }
    while i < headers.len()
        invariant
            i <= headers.len(),
            all == header_models(headers@),
            origin_field(all) == origin_field(all.skip(i as int)),
        decreases headers.len() - i,
    {
        proof {
            assert(all.skip(i as int)[0] == (headers@[i as int].0@, headers@[i as int].1@));
            assert(all.skip(i as int).skip(1) =~= all.skip(i + 1));
        }
        if same(headers[i].0.as_str(), "origin") {
            return Some(copy_bytes(&headers[i].1));
        }
        i += 1;
    }
    None
}

/// Whether the origin of a request can be read.
pub fn has_readable_origin(headers: &Vec<(String, Vec<u8>)>) -> (r: bool)
    ensures
        r == origin_readable(header_models(headers@)),
{
    match find_origin(headers) {
        Some(v) => from_utf8(v).is_some(),
        None => true,
    }
}

/// The origin that a request names; empty where it names none.
pub fn request_origin(headers: &Vec<(String, Vec<u8>)>) -> (r: String)
    requires
        origin_readable(header_models(headers@)),
    ensures
        r@ == origin_of(header_models(headers@)),
{
    match find_origin(headers) {
        Some(v) => from_utf8(v).unwrap(),
        None => String::new(),
    }
}

/// The fields that an answer to a request gets: every method and every header is allowed, no
/// credentials are, and a preflight answer may be kept for an hour. Every origin is allowed
/// unless a list of origins is configured.
pub open spec fn answer_fields(
    method: MethodModel,
    origin: Seq<char>,
    allowed_origins: Option<Seq<char>>,
) -> Map<Seq<char>, Seq<u8>> {
    cors_fields(
        method is Options,
        origin,
        origins_or_all(allowed_origins),
        "*"@,
        false,
        Some(3600),
    )
}

/// The origins that are configured, or all.
pub open spec fn origins_or_all(allowed_origins: Option<Seq<char>>) -> Seq<char> {
    match allowed_origins {
        Some(list) => list,
        None => "*"@,
    }
}

/// Whether `after` is `before` with the fields of an answer behind it, in whatever order.
pub open spec fn gains_cors(
    before: Seq<(Seq<char>, Seq<u8>)>,
    after: Seq<(Seq<char>, Seq<u8>)>,
    method: MethodModel,
    origin: Seq<char>,
    allowed_origins: Option<Seq<char>>,
) -> bool {
    &&& before.is_prefix_of(after)
    &&& lists(
        after.skip(before.len() as int),
        answer_fields(method, origin, allowed_origins),
    )
}

/// Appends the fields of an answer to its headers.
pub fn append_cors_headers(
    headers: &mut Vec<(String, Vec<u8>)>,
    method: &Method,
    origin: &str,
    allowed_origins: &Option<String>,
)
    ensures
        gains_cors(
            header_models(old(headers)@),
            header_models(final(headers)@),
            method@,
            origin@,
            allowed_origins.deep_view(),
        ),
{
    let ghost before = headers@;
    let allowed = match allowed_origins {
        Some(list) => owned(list.as_str()),
        None => owned("*"),
    };
    let mut added = cors_headers(method, origin, allowed.as_str(), "*", "*", false, Some(3600));
    let ghost new = added@;
    headers.append(&mut added);
    proof {
        let b = header_models(before);
        let a = header_models(headers@);
        assert(a.skip(b.len() as int) =~= header_models(new));
        assert(b =~= a.subrange(0, b.len() as int));
    }
}

/// Whether a header belongs to those that let pages of other origins read an answer.
pub open spec fn is_cors_name(name: Seq<char>) -> bool {
    "access-control-"@.is_prefix_of(name) || name == "vary"@
}

/// Whether a list of headers lets some origin in.
pub open spec fn lets_in(headers: Seq<(Seq<char>, Seq<u8>)>) -> bool {
    exists|i: int|
        0 <= i < headers.len() && (#[trigger] headers[i]).0 == "access-control-allow-origin"@
}

proof fn lemma_names()
    ensures
        is_cors_name("access-control-allow-origin"@),
        is_cors_name("access-control-allow-credentials"@),
        is_cors_name("access-control-allow-methods"@),
        is_cors_name("access-control-allow-headers"@),
        is_cors_name("access-control-max-age"@),
        "access-control-allow-origin"@ != "access-control-allow-credentials"@,
        "access-control-allow-origin"@ != "access-control-allow-methods"@,
        "access-control-allow-origin"@ != "access-control-allow-headers"@,
        "access-control-allow-origin"@ != "access-control-max-age"@,
        "access-control-allow-origin"@ != "vary"@,
        "vary"@ != "access-control-max-age"@,
        "vary"@ != "access-control-allow-methods"@,
        "vary"@ != "access-control-allow-headers"@,
{
    reveal_strlit("access-control-");
    reveal_strlit("access-control-allow-origin");
    reveal_strlit("access-control-allow-credentials");
    reveal_strlit("access-control-allow-methods");
    reveal_strlit("access-control-allow-headers");
    reveal_strlit("access-control-max-age");
    reveal_strlit("vary");
    let n = "access-control-"@.len() as int;
    assert("access-control-"@ =~= "access-control-allow-origin"@.subrange(0, n));
    assert("access-control-"@ =~= "access-control-allow-credentials"@.subrange(0, n));
    assert("access-control-"@ =~= "access-control-allow-methods"@.subrange(0, n));
    assert("access-control-"@ =~= "access-control-allow-headers"@.subrange(0, n));
    assert("access-control-"@ =~= "access-control-max-age"@.subrange(0, n));
    assert("access-control-allow-origin"@.len() == 27);
    assert("access-control-allow-credentials"@.len() == 32);
    assert("access-control-allow-methods"@.len() == 28);
    assert("access-control-allow-headers"@.len() == 28);
    assert("access-control-max-age"@.len() == 22);
    assert("vary"@.len() == 4);
}

/// The fields that an answer gains have names of their own: `vary`, or one that begins with
/// `access-control-`. Without an origin there are none.
pub proof fn gained_fields_are_cors_fields(
    added: Seq<(Seq<char>, Seq<u8>)>,
    method: MethodModel,
    origin: Seq<char>,
    allowed_origins: Option<Seq<char>>,
)
    requires
        lists(added, answer_fields(method, origin, allowed_origins)),
    ensures
        forall|i: int| 0 <= i < added.len() ==> is_cors_name((#[trigger] added[i]).0),
        origin.len() == 0 ==> added.len() == 0,
{
    lemma_names();
    assert forall|i: int| 0 <= i < added.len() implies is_cors_name((#[trigger] added[i]).0) by {
        assert(answer_fields(method, origin, allowed_origins).contains_key(added[i].0));
    }
    if origin.len() == 0 && added.len() > 0 {
        assert(answer_fields(method, origin, allowed_origins).contains_key(added[0].0));
    }
}

/// The fields that an answer gains let an origin in if and only if the one of the request is
/// on the list, or no list is configured; then it is that origin, or `null` where the list has
/// it in another spelling.
pub proof fn only_listed_origins_are_let_in(
    added: Seq<(Seq<char>, Seq<u8>)>,
    method: MethodModel,
    origin: Seq<char>,
    allowed_origins: Option<Seq<char>>,
)
    requires
        lists(added, answer_fields(method, origin, allowed_origins)),
        origin.len() > 0,
    ensures
        lets_in(added) <==> is_listed(origins_or_all(allowed_origins), origin),
        is_listed(origins_or_all(allowed_origins), origin) ==> added.contains(
            (
                "access-control-allow-origin"@,
                encode_utf8(let_in_as(origins_or_all(allowed_origins), origin)),
            ),
        ),
        allowed_origins is None ==> added.contains(
            ("access-control-allow-origin"@, encode_utf8(origin)),
        ),
{
    lemma_names();
    let fields = answer_fields(method, origin, allowed_origins);
    let name = "access-control-allow-origin"@;
    if is_listed(origins_or_all(allowed_origins), origin) {
        assert(fields.contains_key(name));
        let i = choose|i: int| 0 <= i < added.len() && #[trigger] added[i].0 == name;
        assert(added[i] == (name, fields[name]));
    } else {
        assert(!fields.contains_key(name));
    }
}

/// Where a list of origins is configured that lets some origin in, an answer says that it
/// depends on the origin of the request.
pub proof fn answers_by_a_list_vary(
    added: Seq<(Seq<char>, Seq<u8>)>,
    method: MethodModel,
    origin: Seq<char>,
    list: Seq<char>,
)
    requires
        lists(added, answer_fields(method, origin, Some(list))),
        origin.len() > 0,
        list != "*"@,
        !lets_none_in(list),
    ensures
        added.contains(("vary"@, encode_utf8("Origin"@))),
{
    lemma_names();
    let fields = answer_fields(method, origin, Some(list));
    assert(fields.contains_key("vary"@));
    let i = choose|i: int| 0 <= i < added.len() && #[trigger] added[i].0 == "vary"@;
    assert(added[i] == ("vary"@, fields["vary"@]));
}

} // verus!

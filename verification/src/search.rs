//! `GET /search?q=<query>&count=<n>`: a web search whose results are cut down to title,
//! address and description. The key of the search service never leaves the server.

use vstd::prelude::*;
use vstd::utf8::{
    decode_utf8, encode_utf8, is_ascii_chars, is_ascii_chars_encode_utf8, is_char_boundary,
    valid_utf8,
};
use crate::http::{
    build_response, json_reply, no_headers, push_header, Method, Outgoing, Reply, ReplyModel,
    Upstream, UpstreamModel,
};
use crate::json::{
    array_value, as_items, copy_of, integer, json_bytes, json_model, json_models, json_of_bytes,
    member, number_value, parse_bytes, render, text, Fields, JsonModel,
};
use crate::text::{
    around_first, bytes_of, clip, clipped, from_utf8_lossy, owned, parse_u64, pieces, same,
    sanitize_err, sanitized, split, split_once, trim, trimmed, u64_numeral, utf8_lossy,
};

verus! {

/// The value of a hexadecimal digit, given as a byte.
pub open spec fn hex_digit(b: u8) -> Option<u8> {
    if 0x30 <= b <= 0x39 {
        Some((b - 0x30) as u8)
    } else if 0x61 <= b <= 0x66 {
        Some((b - 0x61 + 10) as u8)
    } else if 0x41 <= b <= 0x46 {
        Some((b - 0x41 + 10) as u8)
    } else {
        None
    }
}

/// The byte that the two hexadecimal digits of a percent escape stand for.
pub open spec fn escaped_byte(high: u8, low: u8) -> Option<u8> {
    match (hex_digit(high), hex_digit(low)) {
        (Some(h), Some(l)) => Some((16 * h + l) as u8),
        _ => None,
    }
}

/// The bytes behind a percent-encoded row of bytes: a plus sign is a space, an escape the
/// byte that it names, and anything else stands for itself.
pub open spec fn decoded(b: Seq<u8>) -> Seq<u8>
    decreases b.len(),
{
    if b.len() == 0 {
        Seq::empty()
    } else if b[0] == 0x2b {
        seq![0x20u8] + decoded(b.skip(1))
    } else if b[0] == 0x25 && b.len() >= 3 && escaped_byte(b[1], b[2]) is Some {
        seq![escaped_byte(b[1], b[2])->0] + decoded(b.skip(3))
    } else {
        seq![b[0]] + decoded(b.skip(1))
    }
}

/// Whether no percent sign is followed by two bytes of which the second ends in the middle
/// of a character.
pub open spec fn decodable(s: Seq<char>) -> bool {
    let b = encode_utf8(s);
    forall|i: int|
        0 <= i && i + 3 <= b.len() && #[trigger] b[i] == 0x25 ==> is_char_boundary(b, i + 3)
}

/// The text behind a percent-encoded text.
pub open spec fn url_decoded(s: Seq<char>) -> Seq<char> {
    utf8_lossy(decoded(encode_utf8(s)))
}

proof fn lemma_decoded_plain(b: Seq<u8>)
    requires
        !b.contains(0x2b),
        !b.contains(0x25),
    ensures
        decoded(b) == b,
    decreases b.len(),
{
    if b.len() > 0 {
        assert(b.contains(b[0]));
        assert forall|x: u8| b.skip(1).contains(x) implies b.contains(x) by {
            let i = choose|i: int| 0 <= i < b.skip(1).len() && b.skip(1)[i] == x;
            assert(b[i + 1] == x);
        }
        lemma_decoded_plain(b.skip(1));
        assert(decoded(b) =~= b);
    }
}

/// A text without a given ASCII character has an encoding without its byte.
pub(crate) proof fn lemma_ascii_byte_absent(s: Seq<char>, c: char)
    requires
        !s.contains(c),
        (c as u32) < 0x80,
    ensures
        !encode_utf8(s).contains(c as u8),
    decreases s.len(),
{
    if s.len() > 0 {
        let x = s[0];
        assert(s.contains(x));
        assert forall|y: char| s.drop_first().contains(y) implies s.contains(y) by {
            let i = choose|i: int| 0 <= i < s.drop_first().len() && s.drop_first()[i] == y;
            assert(s[i + 1] == y);
        }
        lemma_ascii_byte_absent(s.drop_first(), c);
        let v = x as u32;
        let first = vstd::utf8::encode_scalar(v);
        vstd::utf8::char_is_scalar(x);
        vstd::utf8::char_u32_cast(x, v);
        vstd::utf8::char_u32_cast(c, c as u32);
        assert(v < 0x80 ==> (v & 0x7f) as u8 == v) by (bit_vector);
        assert(0xc0u8 | ((v >> 6) & 0x1f) as u8 >= 0x80) by (bit_vector);
        assert(0xe0u8 | ((v >> 12) & 0xf) as u8 >= 0x80) by (bit_vector);
        assert(0xf0u8 | ((v >> 18) & 7) as u8 >= 0x80) by (bit_vector);
        assert(0x80u8 | ((v >> 12) & 0x3f) as u8 >= 0x80) by (bit_vector);
        assert(0x80u8 | ((v >> 6) & 0x3f) as u8 >= 0x80) by (bit_vector);
        assert(0x80u8 | (v & 0x3f) as u8 >= 0x80) by (bit_vector);
        if vstd::utf8::has_width_1_encoding(v) {
            assert(v != c as u32);
            assert(first =~= seq![v as u8]);
        } else {
            assert forall|i: int| 0 <= i < first.len() implies first[i] >= 0x80 by {}
        }
        assert(!first.contains(c as u8));
        assert(encode_utf8(s) == first + encode_utf8(s.drop_first()));
    }
}

fn hex_digit_value(b: u8) -> (r: Option<u8>)
    ensures
        r == hex_digit(b),
{
    if 0x30 <= b && b <= 0x39 {
        Some(b - 0x30)
    } else if 0x61 <= b && b <= 0x66 {
        Some(b - 0x61 + 10)
    } else if 0x41 <= b && b <= 0x46 {
        Some(b - 0x41 + 10)
    } else {
        None
    }
}

fn escape_value(high: u8, low: u8) -> (r: Option<u8>)
    ensures
        r == escaped_byte(high, low),
{
    match (hex_digit_value(high), hex_digit_value(low)) {
        (Some(h), Some(l)) => Some(16 * h + l),
        _ => None,
    }
}

/// Whether `url_decode` can read the text.
pub fn is_decodable(s: &str) -> (r: bool)
    ensures
        r == decodable(s@),
{
    let b = s.as_bytes();
    let mut i: usize = 0;
    while i < b.len()
        invariant
            i <= b@.len(),
            b@ == encode_utf8(s@),
            forall|j: int|
                0 <= j < i && j + 3 <= b@.len() && #[trigger] b@[j] == 0x25 ==> is_char_boundary(
                    b@,
                    j + 3,
                ),
        decreases b@.len() - i,
    {
        if b[i] == 0x25 && b.len() - i >= 3 {
            if !s.is_char_boundary(i + 3) {
                return false;
            }
        }
        i += 1;
    }
    true
}

/// Percent-decodes a text.
pub fn url_decode(s: &str) -> (r: String)
    requires
        decodable(s@),
    ensures
        r@ == url_decoded(s@),
        valid_utf8(decoded(encode_utf8(s@))) ==> r@ == decode_utf8(decoded(encode_utf8(s@))),
        !s@.contains('+') && !s@.contains('%') ==> r@ == s@,
        // A text without percent signs in front is decoded apart from what follows.
        forall|n: int|
            0 <= n <= s@.len() && !(#[trigger] s@.take(n)).contains('%') ==> r@ == spaced(
                s@.take(n),
            ) + url_decoded(s@.skip(n)),
{
    let b = s.as_bytes();
    let mut out: Vec<u8> = Vec::new();
    let mut i: usize = 0;
    proof {
        assert(b@.skip(0) =~= b@);
        assert(out@ + decoded(b@) =~= decoded(b@));
    }
    while i < b.len()
        invariant
            i <= b@.len(),
            b@ == encode_utf8(s@),
            out@ + decoded(b@.skip(i as int)) == decoded(b@),
        decreases b@.len() - i,
    {
        let ghost rest = b@.skip(i as int);
        let ghost before = out@;
        proof {
            assert(rest.skip(1) =~= b@.skip(i + 1));
            if rest.len() >= 3 {
                assert(rest.skip(3) =~= b@.skip(i + 3));
            }
        }
        if b[i] == 0x2b {
            out.push(0x20);
            i += 1;
            proof {
                assert(out@ + decoded(rest.skip(1)) =~= before + decoded(rest));
            }
        } else if b[i] == 0x25 && b.len() - i >= 3 {
            match escape_value(b[i + 1], b[i + 2]) {
                Some(v) => {
                    out.push(v);
                    i += 3;
                    proof {
                        assert(out@ + decoded(rest.skip(3)) =~= before + decoded(rest));
                    }
                },
                None => {
                    out.push(0x25);
                    i += 1;
                    proof {
                        assert(out@ + decoded(rest.skip(1)) =~= before + decoded(rest));
                    }
                },
            }
        } else {
            out.push(b[i]);
            i += 1;
            proof {
                assert(out@ + decoded(rest.skip(1)) =~= before + decoded(rest));
            }
        }
    }
    proof {
        assert(b@.skip(b@.len() as int) =~= Seq::<u8>::empty());
        assert(out@ =~= decoded(b@));
        if !s@.contains('+') && !s@.contains('%') {
            lemma_ascii_byte_absent(s@, '+');
            lemma_ascii_byte_absent(s@, '%');
            lemma_decoded_plain(b@);
            vstd::utf8::encode_utf8_valid_utf8(s@);
            vstd::utf8::encode_utf8_decode_utf8(s@);
        }
    }
    let text = from_utf8_lossy(out.as_slice());
    proof {
        assert forall|n: int|
            0 <= n <= s@.len() && !(#[trigger] s@.take(n)).contains('%') implies text@ == spaced(
            s@.take(n),
        ) + url_decoded(s@.skip(n)) by {
            let a = s@.take(n);
            let b = s@.skip(n);
            assert(a + b =~= s@);
            lemma_decoded_behind_text(a, b);
            let front = encode_utf8(spaced(a));
            assert(out@.take(front.len() as int) =~= front);
            assert(out@.skip(front.len() as int) =~= decoded(encode_utf8(b)));
            vstd::utf8::encode_utf8_valid_utf8(spaced(a));
            vstd::utf8::encode_utf8_decode_utf8(spaced(a));
        }
    }
    text
}

/// The value of the first pair with the given name among pairs `name=value`.
pub open spec fn first_value(pairs: Seq<Seq<char>>, name: Seq<char>) -> Option<Seq<char>>
    decreases pairs.len(),
{
    if pairs.len() == 0 {
        None
    } else {
        match around_first(pairs[0], '=') {
            Some((k, v)) => if k == name {
                Some(v)
            } else {
                first_value(pairs.skip(1), name)
            },
            None => first_value(pairs.skip(1), name),
        }
    }
}

/// A parameter of a query string as it stands there.
pub open spec fn raw_value(query: Seq<char>, name: Seq<char>) -> Option<Seq<char>> {
    first_value(pieces(query, '&'), name)
}

pub fn raw_param(query: &str, name: &str) -> (r: Option<String>)
    ensures
        r.deep_view() == raw_value(query@, name@),
{
    let pairs = split(query, '&');
    let mut i: usize = 0;
    let ghost all = pairs.deep_view();
    proof {
        assert(all.skip(0) =~= all);
    }
    while i < pairs.len()
        invariant
            i <= pairs.len(),
            all == pairs.deep_view(),
            all == pieces(query@, '&'),
            raw_value(query@, name@) == first_value(all.skip(i as int), name@),
        decreases pairs.len() - i,
    {
        proof {
            assert(all.skip(i as int)[0] == pairs@[i as int]@);
            assert(all.skip(i as int).skip(1) =~= all.skip(i + 1));
        }
        if let Some((k, v)) = split_once(pairs[i].as_str(), '=') {
            if same(k.as_str(), name) {
                return Some(v);
            }
        }
        i += 1;
    }
    None
}

/// Whether `query_param` can read the parameter.
pub open spec fn param_decodable(query: Seq<char>, name: Seq<char>) -> bool {
    raw_value(query, name) matches Some(v) ==> decodable(v)
}

/// A parameter of a query string, percent-decoded.
pub open spec fn param_value(query: Seq<char>, name: Seq<char>) -> Option<Seq<char>> {
    match raw_value(query, name) {
        Some(v) => Some(url_decoded(v)),
        None => None,
    }
}

/// Extracts a parameter of a query string and percent-decodes it.
pub fn query_param(query: &str, name: &str) -> (r: Option<String>)
    requires
        param_decodable(query@, name@),
    ensures
        r.deep_view() == param_value(query@, name@),
{
    match raw_param(query, name) {
        Some(v) => Some(url_decode(v.as_str())),
        None => None,
    }
}

/// Where searches are sent.
pub const SEARCH_URL: &'static str = "https://api.tavily.com/search";

/// How many results a search asks for where the request does not say.
pub const DEFAULT_COUNT: u64 = 5;

/// How many results a search asks for at most.
pub const MAX_COUNT: u64 = 10;

/// What a request searches for, by its parameter `q`; empty where it does not say.
pub open spec fn search_query(q: Option<Seq<char>>) -> Seq<char> {
    match q {
        Some(text) => trimmed(text),
        None => Seq::empty(),
    }
}

/// How many results a request asks for, by its parameter `count`.
pub open spec fn search_count(count: Option<Seq<char>>) -> u64 {
    let asked = match count {
        Some(c) => match u64_numeral(c, 10) {
            Some(n) => n,
            None => DEFAULT_COUNT,
        },
        None => DEFAULT_COUNT,
    };
    if asked < 1 {
        1
    } else if asked > MAX_COUNT {
        MAX_COUNT
    } else {
        asked
    }
}

/// Whether the parameters that a search reads can be decoded. The count is only read where
/// there is something to search for.
pub open spec fn search_readable(query: Seq<char>) -> bool {
    &&& param_decodable(query, "q"@)
    &&& search_query(param_value(query, "q"@)).len() > 0 ==> param_decodable(query, "count"@)
}

/// The answer that carries an error.
pub open spec fn error_reply(status: u16, error: Seq<char>) -> ReplyModel {
    json_reply(status, JsonModel::empty().with("error"@, JsonModel::Text(error)))
}

/// The answer that carries an error and its details.
pub open spec fn detailed_error_reply(
    status: u16,
    error: Seq<char>,
    details: Seq<char>,
) -> ReplyModel {
    json_reply(
        status,
        JsonModel::empty().with("error"@, JsonModel::Text(error)).with(
            "details"@,
            JsonModel::Text(details),
        ),
    )
}

/// The answer to a preflight request.
pub open spec fn preflight() -> ReplyModel {
    ReplyModel {
        status: 204,
        headers: Seq::empty().push(("access-control-allow-origin"@, "*"@)).push(
            ("access-control-allow-methods"@, "GET, OPTIONS"@),
        ).push(("access-control-allow-headers"@, "*"@)).push(("access-control-max-age"@, "3600"@)),
        body: Seq::empty(),
    }
}

pub fn preflight_response() -> (r: Reply)
    ensures
        r@ == preflight(),
{
    let mut headers = no_headers();
    push_header(&mut headers, "access-control-allow-origin", "*");
    push_header(&mut headers, "access-control-allow-methods", "GET, OPTIONS");
    push_header(&mut headers, "access-control-allow-headers", "*");
    push_header(&mut headers, "access-control-max-age", "3600");
    Reply { status: 204, headers, body: Vec::new() }
}

fn error_response(status: u16, error: &str) -> (r: Reply)
    ensures
        r@ == error_reply(status, error@),
{
    build_response(status, &Fields::new().with_text("error", error).build())
}

fn detailed_error_response(status: u16, error: &str, details: &str) -> (r: Reply)
    ensures
        r@ == detailed_error_reply(status, error@, details@),
{
    build_response(
        status,
        &Fields::new().with_text("error", error).with_text("details", details).build(),
    )
}

/// What a search does next: it answers, or it asks the search service and goes on with what
/// came of that.
pub enum SearchStep {
    Respond(Reply),
    Send { request: Outgoing, next: Searching },
}

/// A search that waits for the search service.
pub struct Searching {
    pub query: String,
}

/// The body of the request to the search service.
pub open spec fn search_body(query: Seq<char>, count: u64) -> JsonModel {
    JsonModel::empty().with("query"@, JsonModel::Text(query)).with(
        "max_results"@,
        JsonModel::Number(integer(count as int)),
    ).with("search_depth"@, JsonModel::Text("basic"@))
}

/// Whether `request` is the search for `query` with `count` results under `key`.
pub open spec fn is_search_request(
    request: Outgoing,
    query: Seq<char>,
    count: u64,
    key: Seq<char>,
) -> bool {
    &&& request.method is Post
    &&& request.uri@ == SEARCH_URL@
    &&& request.headers.deep_view() == Seq::empty().push(
        ("authorization"@, "Bearer "@ + key),
    ).push(("content-type"@, "application/json"@))
    &&& request.body@ == json_bytes(search_body(query, count))
}

/// Whether `step` is what a search with the given parameters does first, with `key` the key
/// of the search service, where there is one.
pub open spec fn begins_search(
    step: SearchStep,
    q: Option<Seq<char>>,
    count: Option<Seq<char>>,
    key: Option<Seq<char>>,
) -> bool {
    if search_query(q).len() == 0 {
        step matches SearchStep::Respond(r) && r@ == error_reply(
            400,
            "missing query. Usage: /search?q=<query>&count=<1-10>"@,
        )
    } else {
        match key {
            None => step matches SearchStep::Respond(r) && r@ == error_reply(
                500,
                "search service is not configured"@,
            ),
            Some(k) => {
                &&& step matches SearchStep::Send { request, next }
                &&& is_search_request(request, search_query(q), search_count(count), k)
                &&& next.query@ == search_query(q)
            },
        }
    }
}

fn wanted_query(q: Option<String>) -> (r: String)
    ensures
        r@ == search_query(q.deep_view()),
{
    let asked = match q {
        Some(text) => trim(text.as_str()),
        None => String::new(),
    };
    proof {
        assert(asked@ =~= search_query(q.deep_view()));
    }
    asked
}

fn wanted_count(count: Option<String>) -> (r: u64)
    ensures
        r == search_count(count.deep_view()),
{
    let wanted: u64 = match count {
        Some(c) => match parse_u64(c.as_str()) {
            Some(n) => n,
            None => DEFAULT_COUNT,
        },
        None => DEFAULT_COUNT,
    };
    if wanted < 1 {
        1
    } else if wanted > MAX_COUNT {
        MAX_COUNT
    } else {
        wanted
    }
}

/// Starts a search with the parameters of a request.
pub fn search_for(q: Option<String>, count: Option<String>, api_key: Option<String>) -> (r:
    SearchStep)
    ensures
        begins_search(r, q.deep_view(), count.deep_view(), api_key.deep_view()),
{
    let asked = wanted_query(q);
    if asked.as_str().is_empty() {
        return SearchStep::Respond(
            error_response(400, "missing query. Usage: /search?q=<query>&count=<1-10>"),
        );
    }
    let count: u64 = wanted_count(count);
    match api_key {
        None => SearchStep::Respond(error_response(500, "search service is not configured")),
        Some(key) => {
            let body = Fields::new().with_text("query", asked.as_str()).with(
                "max_results",
                number_value(count as i64),
            ).with_text("search_depth", "basic").build();
            let mut headers = no_headers();
            let authorization = owned("Bearer ").concat(key.as_str());
            push_header(&mut headers, "authorization", authorization.as_str());
            push_header(&mut headers, "content-type", "application/json");
            SearchStep::Send {
                request: Outgoing {
                    method: Method::Post,
                    uri: owned(SEARCH_URL),
                    headers,
                    body: bytes_of(render(&body).as_str()),
                },
                next: Searching { query: asked },
            }
        },
    }
}

/// Starts a search.
pub fn get_search(query: &str, api_key: Option<String>) -> (r: SearchStep)
    requires
        search_readable(query@),
    ensures
        begins_search(
            r,
            param_value(query@, "q"@),
            param_value(query@, "count"@),
            api_key.deep_view(),
        ),
{
    let q = query_param(query, "q");
    // Where there is nothing to search for, the count is not read.
    let count = if is_search_started(&q) {
        query_param(query, "count")
    } else {
        None
    };
    search_for(q, count, api_key)
}

fn is_search_started(q: &Option<String>) -> (r: bool)
    ensures
        r == (search_query(q.deep_view()).len() > 0),
{
    match q {
        Some(text) => !trim(text.as_str()).as_str().is_empty(),
        None => false,
    }
}

/// Whether `step` is what the service does first with a request.
pub open spec fn begins(
    step: SearchStep,
    method: Method,
    query: Seq<char>,
    key: Option<Seq<char>>,
) -> bool {
    match method {
        Method::Options => step matches SearchStep::Respond(r) && r@ == preflight(),
        Method::Get => begins_search(
            step,
            param_value(query, "q"@),
            param_value(query, "count"@),
            key,
        ),
        _ => step matches SearchStep::Respond(r) && r@ == error_reply(
            405,
            "method not allowed; use GET /search?q=..."@,
        ),
    }
}

/// Starts the handling of a request.
pub fn handle(method: &Method, query: &str, api_key: Option<String>) -> (r: SearchStep)
    requires
        *method is Get ==> search_readable(query@),
    ensures
        begins(r, *method, query@, api_key.deep_view()),
{
    match method {
        Method::Options => SearchStep::Respond(preflight_response()),
        Method::Get => get_search(query, api_key),
        _ => SearchStep::Respond(error_response(405, "method not allowed; use GET /search?q=...")),
    }
}

/// Whether `step` is what the service does first with a request whose parameters may be beyond
/// decoding: nothing where a search would have to read such a parameter.
pub open spec fn tries(
    step: Option<SearchStep>,
    method: Method,
    query: Seq<char>,
    key: Option<Seq<char>>,
) -> bool {
    match step {
        Some(s) => {
            &&& method is Get ==> search_readable(query)
            &&& begins(s, method, query, key)
        },
        None => method is Get && !search_readable(query),
    }
}

/// Starts the handling of a request whose parameters may be beyond decoding; nothing is
/// started where a search would have to read such a parameter.
pub fn try_handle(method: &Method, query: &str, api_key: Option<String>) -> (r: Option<SearchStep>)
    ensures
        tries(r, *method, query@, api_key.deep_view()),
{
    if let Method::Get = method {
        if !is_search_readable(query) {
            return None;
        }
    }
    Some(handle(method, query, api_key))
}

fn is_param_decodable(query: &str, name: &str) -> (r: bool)
    ensures
        r == param_decodable(query@, name@),
{
    match raw_param(query, name) {
        Some(v) => is_decodable(v.as_str()),
        None => true,
    }
}

fn is_search_readable(query: &str) -> (r: bool)
    ensures
        r == search_readable(query@),
{
    if !is_param_decodable(query, "q") {
        return false;
    }
    !is_search_started(&query_param(query, "q")) || is_param_decodable(query, "count")
}

/// One result, cut down to what is passed on.
pub open spec fn shortened(result: JsonModel) -> JsonModel {
    JsonModel::empty().with("title"@, result.member("title"@)).with(
        "url"@,
        result.member("url"@),
    ).with("description"@, result.member("content"@))
}

/// The results of an answer of the search service, each cut down.
pub open spec fn shortened_results(answer: JsonModel) -> Seq<JsonModel> {
    match answer.member("results"@) {
        JsonModel::Array(items) => items.map_values(|r: JsonModel| shortened(r)),
        _ => Seq::empty(),
    }
}

/// The answer to a search of which the search service gave `answer`.
pub open spec fn found_reply(query: Seq<char>, answer: JsonModel) -> ReplyModel {
    json_reply(
        200,
        JsonModel::empty().with("query"@, JsonModel::Text(query)).with(
            "results"@,
            JsonModel::Array(shortened_results(answer)),
        ),
    )
}

/// The answer to a search, from the JSON that the search service gave.
pub fn found_response(query: &str, answer: &serde_json::Value) -> (r: Reply)
    ensures
        r@ == found_reply(query@, json_model(*answer)),
{
    let mut results: Vec<serde_json::Value> = Vec::new();
    let ghost wanted = shortened_results(json_model(*answer));
    if let Some(items) = as_items(member(answer, "results")) {
        let mut i: usize = 0;
        while i < items.len()
            invariant
                i <= items.len(),
                json_model(*answer).member("results"@) == JsonModel::Array(json_models(items@)),
                wanted == shortened_results(json_model(*answer)),
                json_models(results@) == wanted.take(i as int),
            decreases items.len() - i,
        {
            let item = &items[i];
            let ghost before = results@;
            let short = Fields::new().with("title", copy_of(member(item, "title"))).with(
                "url",
                copy_of(member(item, "url")),
            ).with("description", copy_of(member(item, "content"))).build();
            results.push(short);
            proof {
                assert(json_models(items@)[i as int] == json_model(items@[i as int]));
                assert(wanted[i as int] == shortened(json_model(*item)));
                assert(json_models(results@) =~= json_models(before).push(json_model(short)));
                assert(wanted.take(i + 1) =~= wanted.take(i as int).push(wanted[i as int]));
            }
            i += 1;
        }
        proof {
            assert(wanted.take(wanted.len() as int) =~= wanted);
        }
    }
    proof {
        assert(json_models(results@) =~= wanted);
    }
    let body = Fields::new().with_text("query", query).with(
        "results",
        array_value(results),
    ).build();
    build_response(200, &body)
}

/// The answer to a search that the search service answered with the JSON `answer`, or with
/// something else.
pub open spec fn answered_reply(
    query: Seq<char>,
    answer: Result<JsonModel, Seq<char>>,
) -> ReplyModel {
    match answer {
        Ok(m) => found_reply(query, m),
        Err(e) => detailed_error_reply(502, "invalid upstream json"@, sanitized(e)),
    }
}

/// The answer to a search, from what the search service answered.
pub fn answered_response(query: &str, answer: Result<serde_json::Value, String>) -> (r: Reply)
    ensures
        r@ == answered_reply(
            query@,
            match answer {
                Ok(v) => Ok(json_model(v)),
                Err(e) => Err(e@),
            },
        ),
{
    match answer {
        Ok(v) => found_response(query, &v),
        Err(e) => detailed_error_response(
            502,
            "invalid upstream json",
            sanitize_err(e.as_str()).as_str(),
        ),
    }
}

/// The answer to a search that the search service refused with a text.
pub open spec fn refused_reply(status: u16, text: Seq<char>) -> ReplyModel {
    json_reply(
        502,
        JsonModel::empty().with("error"@, JsonModel::Text("upstream search failed"@)).with(
            "status"@,
            JsonModel::Number(integer(status as int)),
        ).with("details"@, JsonModel::Text(clipped(text, 300))),
    )
}

/// The answer to a search that the search service refused. The beginning of what it said is
/// passed on.
pub fn refused_response(status: u16, text: &str) -> (r: Reply)
    ensures
        r@ == refused_reply(status, text@),
{
    let details = clip(text, 300);
    let body = Fields::new().with_text("error", "upstream search failed").with(
        "status",
        number_value(status as i64),
    ).with_text("details", details.as_str()).build();
    build_response(502, &body)
}

/// The answer to a search for `query`, from what came of the request to the search service.
pub open spec fn search_reply(query: Seq<char>, upstream: UpstreamModel) -> ReplyModel {
    match upstream {
        UpstreamModel::Failed(e) => detailed_error_reply(
            502,
            "upstream request failed"@,
            sanitized(e),
        ),
        UpstreamModel::Answered { status, body } => if status == 429 || status == 432 {
            error_reply(429, "search quota or rate limit exceeded"@)
        } else if status != 200 {
            refused_reply(status, utf8_lossy(body))
        } else {
            answered_reply(query, json_of_bytes(body))
        },
    }
}

impl Searching {
    /// Ends a search with what came of the request to the search service.
    pub fn resume(self, upstream: Upstream) -> (r: Reply)
        ensures
            r@ == search_reply(self.query@, upstream@),
    {
        match upstream {
            Upstream::Failed(e) => detailed_error_response(
                502,
                "upstream request failed",
                sanitize_err(e.as_str()).as_str(),
            ),
            Upstream::Answered { status, body } => {
                // 429 is the rate limit, 432 the limit of the plan: both mean "back off".
                if status == 429 || status == 432 {
                    return error_response(429, "search quota or rate limit exceeded");
                }
                if status != 200 {
                    return refused_response(status, from_utf8_lossy(body.as_slice()).as_str());
                }
                answered_response(self.query.as_str(), parse_bytes(body.as_slice()))
            },
        }
    }
}

/// A search asks for one result at least and ten at most.
pub proof fn count_is_bounded(count: Option<Seq<char>>)
    ensures
        1 <= search_count(count) <= 10,
{
}

/// The key of the search service stays on the server: of two requests that differ in the key
/// alone, the answers that are given at once are the same, and so is everything that is kept
/// for the answer that is given later. The requests to the search service differ in the
/// authorization alone.
pub proof fn key_stays_on_the_server(
    a: SearchStep,
    b: SearchStep,
    method: Method,
    query: Seq<char>,
    key_a: Seq<char>,
    key_b: Seq<char>,
)
    requires
        begins(a, method, query, Some(key_a)),
        begins(b, method, query, Some(key_b)),
    ensures
        match (a, b) {
            (SearchStep::Respond(x), SearchStep::Respond(y)) => x@ == y@,
            (
                SearchStep::Send { request: x, next: m },
                SearchStep::Send { request: y, next: n },
            ) => {
                &&& m.query@ == n.query@
                &&& x.uri@ == y.uri@
                &&& x.body@ == y.body@
                &&& x.headers.deep_view().skip(1) == y.headers.deep_view().skip(1)
                &&& x.headers.deep_view()[0] == ("authorization"@, "Bearer "@ + key_a)
                &&& y.headers.deep_view()[0] == ("authorization"@, "Bearer "@ + key_b)
            },
            _ => false,
        },
{
    if let (SearchStep::Send { request: x, next: _ }, SearchStep::Send { request: y, next: _ }) = (
        a,
        b,
    ) {
        assert(x.headers.deep_view().skip(1) =~= y.headers.deep_view().skip(1));
    }
}

/// Each result that is passed on holds a title, an address and a description, and no more.
pub proof fn results_are_trimmed(answer: JsonModel, i: int)
    requires
        0 <= i < shortened_results(answer).len(),
    ensures
        shortened_results(answer)[i] matches JsonModel::Object(m) && m.dom() == set![
            "title"@,
            "url"@,
            "description"@,
        ],
{
    let m = shortened_results(answer)[i]->Object_0;
    assert(m.dom() =~= set!["title"@, "url"@, "description"@]);
}

/// Whether an escape of the byte `b`, with digits of either case, stands at `i`.
pub open spec fn is_escape(e: Seq<u8>, i: int, b: u8) -> bool {
    &&& e[i] == 0x25
    &&& hex_digit(e[i + 1]) == Some((b / 16) as u8)
    &&& hex_digit(e[i + 2]) == Some((b % 16) as u8)
}

/// Whether `e` is `b` with every byte escaped.
pub open spec fn is_percent_encoded(e: Seq<u8>, b: Seq<u8>) -> bool {
    &&& e.len() == 3 * b.len()
    &&& forall|i: int| 0 <= i < b.len() ==> is_escape(e, 3 * i, #[trigger] b[i])
}

/// Percent-decoding undoes percent-encoding.
pub proof fn decoding_undoes_encoding(e: Seq<u8>, b: Seq<u8>)
    requires
        is_percent_encoded(e, b),
    ensures
        decoded(e) == b,
    decreases b.len(),
{
    if b.len() > 0 {
        let rest = e.skip(3);
        let left = b.skip(1);
        assert forall|i: int| 0 <= i < left.len() implies is_escape(
            rest,
            3 * i,
            #[trigger] left[i],
        ) by {
            assert(left[i] == b[i + 1]);
            assert(is_escape(e, 3 * (i + 1), b[i + 1]));
        }
        decoding_undoes_encoding(rest, left);
        assert(is_escape(e, 0, b[0]));
        assert(escaped_byte(e[1], e[2]) == Some(b[0]));
    }
    assert(decoded(e) =~= b);
}

/// A text with its plus signs turned to spaces.
pub open spec fn spaced(s: Seq<char>) -> Seq<char> {
    s.map_values(
        |c: char|
            if c == '+' {
                ' '
            } else {
                c
            },
    )
}

pub(crate) proof fn lemma_encode_concat(a: Seq<char>, b: Seq<char>)
    ensures
        encode_utf8(a + b) == encode_utf8(a) + encode_utf8(b),
    decreases a.len(),
{
    if a.len() == 0 {
        assert(a + b =~= b);
        assert(encode_utf8(a) =~= Seq::<u8>::empty());
    } else {
        assert((a + b).drop_first() =~= a.drop_first() + b);
        lemma_encode_concat(a.drop_first(), b);
        assert((a + b)[0] == a[0]);
    }
}

proof fn lemma_decoded_behind_plain(x: Seq<u8>, y: Seq<u8>)
    requires
        !x.contains(0x2b),
        !x.contains(0x25),
    ensures
        decoded(x + y) == x + decoded(y),
    decreases x.len(),
{
    if x.len() == 0 {
        assert(x + y =~= y);
    } else {
        assert(x.contains(x[0]));
        assert forall|b: u8| x.skip(1).contains(b) implies x.contains(b) by {
            let i = choose|i: int| 0 <= i < x.skip(1).len() && x.skip(1)[i] == b;
            assert(x[i + 1] == b);
        }
        lemma_decoded_behind_plain(x.skip(1), y);
        assert((x + y).skip(1) =~= x.skip(1) + y);
        assert(x =~= seq![x[0]] + x.skip(1));
    }
}

proof fn lemma_decoded_behind_text(a: Seq<char>, b: Seq<char>)
    requires
        !a.contains('%'),
    ensures
        decoded(encode_utf8(a + b)) == encode_utf8(spaced(a)) + decoded(encode_utf8(b)),
    decreases a.len(),
{
    if a.len() == 0 {
        assert(a + b =~= b);
        assert(encode_utf8(spaced(a)) =~= Seq::<u8>::empty());
    } else {
        let c = seq![a[0]];
        let rest = a.drop_first();
        assert(a.contains(a[0]));
        assert forall|y: char| rest.contains(y) implies a.contains(y) by {
            let i = choose|i: int| 0 <= i < rest.len() && rest[i] == y;
            assert(a[i + 1] == y);
        }
        lemma_decoded_behind_text(rest, b);
        assert(a + b =~= c + (rest + b));
        lemma_encode_concat(c, rest + b);
        assert(spaced(a) =~= spaced(c) + spaced(rest));
        lemma_encode_concat(spaced(c), spaced(rest));
        let tail = encode_utf8(rest + b);
        if a[0] == '+' {
            assert(encode_utf8(c) =~= seq![0x2bu8]) by {
                lemma_encode_ascii('+');
            }
            assert(spaced(c) =~= seq![' ']);
            assert(encode_utf8(spaced(c)) =~= seq![0x20u8]) by {
                lemma_encode_ascii(' ');
            }
            assert((seq![0x2bu8] + tail).skip(1) =~= tail);
            assert(decoded(seq![0x2bu8] + tail) =~= seq![0x20u8] + decoded(tail));
        } else {
            lemma_ascii_byte_absent(c, '+');
            lemma_ascii_byte_absent(c, '%');
            lemma_decoded_behind_plain(encode_utf8(c), tail);
            assert(spaced(c) =~= c);
        }
        assert(encode_utf8(spaced(c)) + (encode_utf8(spaced(rest)) + decoded(encode_utf8(b)))
            =~= encode_utf8(spaced(c)) + encode_utf8(spaced(rest)) + decoded(encode_utf8(b)));
    }
}

pub(crate) proof fn lemma_encode_ascii(c: char)
    requires
        (c as u32) < 0x80,
    ensures
        encode_utf8(seq![c]) == seq![c as u8],
{
    assert(is_ascii_chars(seq![c]));
    is_ascii_chars_encode_utf8(seq![c]);
    assert(seq![c][0] == c);
    assert(encode_utf8(seq![c]) =~= seq![c as u8]);
}

/// A text without percent signs is decoded apart from what follows: its plus signs are
/// spaces, and what follows is decoded as if it stood alone. Where the latter is a text, so is
/// the whole.
pub proof fn plain_text_is_decoded_apart(a: Seq<char>, b: Seq<char>)
    requires
        !a.contains('%'),
    ensures
        decoded(encode_utf8(a + b)) == encode_utf8(spaced(a)) + decoded(encode_utf8(b)),
        valid_utf8(decoded(encode_utf8(b))) ==> valid_utf8(decoded(encode_utf8(a + b)))
            && decode_utf8(decoded(encode_utf8(a + b))) == spaced(a) + decode_utf8(
            decoded(encode_utf8(b)),
        ),
{
    lemma_decoded_behind_text(a, b);
    let end = decoded(encode_utf8(b));
    if valid_utf8(end) {
        vstd::utf8::decode_utf8_encode_utf8(end);
        lemma_encode_concat(spaced(a), decode_utf8(end));
        vstd::utf8::encode_utf8_valid_utf8(spaced(a) + decode_utf8(end));
        vstd::utf8::encode_utf8_decode_utf8(spaced(a) + decode_utf8(end));
    }
}

} // verus!

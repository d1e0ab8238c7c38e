//! What a web search promises: every result of the search service comes back, cut down to
//! title, address and description, and every failure has its answer.

use vstd::prelude::*;
use vstd::utf8::{
    char_u32_cast, encode_utf8, encode_utf8_valid_utf8, is_char_boundary,
    is_char_boundary_iff_not_is_continuation_byte, is_char_boundary_start_end_of_seq,
    is_continuation_byte,
};
use crate::http::{Method, UpstreamModel};
use crate::json::{json_of_bytes, json_text, JsonModel};
use crate::laws::answers::{
    answers, cleaned, error_value, lemma_cleaned, lemma_error_value, lemma_json_headers, under,
};
use crate::laws::text::{decimals_are_plain, lemma_first_of};
use crate::search::{
    begins, decodable, decoded, first_value, lemma_ascii_byte_absent, lemma_encode_ascii,
    lemma_encode_concat, param_value, raw_value, search_readable, search_reply, tries,
    url_decoded, SearchStep,
};
use crate::text::{
    around_first, decimal_reads_back, first_index, lemma_first_index, pieces, trimmed,
    u64_numeral, utf8_lossy,
};

verus! {

/// The answer of the search service comes back whole: as many results as its array `results`
/// has, in the same order, each with the title, the address and the content of its own. An
/// answer without such an array has no results.
pub proof fn every_result_comes_back(
    query: Seq<char>,
    body: Seq<u8>,
    answer: JsonModel,
    items: Seq<JsonModel>,
)
    requires
        json_of_bytes(body) == Ok::<JsonModel, Seq<char>>(answer),
        match under(answer, "results"@) {
            JsonModel::Array(list) => items == list,
            _ => items.len() == 0,
        },
    ensures
        exists|results: Seq<JsonModel>|
            {
                &&& answers(
                    search_reply(query, UpstreamModel::Answered { status: 200, body }),
                    200,
                    #[trigger] found_value(query, results),
                )
                &&& results.len() == items.len()
                &&& forall|i: int|
                    0 <= i < items.len() ==> #[trigger] results[i] == JsonModel::Object(
                        map![
                            "title"@ => under(items[i], "title"@),
                            "url"@ => under(items[i], "url"@),
                            "description"@ => under(items[i], "content"@)
                        ],
                    )
            },
{
    let reply = search_reply(query, UpstreamModel::Answered { status: 200, body });
    let results = crate::search::shortened_results(answer);
    lemma_search_keys();
    assert forall|i: int| 0 <= i < items.len() implies #[trigger] results[i] == JsonModel::Object(
        map![
            "title"@ => under(items[i], "title"@),
            "url"@ => under(items[i], "url"@),
            "description"@ => under(items[i], "content"@)
        ],
    ) by {
        assert(results[i]->Object_0 =~= map![
            "title"@ => under(items[i], "title"@),
            "url"@ => under(items[i], "url"@),
            "description"@ => under(items[i], "content"@)
        ]);
    }
    let value = found_value(query, results);
    assert(value->Object_0 =~= Map::empty().insert("query"@, JsonModel::Text(query)).insert(
        "results"@,
        JsonModel::Array(results),
    ));
    lemma_json_headers();
    assert(answers(reply, 200, value));
}

/// The object that a search answers with.
pub open spec fn found_value(query: Seq<char>, results: Seq<JsonModel>) -> JsonModel {
    JsonModel::Object(
        map!["query"@ => JsonModel::Text(query), "results"@ => JsonModel::Array(results)],
    )
}

proof fn lemma_search_keys()
    ensures
        "title"@ != "url"@,
        "title"@ != "description"@,
        "url"@ != "description"@,
        "query"@ != "results"@,
        "query"@ != "max_results"@,
        "query"@ != "search_depth"@,
        "max_results"@ != "search_depth"@,
        "error"@ != "details"@,
        "error"@ != "status"@,
        "status"@ != "details"@,
{
    reveal_strlit("title");
    reveal_strlit("url");
    reveal_strlit("description");
    reveal_strlit("query");
    reveal_strlit("results");
    reveal_strlit("max_results");
    reveal_strlit("search_depth");
    reveal_strlit("error");
    reveal_strlit("details");
    reveal_strlit("status");
    assert("title"@.len() == 5 && "url"@.len() == 3 && "description"@.len() == 11);
    assert("query"@.len() == 5 && "results"@.len() == 7 && "max_results"@.len() == 11
        && "search_depth"@.len() == 12);
    assert("error"@.len() == 5 && "details"@.len() == 7 && "status"@.len() == 6);
}

/// A search service that is out of quota makes the search answer 429, for either of its two
/// limits; one that answers anything else but 200 makes it answer 502, with the status and the
/// beginning of what was said; one that answers something that is no JSON, or nothing, makes
/// it answer 502 with what went wrong.
pub proof fn failed_searches_are_answered(
    query: Seq<char>,
    status: u16,
    body: Seq<u8>,
    error: Seq<char>,
)
    ensures
        status == 429 || status == 432 ==> answers(
            search_reply(query, UpstreamModel::Answered { status, body }),
            429,
            error_value("search quota or rate limit exceeded"@),
        ),
        status != 200 && status != 429 && status != 432 ==> exists|
            details: Seq<char>,
            numeral: Seq<char>,
        |
            {
                &&& answers(
                    search_reply(query, UpstreamModel::Answered { status, body }),
                    502,
                    #[trigger] failure_value("upstream search failed"@, Some(numeral), details),
                )
                &&& u64_numeral(numeral, 10) == Some(status as u64)
                &&& details.is_prefix_of(utf8_lossy(body))
                &&& details.len() == if utf8_lossy(body).len() <= 300 {
                    utf8_lossy(body).len()
                } else {
                    300
                }
            },
        json_of_bytes(body) == Err::<JsonModel, Seq<char>>(error) ==> answers(
            search_reply(query, UpstreamModel::Answered { status: 200, body }),
            502,
            failure_value("invalid upstream json"@, None, cleaned(error)),
        ),
        answers(
            search_reply(query, UpstreamModel::Failed(error)),
            502,
            failure_value("upstream request failed"@, None, cleaned(error)),
        ),
{
    lemma_search_keys();
    lemma_json_headers();
    let out = crate::text::sanitized(error);
    lemma_cleaned(error);
    let said = crate::text::clipped(utf8_lossy(body), 300);
    let numeral = crate::json::integer(status as int);
    decimal_reads_back(status as u64);
    crate::laws::text::clipped_texts_are_beginnings(utf8_lossy(body), 300);
    lemma_error_value("search quota or rate limit exceeded"@);
    lemma_failure_value("upstream search failed"@, Some(numeral), said);
    lemma_failure_value("invalid upstream json"@, None, out);
    lemma_failure_value("upstream request failed"@, None, out);
    let a = failure_value("upstream search failed"@, Some(numeral), said);
    let b = failure_value("invalid upstream json"@, None, out);
    let c = failure_value("upstream request failed"@, None, out);
    if status != 200 && status != 429 && status != 432 {
        assert(answers(search_reply(query, UpstreamModel::Answered { status, body }), 502, a));
    }
    if json_of_bytes(body) == Err::<JsonModel, Seq<char>>(error) {
        assert(answers(search_reply(query, UpstreamModel::Answered { status: 200, body }), 502, b));
    }
    assert(answers(search_reply(query, UpstreamModel::Failed(error)), 502, c));
}

/// The object that says what went wrong, with a status that may be left out, and details.
pub open spec fn failure_value(
    error: Seq<char>,
    status: Option<Seq<char>>,
    details: Seq<char>,
) -> JsonModel {
    let members = map!["error"@ => JsonModel::Text(error), "details"@ => JsonModel::Text(details)];
    match status {
        Some(numeral) => JsonModel::Object(members.insert("status"@, JsonModel::Number(numeral))),
        None => JsonModel::Object(members),
    }
}

proof fn lemma_failure_value(error: Seq<char>, status: Option<Seq<char>>, details: Seq<char>)
    ensures
        failure_value(error, status, details) == match status {
            Some(numeral) => JsonModel::empty().with("error"@, JsonModel::Text(error)).with(
                "status"@,
                JsonModel::Number(numeral),
            ).with("details"@, JsonModel::Text(details)),
            None => JsonModel::empty().with("error"@, JsonModel::Text(error)).with(
                "details"@,
                JsonModel::Text(details),
            ),
        },
{
    lemma_search_keys();
    let value = match status {
        Some(numeral) => JsonModel::empty().with("error"@, JsonModel::Text(error)).with(
            "status"@,
            JsonModel::Number(numeral),
        ).with("details"@, JsonModel::Text(details)),
        None => JsonModel::empty().with("error"@, JsonModel::Text(error)).with(
            "details"@,
            JsonModel::Text(details),
        ),
    };
    assert(value->Object_0 =~= failure_value(error, status, details)->Object_0);
}

/// A search that says what to look for asks the search service, under the key of the service,
/// for that, without the spaces around it, and for as many results as it wants: five where it
/// does not say, one at least and ten at most.
pub proof fn searches_ask_the_service(
    step: SearchStep,
    query: Seq<char>,
    key: Seq<char>,
    wanted: Seq<char>,
)
    requires
        begins(step, Method::Get, query, Some(key)),
        param_value(query, "q"@) == Some(wanted),
        trimmed(wanted).len() > 0,
    ensures
        step matches SearchStep::Send { request, next } && {
            &&& request.method is Post
            &&& request.uri@ == "https://api.tavily.com/search"@
            &&& request.headers.deep_view() == seq![
                ("authorization"@, "Bearer "@ + key),
                ("content-type"@, "application/json"@),
            ]
            &&& next.query@ == trimmed(wanted)
            &&& exists|numeral: Seq<char>, n: u64|
                {
                    &&& request.body@ == encode_utf8(
                        json_text(#[trigger] search_value(trimmed(wanted), numeral)),
                    )
                    &&& #[trigger] wants(param_value(query, "count"@), n)
                    &&& u64_numeral(numeral, 10) == Some(n)
                    &&& numeral[0] != '0' && numeral[0] != '+'
                }
        },
{
    let n = crate::search::search_count(param_value(query, "count"@));
    let numeral = crate::json::integer(n as int);
    decimal_reads_back(n);
    decimals_are_plain(n as nat);
    lemma_search_keys();
    if let SearchStep::Send { request, next } = step {
        assert(request.headers.deep_view() =~= seq![
            ("authorization"@, "Bearer "@ + key),
            ("content-type"@, "application/json"@),
        ]);
        let value = search_value(trimmed(wanted), numeral);
        assert(value->Object_0 =~= Map::empty().insert(
            "query"@,
            JsonModel::Text(trimmed(wanted)),
        ).insert("max_results"@, JsonModel::Number(numeral)).insert(
            "search_depth"@,
            JsonModel::Text("basic"@),
        ));
        assert(wants(param_value(query, "count"@), n));
    }
}

/// The object that the search service is asked with.
pub open spec fn search_value(query: Seq<char>, numeral: Seq<char>) -> JsonModel {
    JsonModel::Object(
        map![
            "query"@ => JsonModel::Text(query),
            "max_results"@ => JsonModel::Number(numeral),
            "search_depth"@ => JsonModel::Text("basic"@)
        ],
    )
}

/// Whether `n` is the number of results that a parameter asks for.
pub open spec fn wants(count: Option<Seq<char>>, n: u64) -> bool {
    let asked = match count {
        Some(text) => u64_numeral(text, 10),
        None => None,
    };
    &&& 1 <= n <= 10
    &&& asked is None ==> n == 5
    &&& asked matches Some(m) ==> (m == 0 ==> n == 1) && (1 <= m <= 10 ==> n == m) && (m > 10 ==> n
        == 10)
}

/// A search without anything to look for is answered 400, one that the service has no key for
/// 500, and a request that is neither GET nor OPTIONS 405, whatever else it says. A preflight
/// request is answered 204.
pub proof fn refused_searches_are_answered(
    step: SearchStep,
    method: Method,
    query: Seq<char>,
    key: Option<Seq<char>>,
)
    requires
        begins(step, method, query, key),
    ensures
        ({
            let nothing = match param_value(query, "q"@) {
                Some(q) => trimmed(q).len() == 0,
                None => true,
            };
            &&& method is Get && nothing ==> answers_error(
                step,
                400,
                "missing query. Usage: /search?q=<query>&count=<1-10>"@,
            )
            &&& method is Get && !nothing && key is None ==> answers_error(
                step,
                500,
                "search service is not configured"@,
            )
            &&& !(method is Get) && !(method is Options) ==> answers_error(
                step,
                405,
                "method not allowed; use GET /search?q=..."@,
            )
            &&& method is Options ==> (step matches SearchStep::Respond(r) && r@.status == 204
                && r@.body.len() == 0 && r@.headers == seq![
                ("access-control-allow-origin"@, "*"@),
                ("access-control-allow-methods"@, "GET, OPTIONS"@),
                ("access-control-allow-headers"@, "*"@),
                ("access-control-max-age"@, "3600"@),
            ])
        }),
{
    lemma_json_headers();
    lemma_error_value("missing query. Usage: /search?q=<query>&count=<1-10>"@);
    lemma_error_value("search service is not configured"@);
    lemma_error_value("method not allowed; use GET /search?q=..."@);
    if method is Options {
        assert(step->Respond_0@.headers =~= seq![
            ("access-control-allow-origin"@, "*"@),
            ("access-control-allow-methods"@, "GET, OPTIONS"@),
            ("access-control-allow-headers"@, "*"@),
            ("access-control-max-age"@, "3600"@),
        ]);
    }
}

/// A request is handled unless it is a search with a parameter that cannot be decoded: then
/// nothing is done with it.
pub proof fn readable_requests_are_handled(
    step: Option<SearchStep>,
    method: Method,
    query: Seq<char>,
    key: Option<Seq<char>>,
)
    requires
        tries(step, method, query, key),
    ensures
        !(method is Get) || search_readable(query) ==> step is Some && begins(
            step->0,
            method,
            query,
            key,
        ),
        method is Get && !search_readable(query) ==> step is None,
{
}

/// Whether a step answers with an error and nothing else.
pub open spec fn answers_error(step: SearchStep, status: u16, error: Seq<char>) -> bool {
    step matches SearchStep::Respond(r) && answers(
        r@,
        status,
        error_value(error),
    )
}

/// A parameter is the value behind its name and an equals sign, in the first pair between
/// ampersands that begins so. Where no pair does, there is none.
pub proof fn parameters_are_found_by_name(query: Seq<char>, name: Seq<char>, i: int)
    requires
        !name.contains('='),
        0 <= i <= pieces(query, '&').len(),
        forall|k: int|
            0 <= k < i ==> !(name + seq!['=']).is_prefix_of(#[trigger] pieces(query, '&')[k]),
        i < pieces(query, '&').len() ==> (name + seq!['=']).is_prefix_of(pieces(query, '&')[i]),
    ensures
        i < pieces(query, '&').len() ==> raw_value(query, name) == Some(
            pieces(query, '&')[i].skip(name.len() as int + 1),
        ) && param_value(query, name) == Some(
            url_decoded(pieces(query, '&')[i].skip(name.len() as int + 1)),
        ),
        i == pieces(query, '&').len() ==> raw_value(query, name) is None && param_value(
            query,
            name,
        ) is None,
{
    lemma_first_value(pieces(query, '&'), name, i);
}

proof fn lemma_first_value(pairs: Seq<Seq<char>>, name: Seq<char>, i: int)
    requires
        !name.contains('='),
        0 <= i <= pairs.len(),
        forall|k: int| 0 <= k < i ==> !(name + seq!['=']).is_prefix_of(#[trigger] pairs[k]),
        i < pairs.len() ==> (name + seq!['=']).is_prefix_of(pairs[i]),
    ensures
        first_value(pairs, name) == if i < pairs.len() {
            Some(pairs[i].skip(name.len() as int + 1))
        } else {
            None
        },
    decreases pairs.len(),
{
    if pairs.len() > 0 {
        let pair = pairs[0];
        let head = name + seq!['='];
        let n = name.len() as int;
        if i == 0 {
            assert forall|j: int| 0 <= j < n implies pair[j] != '=' by {
                assert(pair[j] == pair.subrange(0, n + 1)[j]);
                assert(head[j] == name[j]);
                assert(name.contains(name[j]));
            }
            assert(pair[n] == pair.subrange(0, n + 1)[n]);
            lemma_first_index(pair, '=', n);
            assert(pair.take(n) =~= name) by {
                assert(pair.take(n) =~= pair.subrange(0, n + 1).take(n));
                assert(head.take(n) =~= name);
            }
        } else {
            if let Some((k, v)) = around_first(pair, '=') {
                lemma_first_of(pair, '=');
                if k == name {
                    assert(first_index(pair, '=') == n);
                    assert(pair.subrange(0, n + 1) =~= head);
                    assert(head.is_prefix_of(pairs[0]));
                }
            }
            let rest = pairs.skip(1);
            assert forall|k: int| 0 <= k < i - 1 implies !head.is_prefix_of(#[trigger] rest[k]) by {
                assert(rest[k] == pairs[k + 1]);
            }
            lemma_first_value(rest, name, i - 1);
        }
    }
}

/// The hexadecimal digit of a number below sixteen, in either case.
pub open spec fn hex_character(d: int, upper: bool) -> u8 {
    if d < 10 {
        (0x30 + d) as u8
    } else if upper {
        (0x41 + d - 10) as u8
    } else {
        (0x61 + d - 10) as u8
    }
}

/// In front of any bytes, an escape stands for the byte that its two digits name, a plus sign
/// for a space, and every other byte for itself: a percent sign too where no two hexadecimal
/// digits follow.
pub proof fn bytes_are_decoded_one_by_one(
    b: u8,
    high_upper: bool,
    low_upper: bool,
    c: u8,
    rest: Seq<u8>,
)
    ensures
        decoded(
            seq![
                0x25u8,
                hex_character(b as int / 16, high_upper),
                hex_character(b as int % 16, low_upper),
            ] + rest,
        ) == seq![b] + decoded(rest),
        decoded(seq![0x2bu8] + rest) == seq![0x20u8] + decoded(rest),
        c != 0x2b && c != 0x25 ==> decoded(seq![c] + rest) == seq![c] + decoded(rest),
        rest.len() < 2 || !is_hex_character(rest[0]) || !is_hex_character(rest[1]) ==> decoded(
            seq![0x25u8] + rest,
        ) == seq![0x25u8] + decoded(rest),
        decoded(Seq::empty()) == Seq::<u8>::empty(),
{
    let e = seq![
        0x25u8,
        hex_character(b as int / 16, high_upper),
        hex_character(b as int % 16, low_upper),
    ];
    assert((e + rest).skip(3) =~= rest);
    assert((seq![0x2bu8] + rest).skip(1) =~= rest);
    assert((seq![c] + rest).skip(1) =~= rest);
    assert((seq![0x25u8] + rest).skip(1) =~= rest);
    let p = seq![0x25u8] + rest;
    if rest.len() >= 2 {
        assert(p[1] == rest[0] && p[2] == rest[1]);
    }
}

/// A text is decoded by its bytes, and what comes of them is read as UTF-8.
pub proof fn texts_are_decoded_by_bytes(s: Seq<char>)
    ensures
        url_decoded(s) == utf8_lossy(decoded(encode_utf8(s))),
{
}

/// Whether the two characters behind each percent sign of a text, as far as there are such, are
/// ASCII.
pub open spec fn is_escaped_in_ascii(s: Seq<char>) -> bool {
    forall|i: int|
        0 <= i < s.len() && #[trigger] s[i] == '%' ==> (i + 1 < s.len() ==> s[i + 1] <= '\u{7f}')
            && (i + 2 < s.len() ==> s[i + 2] <= '\u{7f}')
}

/// Every text in which ASCII follows on the percent signs can be decoded, and so a search is
/// read whose parameters are such texts.
pub proof fn escaped_texts_are_read(s: Seq<char>, query: Seq<char>)
    ensures
        is_escaped_in_ascii(s) ==> decodable(s),
        (raw_value(query, "q"@) matches Some(v) ==> is_escaped_in_ascii(v)) && (raw_value(
            query,
            "count"@,
        ) matches Some(v) ==> is_escaped_in_ascii(v)) ==> search_readable(query),
{
    if is_escaped_in_ascii(s) {
        lemma_decodable(s);
    }
    if let Some(v) = raw_value(query, "q"@) {
        if is_escaped_in_ascii(v) {
            lemma_decodable(v);
        }
    }
    if let Some(v) = raw_value(query, "count"@) {
        if is_escaped_in_ascii(v) {
            lemma_decodable(v);
        }
    }
}

proof fn lemma_decodable(s: Seq<char>)
    requires
        is_escaped_in_ascii(s),
    ensures
        decodable(s),
    decreases s.len(),
{
    let b = encode_utf8(s);
    encode_utf8_valid_utf8(s);
    is_char_boundary_start_end_of_seq(b);
    if s.len() == 0 {
        assert(b.len() == 0);
    } else {
        let head = seq![s[0]];
        let rest = s.skip(1);
        let first = encode_utf8(head);
        let behind = encode_utf8(rest);
        assert(s =~= head + rest);
        lemma_encode_concat(head, rest);
        assert(is_escaped_in_ascii(rest)) by {
            assert forall|i: int| 0 <= i < rest.len() && #[trigger] rest[i] == '%' implies (i + 1
                < rest.len() ==> rest[i + 1] <= '\u{7f}') && (i + 2 < rest.len() ==> rest[i + 2]
                <= '\u{7f}') by {
                assert(s[i + 1] == '%');
            }
        }
        lemma_decodable(rest);
        encode_utf8_valid_utf8(rest);
        let k = first.len() as int;
        assert forall|i: int|
            0 <= i && i + 3 <= b.len() && #[trigger] b[i] == 0x25 implies is_char_boundary(
            b,
            i + 3,
        ) by {
            let n = i + 3;
            if n < b.len() {
                is_char_boundary_iff_not_is_continuation_byte(b, n);
                if i >= k {
                    assert(behind[i - k] == 0x25);
                    assert(is_char_boundary(behind, i - k + 3));
                    is_char_boundary_iff_not_is_continuation_byte(behind, n - k);
                    assert(b[n] == behind[n - k]);
                } else {
                    assert(first.contains(first[i]));
                    if s[0] != '%' {
                        assert(!head.contains('%'));
                        lemma_ascii_byte_absent(head, '%');
                    }
                    lemma_encode_ascii('%');
                    assert(s[0] == '%');
                    lemma_behind_escape(rest);
                    assert(b[n] == behind[2]);
                }
            }
        }
    }
}

/// Behind two ASCII characters a character begins, or the text ends.
proof fn lemma_behind_escape(s: Seq<char>)
    requires
        s.len() > 0 ==> s[0] <= '\u{7f}',
        s.len() > 1 ==> s[1] <= '\u{7f}',
    ensures
        encode_utf8(s).len() > 2 ==> !is_continuation_byte(encode_utf8(s)[2]),
{
    let none = Seq::<char>::empty();
    assert(encode_utf8(none).len() == 0);
    if s.len() > 0 {
        let rest = s.skip(1);
        assert(s =~= seq![s[0]] + rest);
        lemma_encode_concat(seq![s[0]], rest);
        char_u32_cast(s[0], s[0] as u32);
        lemma_encode_ascii(s[0]);
        if rest.len() > 0 {
            let end = rest.skip(1);
            assert(rest =~= seq![rest[0]] + end);
            lemma_encode_concat(seq![rest[0]], end);
            char_u32_cast(rest[0], rest[0] as u32);
            lemma_encode_ascii(rest[0]);
            let e = encode_utf8(end);
            encode_utf8_valid_utf8(end);
            is_char_boundary_start_end_of_seq(e);
            if e.len() > 0 {
                is_char_boundary_iff_not_is_continuation_byte(e, 0);
                assert(encode_utf8(s)[2] == e[0]);
            }
        }
    } else {
        assert(s =~= none);
    }
}

/// Whether a byte is a hexadecimal digit.
pub open spec fn is_hex_character(c: u8) -> bool {
    0x30 <= c <= 0x39 || 0x41 <= c <= 0x46 || 0x61 <= c <= 0x66
}

} // verus!

//! What a request for a token list promises: the list that is served is that of the chain that
//! was asked for, made of both sources.

use vstd::prelude::*;
use vstd::utf8::encode_utf8;
use crate::cache::CacheEntry;
use crate::http::{ReplyModel, UpstreamModel};
use crate::json::{json_text, JsonModel};
use crate::laws::answers::{error_value, lemma_error_value};
use crate::text::{decimal, lowercase, u64_numeral};
use crate::timestamps::{formatted_time, iso_time, later_of, rfc3339_seconds};
use crate::tokenlist::{
    begins, fetched, is_or_empty, list_reply, source_outcome, AfterFailure, AfterList, Gathering,
    Source, SourceStep, TokenListStep,
};
use crate::tokens::{
    added_tokens_are_new, is_network, lowered, merged, network, networks_are_found,
    superfluid_tokens_are_listed, AssetPlatform, SourceTokenList, Token, TokenListResponse,
};

verus! {

/// Whether a network is that of a chain, by the number that CoinGecko gives it: one of sixty-four
/// bits with a sign.
pub open spec fn is_of_chain(platform: AssetPlatform, chain_id: u64) -> bool {
    platform.chain_identifier matches Some(id) && {
        ||| id == chain_id
        ||| id + 0x1_0000_0000_0000_0000 == chain_id
    }
}

/// Whether the network at `i` is the first of a chain.
pub open spec fn is_first_of_chain(list: Seq<AssetPlatform>, chain_id: u64, i: int) -> bool {
    &&& 0 <= i < list.len()
    &&& is_of_chain(list[i], chain_id)
    &&& forall|k: int| 0 <= k < i ==> !is_of_chain(#[trigger] list[k], chain_id)
}

/// Whether a list has no network of a chain.
pub open spec fn has_none_of_chain(list: Seq<AssetPlatform>, chain_id: u64) -> bool {
    forall|i: int| 0 <= i < list.len() ==> !is_of_chain(#[trigger] list[i], chain_id)
}

proof fn lemma_network(list: Seq<AssetPlatform>, chain_id: u64, i: int)
    ensures
        is_first_of_chain(list, chain_id, i) ==> network(list, chain_id) == Some(
            (list[i].name@, list[i].id@),
        ),
        has_none_of_chain(list, chain_id) ==> network(list, chain_id) is None,
{
    networks_are_found(list, chain_id);
    assert forall|k: int| 0 <= k < list.len() implies is_network(
        #[trigger] list[k],
        chain_id,
    ) == is_of_chain(list[k], chain_id) by {}
}

/// Whether tokens are the list of a chain: those of CoinGecko, as they are, and behind them
/// tokens of Superfluid of the chain, each with an address that no token before it has; and
/// every token of Superfluid of the chain that has an address is there.
pub open spec fn are_tokens_of(
    tokens: Seq<Token>,
    chain_id: u64,
    coingecko: Seq<Token>,
    superfluid: Seq<Token>,
) -> bool {
    &&& coingecko.is_prefix_of(tokens)
    &&& forall|i: int|
        coingecko.len() <= i < tokens.len() ==> {
            &&& (#[trigger] tokens[i]).chain_id == chain_id
            &&& superfluid.contains(tokens[i])
            &&& lowercase(tokens[i].address@).len() > 0
        }
    &&& forall|k: int, i: int|
        0 <= k < i && coingecko.len() <= i < tokens.len() ==> lowercase(
            (#[trigger] tokens[k]).address@,
        ) != lowercase((#[trigger] tokens[i]).address@)
    &&& forall|j: int|
        0 <= j < superfluid.len() && (#[trigger] superfluid[j]).chain_id == chain_id && lowercase(
            superfluid[j].address@,
        ).len() > 0 ==> has_address(tokens, lowercase(superfluid[j].address@))
}

/// Whether a token of a list has an address.
pub open spec fn has_address(tokens: Seq<Token>, address: Seq<char>) -> bool {
    exists|i: int| 0 <= i < tokens.len() && lowercase((#[trigger] tokens[i]).address@) == address
}

proof fn lemma_merged(coingecko: Seq<Token>, superfluid: Seq<Token>, chain_id: u64)
    ensures
        are_tokens_of(
            merged(coingecko, superfluid, chain_id),
            chain_id,
            coingecko,
            superfluid,
        ),
{
    let all = merged(coingecko, superfluid, chain_id);
    assert(coingecko =~= all.subrange(0, coingecko.len() as int));
    assert forall|k: int| 0 <= k < all.len() implies #[trigger] lowered(all)[k] == lowercase(
        all[k].address@,
    ) by {}
    assert forall|i: int| coingecko.len() <= i < all.len() implies (#[trigger] all[i]).chain_id
        == chain_id && superfluid.contains(all[i]) && lowercase(all[i].address@).len() > 0 by {
        added_tokens_are_new(coingecko, superfluid, chain_id, i);
    }
    assert forall|k: int, i: int|
        0 <= k < i && coingecko.len() <= i < all.len() implies lowercase(
        (#[trigger] all[k]).address@,
    ) != lowercase((#[trigger] all[i]).address@) by {
        added_tokens_are_new(coingecko, superfluid, chain_id, i);
        assert(lowered(all)[k] != lowered(all)[i]);
    }
    assert forall|j: int|
        0 <= j < superfluid.len() && (#[trigger] superfluid[j]).chain_id == chain_id && lowercase(
            superfluid[j].address@,
        ).len() > 0 implies has_address(all, lowercase(superfluid[j].address@)) by {
        superfluid_tokens_are_listed(coingecko, superfluid, chain_id, j);
        let a = lowercase(superfluid[j].address@);
        let i = choose|i: int| 0 <= i < lowered(all).len() && lowered(all)[i] == a;
        assert(lowercase(all[i].address@) == a);
    }
}

/// Of the tokens of Superfluid with one address the first of the chain is listed, and the tokens
/// that are listed keep their order: they stand at ascending places in the list of Superfluid.
pub proof fn first_tokens_are_added_in_order(
    coingecko: Seq<Token>,
    superfluid: Seq<Token>,
    chain_id: u64,
) -> (places: Seq<int>)
    ensures
        merged(coingecko, superfluid, chain_id).len() == coingecko.len() + places.len(),
        forall|i: int, k: int|
            0 <= i < k < places.len() ==> #[trigger] places[i] < #[trigger] places[k],
        forall|i: int|
            0 <= i < places.len() ==> {
                let j = #[trigger] places[i];
                &&& 0 <= j < superfluid.len()
                &&& merged(coingecko, superfluid, chain_id)[coingecko.len() + i] == superfluid[j]
                &&& forall|k: int|
                    0 <= k < j && (#[trigger] superfluid[k]).chain_id == chain_id ==> lowercase(
                        superfluid[k].address@,
                    ) != lowercase(superfluid[j].address@)
            },
{
    let taken = lowered(coingecko);
    let more = crate::tokens::with_lowered(superfluid);
    let places = crate::tokens::added_positions(taken, more, chain_id, more.len());
    crate::tokens::lemma_positions(taken, more, chain_id, more.len());
    assert forall|i: int| 0 <= i < places.len() implies {
        let j = #[trigger] places[i];
        &&& 0 <= j < superfluid.len()
        &&& merged(coingecko, superfluid, chain_id)[coingecko.len() + i] == superfluid[j]
        &&& forall|k: int|
            0 <= k < j && (#[trigger] superfluid[k]).chain_id == chain_id ==> lowercase(
                superfluid[k].address@,
            ) != lowercase(superfluid[j].address@)
    } by {
        let j = places[i];
        assert(crate::tokens::is_added(taken, more, chain_id, j));
        assert forall|k: int|
            0 <= k < j && (#[trigger] superfluid[k]).chain_id == chain_id implies lowercase(
            superfluid[k].address@,
        ) != lowercase(superfluid[j].address@) by {
            assert(more[k] == (superfluid[k], lowercase(superfluid[k].address@)));
            assert(more[j] == (superfluid[j], lowercase(superfluid[j].address@)));
        }
    }
    places
}

/// The seconds that the timestamp of a source stands for.
pub open spec fn seconds_in(list: SourceTokenList) -> Option<i64> {
    if list.timestamp is Some {
        rfc3339_seconds(list.timestamp->0@)
    } else {
        None
    }
}

/// Whether a time is the later of two that may be missing, or the beginning of 1970 where both
/// are.
pub open spec fn is_later(a: Option<i64>, b: Option<i64>, seconds: i64) -> bool {
    &&& a is Some ==> a->0 <= seconds
    &&& b is Some ==> b->0 <= seconds
    &&& a == Some(seconds) || b == Some(seconds) || (a is None && b is None && seconds == 0)
}

/// Whether a text is the time so many seconds since 1970, or the beginning of 1970 where it cannot
/// be written.
pub open spec fn is_time(text: Seq<char>, seconds: i64) -> bool {
    match formatted_time(seconds, "%Y-%m-%dT%H:%M:%S%.3fZ"@) {
        Some(written) => text == written,
        None => text == "1970-01-01T00:00:00.000Z"@,
    }
}

/// Whether a list is that of a network, made of those of the two sources.
pub open spec fn is_list_of(
    list: TokenListResponse,
    network_name: Seq<char>,
    chain_id: u64,
    coingecko: SourceTokenList,
    superfluid: SourceTokenList,
) -> bool {
    &&& list.name@ == "EVMcrispr Token List ("@ + network_name + ")"@
    &&& list.logo_uri@ == "https://evmcrispr.com/favicon.ico"@
    &&& list.version.major == 1
    &&& list.version.minor == 0
    &&& list.version.patch == 0
    &&& are_tokens_of(list.tokens@, chain_id, coingecko.tokens@, superfluid.tokens@)
    &&& exists|seconds: i64|
        #[trigger] is_later(seconds_in(coingecko), seconds_in(superfluid), seconds) && is_time(
            list.timestamp@,
            seconds,
        )
}

proof fn lemma_list(
    list: TokenListResponse,
    network_name: Seq<char>,
    chain_id: u64,
    coingecko: SourceTokenList,
    superfluid: SourceTokenList,
)
    requires
        crate::tokenlist::is_token_list(list, network_name, chain_id, coingecko, superfluid),
    ensures
        is_list_of(list, network_name, chain_id, coingecko, superfluid),
{
    lemma_merged(coingecko.tokens@, superfluid.tokens@, chain_id);
    let seconds = later_of(seconds_in(coingecko), seconds_in(superfluid));
    assert(is_later(seconds_in(coingecko), seconds_in(superfluid), seconds));
    assert(list.timestamp@ == iso_time(seconds));
}

/// Where the list of Superfluid is.
pub open spec fn superfluid_address() -> Seq<char> {
    "https://raw.githubusercontent.com/superfluid-finance/tokenlist/main/superfluid.extended.tokenlist.json"@
}

/// Whether a step fetches the lists of the two sources for the network of a chain.
pub open spec fn fetches_both(g: Gathering, chain_id: u64, platform: AssetPlatform) -> bool {
    &&& g.chain_id == chain_id
    &&& g.network_name@ == platform.name@
    &&& g.coingecko.url@ == "https://tokens.coingecko.com/"@ + platform.id@ + "/all.json"@
    &&& g.coingecko.key@ == "coingecko_"@ + platform.id@
    &&& g.superfluid.url@ == superfluid_address()
    &&& g.superfluid.key@ == "superfluid"@
}

/// A request for the list of a chain looks in the cache for it, and where the cache has nothing
/// of it that is younger than twelve hours, for the networks; those are fetched where none younger
/// than five days has the chain, and stored. With the network it fetches the lists of the two
/// sources. All of that is for the chain that was asked for.
pub proof fn requests_gather_for_their_own_chain(
    text: Seq<char>,
    chain_id: u64,
    first: TokenListStep,
    second: TokenListStep,
    entry: Option<CacheEntry<TokenListResponse>>,
    now_ms: u64,
    third: TokenListStep,
    known: Option<CacheEntry<Vec<AssetPlatform>>>,
    then_ms: u64,
    fourth: TokenListStep,
    platforms: Option<Vec<AssetPlatform>>,
    fifth: TokenListStep,
    i: int,
)
    requires
        u64_numeral(text, 10) == Some(chain_id),
        chain_id > 0,
        begins(text, first),
        first matches TokenListStep::OpenStore { next } ==> next.goes_on(true, second),
        second matches TokenListStep::ReadList { key, next } ==> next.goes_on(
            entry,
            now_ms,
            third,
        ),
        third matches TokenListStep::ReadPlatforms { key, next } ==> next.goes_on(
            known,
            then_ms,
            fourth,
        ),
        fourth matches TokenListStep::FetchPlatforms { url, next } ==> next.goes_on(
            platforms,
            fifth,
        ),
        entry matches Some(e) ==> now_ms >= e.timestamp_ms + 43200000,
    ensures
        second matches TokenListStep::ReadList { key, next } && key@ == "tokenlist_"@ + decimal(
            chain_id as nat,
        ),
        third matches TokenListStep::ReadPlatforms { key, next } && key@ == "platforms"@,
        known is Some && then_ms < known->0.timestamp_ms + 432000000 && is_first_of_chain(
            known->0.data@,
            chain_id,
            i,
        ) ==> (fourth matches TokenListStep::Gather(g) && fetches_both(
            g,
            chain_id,
            known->0.data@[i],
        )),
        known is None || then_ms >= known->0.timestamp_ms + 432000000 || has_none_of_chain(
            known->0.data@,
            chain_id,
        ) ==> {
            &&& fourth matches TokenListStep::FetchPlatforms { url, next } && url@
                == "https://api.coingecko.com/api/v3/asset_platforms"@
            &&& platforms is Some && is_first_of_chain(platforms->0@, chain_id, i) ==> (
            fifth matches TokenListStep::StorePlatforms { key, platforms: stored, next } && key@
                == "platforms"@ && stored == platforms->0 && fetches_both(
                next,
                chain_id,
                platforms->0@[i],
            ))
            &&& platforms is None || has_none_of_chain(platforms->0@, chain_id) ==> (
            fifth matches TokenListStep::ReadStaleList { key, next } && key@ == "tokenlist_"@
                + decimal(chain_id as nat))
        },
{
    if known is Some {
        lemma_network(known->0.data@, chain_id, i);
    }
    if platforms is Some {
        lemma_network(platforms->0@, chain_id, i);
    }
}

/// The list that is made of both sources is stored under the chain and served with 200. It is the
/// list of the chain that the sources were fetched for; where a source could not be had, what is
/// left in the cache for that chain is looked for.
pub proof fn gathered_lists_are_served(
    g: Gathering,
    chain_id: u64,
    platform: AssetPlatform,
    coingecko: Option<SourceTokenList>,
    superfluid: Option<SourceTokenList>,
    step: TokenListStep,
)
    requires
        fetches_both(g, chain_id, platform),
        g.goes_on(coingecko, superfluid, step),
    ensures
        coingecko is Some && superfluid is Some ==> (
        step matches TokenListStep::StoreAndRespondList { key, status, list } && {
            &&& key@ == "tokenlist_"@ + decimal(chain_id as nat)
            &&& status == 200
            &&& is_list_of(list, platform.name@, chain_id, coingecko->0, superfluid->0)
        }),
        coingecko is None || superfluid is None ==> (step matches TokenListStep::ReadStaleList {
            key,
            next,
        } && key@ == "tokenlist_"@ + decimal(chain_id as nat)),
{
    if let TokenListStep::StoreAndRespondList { key, status, list } = step {
        if coingecko is Some && superfluid is Some {
            lemma_list(list, platform.name@, chain_id, coingecko->0, superfluid->0);
        }
    }
}

/// In the list that is served for a chain, every token behind those of CoinGecko has the number of
/// the chain that was asked for, and every token of Superfluid that has that number and an
/// address is in it.
pub proof fn served_lists_are_of_the_chain_asked_for(
    text: Seq<char>,
    chain_id: u64,
    first: TokenListStep,
    second: TokenListStep,
    entry: Option<CacheEntry<TokenListResponse>>,
    now_ms: u64,
    third: TokenListStep,
    known: Option<CacheEntry<Vec<AssetPlatform>>>,
    then_ms: u64,
    fourth: TokenListStep,
    platforms: Option<Vec<AssetPlatform>>,
    fifth: TokenListStep,
    coingecko: SourceTokenList,
    superfluid: SourceTokenList,
    last: TokenListStep,
)
    requires
        u64_numeral(text, 10) == Some(chain_id),
        chain_id > 0,
        begins(text, first),
        first matches TokenListStep::OpenStore { next } ==> next.goes_on(true, second),
        second matches TokenListStep::ReadList { key, next } ==> next.goes_on(
            entry,
            now_ms,
            third,
        ),
        third matches TokenListStep::ReadPlatforms { key, next } ==> next.goes_on(
            known,
            then_ms,
            fourth,
        ),
        fourth matches TokenListStep::FetchPlatforms { url, next } ==> next.goes_on(
            platforms,
            fifth,
        ),
        fourth matches TokenListStep::Gather(g) ==> g.goes_on(
            Some(coingecko),
            Some(superfluid),
            last,
        ),
        fifth matches TokenListStep::StorePlatforms { key, platforms: stored, next }
            ==> next.goes_on(Some(coingecko), Some(superfluid), last),
        fourth is Gather || (fourth is FetchPlatforms && fifth is StorePlatforms),
        entry matches Some(e) ==> now_ms >= e.timestamp_ms + 43200000,
    ensures
        last matches TokenListStep::StoreAndRespondList { key, status, list } && {
            &&& status == 200
            &&& key@ == "tokenlist_"@ + decimal(chain_id as nat)
            &&& coingecko.tokens@.is_prefix_of(list.tokens@)
            &&& forall|i: int|
                coingecko.tokens@.len() <= i < list.tokens@.len() ==> (
                #[trigger] list.tokens@[i]).chain_id == chain_id
            &&& forall|j: int|
                0 <= j < superfluid.tokens@.len() && (#[trigger] superfluid.tokens@[j]).chain_id
                    == chain_id && lowercase(superfluid.tokens@[j].address@).len() > 0
                    ==> has_address(list.tokens@, lowercase(superfluid.tokens@[j].address@))
            &&& are_tokens_of(list.tokens@, chain_id, coingecko.tokens@, superfluid.tokens@)
        },
{
    lemma_merged(coingecko.tokens@, superfluid.tokens@, chain_id);
}

/// Whether a list is the one that was fetched; one without tokens and timestamp where none was.
pub open spec fn is_list_or_none(list: SourceTokenList, fetched: Option<SourceTokenList>) -> bool {
    if fetched is Some {
        list == fetched->0
    } else {
        list.tokens@.len() == 0 && list.timestamp is None
    }
}

/// Without a cache the networks are fetched, and with the network of the chain the lists of the
/// two sources; the list that is made of those that could be had is served with 200, and is of
/// the chain that was asked for. A chain without a network is answered 400.
pub proof fn lists_are_served_without_a_cache(
    text: Seq<char>,
    chain_id: u64,
    first: TokenListStep,
    second: TokenListStep,
    platforms: Option<Vec<AssetPlatform>>,
    third: TokenListStep,
    coingecko: Option<SourceTokenList>,
    superfluid: Option<SourceTokenList>,
    last: TokenListStep,
    i: int,
)
    requires
        u64_numeral(text, 10) == Some(chain_id),
        chain_id > 0,
        begins(text, first),
        first matches TokenListStep::OpenStore { next } ==> next.goes_on(false, second),
        second matches TokenListStep::FetchPlatforms { url, next } ==> next.goes_on(
            platforms,
            third,
        ),
        third matches TokenListStep::GatherUncached(g) ==> g.goes_on(coingecko, superfluid, last),
    ensures
        second matches TokenListStep::FetchPlatforms { url, next } && url@
            == "https://api.coingecko.com/api/v3/asset_platforms"@,
        platforms is Some && is_first_of_chain(platforms->0@, chain_id, i) ==> {
            &&& third matches TokenListStep::GatherUncached(g) && {
                &&& g.coingecko_url@ == "https://tokens.coingecko.com/"@ + platforms->0@[i].id@
                    + "/all.json"@
                &&& g.superfluid_url@ == superfluid_address()
            }
            &&& last matches TokenListStep::StoreAndRespondList { key, status, list } && {
                &&& key@ == "tokenlist_"@ + decimal(chain_id as nat)
                &&& status == 200
                &&& exists|c: SourceTokenList, s: SourceTokenList|
                    {
                        &&& #[trigger] is_list_or_none(c, coingecko)
                        &&& #[trigger] is_list_or_none(s, superfluid)
                        &&& is_list_of(list, platforms->0@[i].name@, chain_id, c, s)
                    }
            }
        },
        platforms is None || has_none_of_chain(platforms->0@, chain_id) ==> (
        third matches TokenListStep::Respond(reply) && lists_value(
            reply@,
            400,
            error_value("unsupported chainId: "@ + decimal(chain_id as nat)),
        )),
{
    lemma_list_headers();
    lemma_error_value("unsupported chainId: "@ + decimal(chain_id as nat));
    if platforms is Some {
        lemma_network(platforms->0@, chain_id, i);
        if is_first_of_chain(platforms->0@, chain_id, i) {
            if let TokenListStep::GatherUncached(g) = third {
                let (c, s) = choose|c: SourceTokenList, s: SourceTokenList|
                    {
                        &&& #[trigger] is_or_empty(c, coingecko)
                        &&& #[trigger] is_or_empty(s, superfluid)
                        &&& crate::tokenlist::serves(last, g.network_name@, g.chain_id, c, s)
                    };
                lemma_list(last->StoreAndRespondList_list, g.network_name@, chain_id, c, s);
                assert(is_list_or_none(c, coingecko) && is_list_or_none(s, superfluid));
            }
        }
    }
}

/// Whether an answer is JSON that any page may read and keep for five minutes.
pub open spec fn lists_text(reply: ReplyModel, status: u16, text: Seq<char>) -> bool {
    &&& reply.status == status
    &&& reply.headers == seq![
        ("content-type"@, "application/json"@),
        ("access-control-allow-origin"@, "*"@),
        ("cache-control"@, "public, max-age=300, s-maxage=300"@),
    ]
    &&& reply.body == encode_utf8(text)
}

/// Whether an answer is a JSON value that any page may read and keep for five minutes.
pub open spec fn lists_value(reply: ReplyModel, status: u16, value: JsonModel) -> bool {
    lists_text(reply, status, json_text(value))
}

proof fn lemma_list_headers()
    ensures
        Seq::empty().push(("content-type"@, "application/json"@)).push(
            ("access-control-allow-origin"@, "*"@),
        ).push(("cache-control"@, "public, max-age=300, s-maxage=300"@)) == seq![
            ("content-type"@, "application/json"@),
            ("access-control-allow-origin"@, "*"@),
            ("cache-control"@, "public, max-age=300, s-maxage=300"@),
        ],
{
    assert(Seq::empty().push(("content-type"@, "application/json"@)).push(
        ("access-control-allow-origin"@, "*"@),
    ).push(("cache-control"@, "public, max-age=300, s-maxage=300"@)) =~= seq![
        ("content-type"@, "application/json"@),
        ("access-control-allow-origin"@, "*"@),
        ("cache-control"@, "public, max-age=300, s-maxage=300"@),
    ]);
}

/// A list is answered as its JSON text, under the status that goes with it; where it could not be
/// written, that is said in its place.
pub proof fn lists_are_answered_as_json(status: u16, text: Seq<char>)
    ensures
        lists_text(list_reply(status, Some(text)), status, text),
        lists_text(list_reply(status, None), status, "{\"error\":\"serialization failed\"}"@),
{
    lemma_list_headers();
}

/// A request that names no chain is answered 400: what it names is no number, or is zero.
pub proof fn requests_for_no_chain_are_refused(text: Seq<char>, step: TokenListStep)
    requires
        begins(text, step),
        u64_numeral(text, 10) is None || u64_numeral(text, 10) == Some(0u64),
    ensures
        step matches TokenListStep::Respond(reply) && lists_value(
            reply@,
            400,
            JsonModel::Object(
                map![
                    "error"@ => JsonModel::Text("invalid chainId"@),
                    "chainId"@ => JsonModel::Text(text)
                ],
            ),
        ),
{
    lemma_list_headers();
    reveal_strlit("error");
    reveal_strlit("chainId");
    assert("error"@.len() == 5 && "chainId"@.len() == 7);
    let m = map![
        "error"@ => JsonModel::Text("invalid chainId"@),
        "chainId"@ => JsonModel::Text(text)
    ];
    assert(m =~= Map::empty().insert("error"@, JsonModel::Text("invalid chainId"@)).insert(
        "chainId"@,
        JsonModel::Text(text),
    ));
}

/// A list that the cache has and that is younger than twelve hours is served with 200, as it is.
pub proof fn cached_lists_are_served(
    next: AfterList,
    entry: CacheEntry<TokenListResponse>,
    now_ms: u64,
    step: TokenListStep,
)
    requires
        next.goes_on(Some(entry), now_ms, step),
        now_ms < entry.timestamp_ms + 43200000,
    ensures
        step matches TokenListStep::RespondList { status, list } && status == 200 && list
            == entry.data,
{
}

/// Where a list cannot be made, one that the cache has is served with 200, however old it is;
/// without one the answer is 502.
pub proof fn failures_are_answered_from_the_cache(
    next: AfterFailure,
    entry: Option<CacheEntry<TokenListResponse>>,
    step: TokenListStep,
)
    requires
        next.goes_on(entry, step),
    ensures
        entry is Some ==> (step matches TokenListStep::RespondList { status, list } && status == 200
            && list == entry->0.data),
        entry is None ==> (step matches TokenListStep::Respond(reply) && lists_value(
            reply@,
            502,
            error_value("failed to fetch token lists and no cache available"@),
        )),
{
    lemma_list_headers();
    lemma_error_value("failed to fetch token lists and no cache available"@);
}

/// The list of a source is taken from the cache while it is younger than twelve hours. Otherwise
/// it is downloaded and stored; where the download fails, what the cache has is taken, however
/// old, and only where it has nothing does the error come out.
pub proof fn sources_are_cached_for_twelve_hours(
    source: Source,
    entry: Option<CacheEntry<SourceTokenList>>,
    now_ms: u64,
    download: Result<SourceTokenList, Seq<char>>,
    first: SourceStep,
    second: SourceStep,
)
    requires
        source.goes_on(entry, now_ms, first),
        first matches SourceStep::Fetch { url, next } ==> next.goes_on(
            if download is Ok {
                Some(download->Ok_0)
            } else {
                None
            },
            second,
        ),
    ensures
        entry is Some && now_ms < entry->0.timestamp_ms + 43200000 ==> {
            &&& first == SourceStep::Done(entry->0.data)
            &&& source_outcome(entry, now_ms, download) == Ok::<SourceTokenList, Seq<char>>(
                entry->0.data,
            )
        },
        entry is None || now_ms >= entry->0.timestamp_ms + 43200000 ==> {
            &&& first matches SourceStep::Fetch { url, next } && url@ == source.url@
            &&& download is Ok ==> {
                &&& second matches SourceStep::StoreAndDone { key, data } && key@ == source.key@
                    && data == download->Ok_0
                &&& source_outcome(entry, now_ms, download) == download
            }
            &&& download is Err ==> {
                &&& second matches SourceStep::ReadStale { key } && key@ == source.key@
                &&& entry is Some ==> source_outcome(entry, now_ms, download) == Ok::<
                    SourceTokenList,
                    Seq<char>,
                >(entry->0.data)
                &&& entry is None ==> source_outcome(entry, now_ms, download) == download
            }
        },
{
}

/// What is left of a request to a server is the body of its answer, where that has the status
/// 200; any other status is an error that says which, and of which address.
pub proof fn only_good_answers_are_read(
    url: Seq<char>,
    status: u16,
    body: Seq<u8>,
    error: Seq<char>,
)
    ensures
        fetched(url, UpstreamModel::Answered { status: 200, body }) == Ok::<Seq<u8>, Seq<char>>(
            body,
        ),
        status != 200 ==> fetched(url, UpstreamModel::Answered { status, body }) == Err::<
            Seq<u8>,
            Seq<char>,
        >("HTTP "@ + decimal(status as nat) + " from "@ + url),
        fetched(url, UpstreamModel::Failed(error)) == Err::<Seq<u8>, Seq<char>>(error),
{
}

} // verus!

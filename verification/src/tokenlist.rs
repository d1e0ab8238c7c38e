//! `GET /tokenlist/<chainId>`: one token list for a chain, made of the lists of CoinGecko and
//! of Superfluid.

use vstd::prelude::*;
use vstd::utf8::encode_utf8;
use crate::cache::{any_data, entry_of, fresh_data, get_cached, get_stale, CacheEntry};
use crate::http::{no_headers, push_header, Reply, ReplyModel, Upstream, UpstreamModel};
use crate::json::{json_model, json_text, render, Fields, JsonModel};
use crate::text::{bytes_of, decimal, decimal_reads_back, owned, parse_u64, u64_numeral, u64_text};
use crate::timestamps::{iso_time, last_timestamp, later_of, seconds_of, timestamp_to_iso};
use crate::tokens::{
    find_network, merge_tokens, merged, network, AssetPlatform, SourceTokenList, TokenListResponse,
    Version,
};

verus! {

/// How long a token list is served from the cache: twelve hours.
pub const TOKEN_LIST_TTL_MS: u64 = 43200000;

/// How long the networks are taken from the cache: five days.
pub const PLATFORMS_TTL_MS: u64 = 432000000;

/// Where the token list of Superfluid is.
pub const SUPERFLUID_URL: &'static str = "https://raw.githubusercontent.com/superfluid-finance/tokenlist/main/superfluid.extended.tokenlist.json";

/// Where CoinGecko lists the networks.
pub const PLATFORMS_URL: &'static str = "https://api.coingecko.com/api/v3/asset_platforms";

/// An answer with a JSON text as its body. There is none where the value could not be
/// written.
pub open spec fn list_reply(status: u16, body: Option<Seq<char>>) -> ReplyModel {
    ReplyModel {
        status,
        headers: Seq::empty().push(("content-type"@, "application/json"@)).push(
            ("access-control-allow-origin"@, "*"@),
        ).push(("cache-control"@, "public, max-age=300, s-maxage=300"@)),
        body: encode_utf8(
            match body {
                Some(text) => text,
                None => "{\"error\":\"serialization failed\"}"@,
            },
        ),
    }
}

/// Makes an answer of the JSON text of a value, where the value could be written.
pub fn build_response(status: u16, body: Option<String>) -> (r: Reply)
    ensures
        r@ == list_reply(status, body.deep_view()),
{
    let text = match body {
        Some(text) => text,
        None => owned("{\"error\":\"serialization failed\"}"),
    };
    let mut headers = no_headers();
    push_header(&mut headers, "content-type", "application/json");
    push_header(&mut headers, "access-control-allow-origin", "*");
    push_header(&mut headers, "cache-control", "public, max-age=300, s-maxage=300");
    Reply { status, headers, body: bytes_of(text.as_str()) }
}

/// An answer with a JSON value as its body.
pub open spec fn value_reply(status: u16, body: JsonModel) -> ReplyModel {
    list_reply(status, Some(json_text(body)))
}

fn value_response(status: u16, body: &serde_json::Value) -> (r: Reply)
    ensures
        r@ == value_reply(status, json_model(*body)),
{
    build_response(status, Some(render(body)))
}

/// What is left of a request to `url`: the body of the answer, or what went wrong. Only an
/// answer with the status 200 is one.
pub open spec fn fetched(url: Seq<char>, upstream: UpstreamModel) -> Result<Seq<u8>, Seq<char>> {
    match upstream {
        UpstreamModel::Failed(e) => Err(e),
        UpstreamModel::Answered { status, body } => if status == 200 {
            Ok(body)
        } else {
            Err("HTTP "@ + decimal(status as nat) + " from "@ + url)
        },
    }
}

/// Takes the body of the answer of an upstream server.
pub fn fetch_json(url: &str, upstream: Upstream) -> (r: Result<Vec<u8>, String>)
    ensures
        match r {
            Ok(body) => fetched(url@, upstream@) == Ok::<Seq<u8>, Seq<char>>(body@),
            Err(e) => fetched(url@, upstream@) == Err::<Seq<u8>, Seq<char>>(e@),
        },
{
    match upstream {
        Upstream::Failed(e) => Err(e),
        Upstream::Answered { status, body } => {
            if status == 200 {
                Ok(body)
            } else {
                Err(
                    owned("HTTP ").concat(u64_text(status as u64).as_str()).concat(
                        " from ",
                    ).concat(url),
                )
            }
        },
    }
}

/// A token list that is fetched, and kept in the cache under a key.
pub struct Source {
    pub url: String,
    pub key: String,
}

/// What fetching a token list does next.
pub enum SourceStep {
    /// It is done.
    Done(SourceTokenList),
    /// It fetches the list.
    Fetch { url: String, next: FetchingSource },
    /// It stores the list in the cache and is done.
    StoreAndDone { key: String, data: SourceTokenList },
    /// It takes what the cache has, however old.
    ReadStale { key: String },
}

/// A token list that is being fetched.
pub struct FetchingSource {
    pub source: Source,
}

impl Source {
    /// Whether `step` is what follows on what the cache has: a fresh list is taken, otherwise
    /// the list is fetched.
    pub open spec fn goes_on(
        self,
        entry: Option<CacheEntry<SourceTokenList>>,
        now_ms: u64,
        step: SourceStep,
    ) -> bool {
        match fresh_data(entry, now_ms, TOKEN_LIST_TTL_MS) {
            Some(data) => step == SourceStep::Done(data),
            None => {
                &&& step matches SourceStep::Fetch { url, next }
                &&& url@ == self.url@
                &&& next.source == self
            },
        }
    }

    /// Starts to fetch a token list, with what the cache has under its key at the given time.
    pub fn fetch_with_cache(
        self,
        entry: Option<CacheEntry<SourceTokenList>>,
        now_ms: u64,
    ) -> (r: SourceStep)
        ensures
            self.goes_on(entry, now_ms, r),
    {
        match get_cached(entry, now_ms, TOKEN_LIST_TTL_MS) {
            Some(data) => SourceStep::Done(data),
            None => SourceStep::Fetch {
                url: owned(self.url.as_str()),
                next: FetchingSource { source: self },
            },
        }
    }
}

impl FetchingSource {
    /// Whether `step` is what follows on what was fetched: a list is stored, and where there
    /// is none what the cache has is better than nothing.
    pub open spec fn goes_on(self, data: Option<SourceTokenList>, step: SourceStep) -> bool {
        match data {
            Some(list) => {
                &&& step matches SourceStep::StoreAndDone { key, data: stored }
                &&& key@ == self.source.key@
                &&& stored == list
            },
            None => step matches SourceStep::ReadStale { key } && key@ == self.source.key@,
        }
    }

    /// Goes on with what was fetched.
    pub fn resume(self, data: Option<SourceTokenList>) -> (r: SourceStep)
        ensures
            self.goes_on(data, r),
    {
        match data {
            Some(data) => SourceStep::StoreAndDone { key: self.source.key, data },
            None => SourceStep::ReadStale { key: self.source.key },
        }
    }
}

/// What comes of a download that failed with `error`: what the cache has, however old, and
/// otherwise the error.
pub open spec fn stale_outcome(
    entry: Option<CacheEntry<SourceTokenList>>,
    error: Seq<char>,
) -> Result<SourceTokenList, Seq<char>> {
    match any_data(entry) {
        Some(data) => Ok(data),
        None => Err(error),
    }
}

/// Ends a download that failed, with what the cache has.
pub fn stale_or_error(entry: Option<CacheEntry<SourceTokenList>>, error: String) -> (r: Result<
    SourceTokenList,
    String,
>)
    ensures
        match r {
            Ok(data) => stale_outcome(entry, error@) == Ok::<SourceTokenList, Seq<char>>(data),
            Err(e) => stale_outcome(entry, error@) == Err::<SourceTokenList, Seq<char>>(e@),
        },
{
    match get_stale(entry) {
        Some(data) => Ok(data),
        None => Err(error),
    }
}

/// What comes of fetching a list with the help of the cache, from the entry under its key, the
/// time and the outcome of the download: a fresh entry, otherwise what was downloaded,
/// otherwise a stale entry, otherwise the error of the download.
pub open spec fn source_outcome(
    entry: Option<CacheEntry<SourceTokenList>>,
    now_ms: u64,
    download: Result<SourceTokenList, Seq<char>>,
) -> Result<SourceTokenList, Seq<char>> {
    match (fresh_data(entry, now_ms, TOKEN_LIST_TTL_MS), download) {
        (Some(data), _) => Ok(data),
        (None, Ok(data)) => Ok(data),
        (None, Err(e)) => stale_outcome(entry, e),
    }
}

/// The steps of fetching a list come to its outcome. A fresh entry ends it at once. Otherwise
/// the list is downloaded, what was downloaded is stored, and only a failed download reads the
/// cache once more, under the same key. An error comes out if and only if the download fails
/// and there is no entry.
pub proof fn fetching_comes_to_its_outcome(
    source: Source,
    entry: Option<CacheEntry<SourceTokenList>>,
    now_ms: u64,
    download: Result<SourceTokenList, Seq<char>>,
    first: SourceStep,
    second: SourceStep,
)
    requires
        source.goes_on(entry, now_ms, first),
        first matches SourceStep::Fetch { url, next } ==> next.goes_on(
            match download {
                Ok(data) => Some(data),
                Err(e) => None,
            },
            second,
        ),
    ensures
        match first {
            SourceStep::Done(data) => source_outcome(entry, now_ms, download) == Ok::<
                SourceTokenList,
                Seq<char>,
            >(data),
            SourceStep::Fetch { url, next } => {
                &&& url@ == source.url@
                &&& match second {
                    SourceStep::StoreAndDone { key, data } => {
                        &&& key@ == source.key@
                        &&& download == Ok::<SourceTokenList, Seq<char>>(data)
                        &&& source_outcome(entry, now_ms, download) == Ok::<
                            SourceTokenList,
                            Seq<char>,
                        >(data)
                    },
                    SourceStep::ReadStale { key } => {
                        &&& key@ == source.key@
                        &&& download matches Err(e)
                        &&& source_outcome(entry, now_ms, download) == stale_outcome(entry, e)
                    },
                    _ => false,
                }
            },
            _ => false,
        },
        source_outcome(entry, now_ms, download) is Err <==> download is Err && entry is None,
{
}

/// Whether `list` is the token list of a chain, made of the lists of the two sources.
pub open spec fn is_token_list(
    list: TokenListResponse,
    network_name: Seq<char>,
    chain_id: u64,
    coingecko: SourceTokenList,
    superfluid: SourceTokenList,
) -> bool {
    &&& list.name@ == "EVMcrispr Token List ("@ + network_name + ")"@
    &&& list.logo_uri@ == "https://evmcrispr.com/favicon.ico"@
    &&& list.timestamp@ == iso_time(
        later_of(
            seconds_of(coingecko.timestamp.deep_view()),
            seconds_of(superfluid.timestamp.deep_view()),
        ),
    )
    &&& list.tokens@ == merged(coingecko.tokens@, superfluid.tokens@, chain_id)
    &&& list.version == (Version { major: 1, minor: 0, patch: 0 })
}

/// Makes the token list of a chain.
pub fn token_list(
    network_name: &str,
    chain_id: u64,
    coingecko: SourceTokenList,
    superfluid: SourceTokenList,
) -> (r: TokenListResponse)
    ensures
        is_token_list(r, network_name@, chain_id, coingecko, superfluid),
{
    let last = last_timestamp(&coingecko.timestamp, &superfluid.timestamp);
    TokenListResponse {
        name: owned("EVMcrispr Token List (").concat(network_name).concat(")"),
        logo_uri: owned("https://evmcrispr.com/favicon.ico"),
        timestamp: timestamp_to_iso(last),
        tokens: merge_tokens(coingecko.tokens, superfluid.tokens, chain_id),
        version: Version { major: 1, minor: 0, patch: 0 },
    }
}

/// What a request for a token list does next.
#[allow(inconsistent_fields)]
pub enum TokenListStep {
    /// It answers.
    Respond(Reply),
    /// It answers with a token list, under the given status.
    RespondList { status: u16, list: TokenListResponse },
    /// It opens the cache.
    OpenStore { next: Opening },
    /// It reads a token list in the cache.
    ReadList { key: String, next: AfterList },
    /// It reads the networks in the cache.
    ReadPlatforms { key: String, next: AfterPlatforms },
    /// It fetches the networks.
    FetchPlatforms { url: String, next: FetchingPlatforms },
    /// It stores the networks in the cache and fetches the lists of the two sources.
    StorePlatforms { key: String, platforms: Vec<AssetPlatform>, next: Gathering },
    /// It fetches the lists of the two sources, each with the help of the cache.
    Gather(Gathering),
    /// It fetches the lists of the two sources without a cache.
    GatherUncached(UncachedGathering),
    /// It stores a token list in the cache, where there is one, and answers with it, under the
    /// given status.
    StoreAndRespondList { key: String, status: u16, list: TokenListResponse },
    /// It reads a token list in the cache that is better than an error.
    ReadStaleList { key: String, next: AfterFailure },
}

/// A request that waits for the cache to be opened.
pub struct Opening {
    pub chain_id: u64,
}

/// A request that waits for the cached token list.
pub struct AfterList {
    pub chain_id: u64,
}

/// A request that waits for the cached networks.
pub struct AfterPlatforms {
    pub chain_id: u64,
}

/// A request that waits for the networks.
pub enum FetchingPlatforms {
    Cached { chain_id: u64 },
    Uncached { chain_id: u64 },
}

/// A request that waits for the lists of the two sources.
pub struct Gathering {
    pub chain_id: u64,
    pub network_name: String,
    pub coingecko: Source,
    pub superfluid: Source,
}

/// A request that waits for the lists of the two sources, with no cache at hand.
pub struct UncachedGathering {
    pub chain_id: u64,
    pub network_name: String,
    pub coingecko_url: String,
    pub superfluid_url: String,
}

/// A request that failed and waits for what the cache has, however old.
pub struct AfterFailure {}

/// The key under which the token list of a chain is cached.
pub open spec fn list_key(chain_id: u64) -> Seq<char> {
    "tokenlist_"@ + decimal(chain_id as nat)
}

fn response_cache_key(chain_id: u64) -> (r: String)
    ensures
        r@ == list_key(chain_id),
{
    owned("tokenlist_").concat(u64_text(chain_id).as_str())
}

/// Where CoinGecko has the token list of a network.
pub open spec fn coingecko_list_url(network_id: Seq<char>) -> Seq<char> {
    "https://tokens.coingecko.com/"@ + network_id + "/all.json"@
}

fn coingecko_url(network_id: &str) -> (r: String)
    ensures
        r@ == coingecko_list_url(network_id@),
{
    owned("https://tokens.coingecko.com/").concat(network_id).concat("/all.json")
}

/// The answer to a request for something that is no chain.
pub open spec fn invalid_chain_reply(chain_id: Seq<char>) -> ReplyModel {
    value_reply(
        400,
        JsonModel::empty().with("error"@, JsonModel::Text("invalid chainId"@)).with(
            "chainId"@,
            JsonModel::Text(chain_id),
        ),
    )
}

/// Whether `step` is what a request for the token list of a chain does first.
pub open spec fn begins(chain_id: Seq<char>, step: TokenListStep) -> bool {
    match u64_numeral(chain_id, 10) {
        Some(id) if id > 0 => {
            &&& step matches TokenListStep::OpenStore { next }
            &&& next.chain_id == id
        },
        _ => step matches TokenListStep::Respond(reply) && reply@ == invalid_chain_reply(chain_id),
    }
}

/// Starts a request for a token list.
pub fn get_token_list(chain_id: &str) -> (r: TokenListStep)
    ensures
        begins(chain_id@, r),
{
    match parse_u64(chain_id) {
        Some(id) if id > 0 => TokenListStep::OpenStore { next: Opening { chain_id: id } },
        _ => {
            let body = Fields::new().with_text("error", "invalid chainId").with_text(
                "chainId",
                chain_id,
            ).build();
            TokenListStep::Respond(value_response(400, &body))
        },
    }
}

impl Opening {
    /// Whether `step` is what follows once the cache was opened, or could not be.
    pub open spec fn goes_on(self, opened: bool, step: TokenListStep) -> bool {
        if opened {
            &&& step matches TokenListStep::ReadList { key, next }
            &&& key@ == list_key(self.chain_id)
            &&& next.chain_id == self.chain_id
        } else {
            &&& step matches TokenListStep::FetchPlatforms { url, next }
            &&& url@ == PLATFORMS_URL@
            &&& next == (FetchingPlatforms::Uncached { chain_id: self.chain_id })
        }
    }

    /// Goes on once the cache was opened, or could not be.
    pub fn resume(self, opened: bool) -> (r: TokenListStep)
        ensures
            self.goes_on(opened, r),
    {
        if opened {
            TokenListStep::ReadList {
                key: response_cache_key(self.chain_id),
                next: AfterList { chain_id: self.chain_id },
            }
        } else {
            TokenListStep::FetchPlatforms {
                url: owned(PLATFORMS_URL),
                next: FetchingPlatforms::Uncached { chain_id: self.chain_id },
            }
        }
    }
}

impl AfterList {
    /// Whether `step` is what follows on the cached token list: a fresh one is the answer.
    pub open spec fn goes_on(
        self,
        entry: Option<CacheEntry<TokenListResponse>>,
        now_ms: u64,
        step: TokenListStep,
    ) -> bool {
        match fresh_data(entry, now_ms, TOKEN_LIST_TTL_MS) {
            Some(list) => step == (TokenListStep::RespondList { status: 200, list }),
            None => {
                &&& step matches TokenListStep::ReadPlatforms { key, next }
                &&& key@ == "platforms"@
                &&& next.chain_id == self.chain_id
            },
        }
    }

    /// Goes on with what the cache has at the given time.
    pub fn resume(
        self,
        entry: Option<CacheEntry<TokenListResponse>>,
        now_ms: u64,
    ) -> (r: TokenListStep)
        ensures
            self.goes_on(entry, now_ms, r),
    {
        match get_cached(entry, now_ms, TOKEN_LIST_TTL_MS) {
            Some(list) => TokenListStep::RespondList { status: 200, list },
            None => TokenListStep::ReadPlatforms {
                key: owned("platforms"),
                next: AfterPlatforms { chain_id: self.chain_id },
            },
        }
    }
}

/// Whether `gathering` fetches the lists of the two sources for a network.
pub open spec fn gathers(
    gathering: Gathering,
    chain_id: u64,
    found: (Seq<char>, Seq<char>),
) -> bool {
    &&& gathering.chain_id == chain_id
    &&& gathering.network_name@ == found.0
    &&& gathering.coingecko.url@ == coingecko_list_url(found.1)
    &&& gathering.coingecko.key@ == "coingecko_"@ + found.1
    &&& gathering.superfluid.url@ == SUPERFLUID_URL@
    &&& gathering.superfluid.key@ == "superfluid"@
}

fn gathering(chain_id: u64, found: (String, String)) -> (r: Gathering)
    ensures
        gathers(r, chain_id, (found.0@, found.1@)),
{
    let (network_name, network_id) = found;
    Gathering {
        chain_id,
        network_name,
        coingecko: Source {
            url: coingecko_url(network_id.as_str()),
            key: owned("coingecko_").concat(network_id.as_str()),
        },
        superfluid: Source { url: owned(SUPERFLUID_URL), key: owned("superfluid") },
    }
}

/// The network of a chain in a list of networks, where there is a list.
pub open spec fn network_in(platforms: Option<Vec<AssetPlatform>>, chain_id: u64) -> Option<
    (Seq<char>, Seq<char>),
> {
    match platforms {
        Some(list) => network(list@, chain_id),
        None => None,
    }
}

impl AfterPlatforms {
    /// Whether `step` is what follows on the cached networks: the network of the chain is
    /// taken from a fresh list that has it, otherwise the networks are fetched.
    pub open spec fn goes_on(
        self,
        entry: Option<CacheEntry<Vec<AssetPlatform>>>,
        now_ms: u64,
        step: TokenListStep,
    ) -> bool {
        match network_in(fresh_data(entry, now_ms, PLATFORMS_TTL_MS), self.chain_id) {
            Some(found) => step matches TokenListStep::Gather(g) && gathers(
                g,
                self.chain_id,
                found,
            ),
            None => {
                &&& step matches TokenListStep::FetchPlatforms { url, next }
                &&& url@ == PLATFORMS_URL@
                &&& next == (FetchingPlatforms::Cached { chain_id: self.chain_id })
            },
        }
    }

    /// Goes on with what the cache has at the given time.
    pub fn resolve_network(
        self,
        entry: Option<CacheEntry<Vec<AssetPlatform>>>,
        now_ms: u64,
    ) -> (r: TokenListStep)
        ensures
            self.goes_on(entry, now_ms, r),
    {
        if let Some(platforms) = get_cached(entry, now_ms, PLATFORMS_TTL_MS) {
            if let Some(found) = find_network(platforms.as_slice(), self.chain_id) {
                return TokenListStep::Gather(gathering(self.chain_id, found));
            }
        }
        TokenListStep::FetchPlatforms {
            url: owned(PLATFORMS_URL),
            next: FetchingPlatforms::Cached { chain_id: self.chain_id },
        }
    }
}

/// Whether `step` looks for a token list that is better than an error.
pub open spec fn falls_back(step: TokenListStep, chain_id: u64) -> bool {
    step matches TokenListStep::ReadStaleList { key, next } && key@ == list_key(chain_id)
}

fn fall_back(chain_id: u64) -> (r: TokenListStep)
    ensures
        falls_back(r, chain_id),
{
    TokenListStep::ReadStaleList { key: response_cache_key(chain_id), next: AfterFailure {  } }
}

/// The answer to a request for a chain of which no network is known.
pub open spec fn unsupported_reply(chain_id: u64) -> ReplyModel {
    value_reply(
        400,
        JsonModel::empty().with(
            "error"@,
            JsonModel::Text("unsupported chainId: "@ + decimal(chain_id as nat)),
        ),
    )
}

impl FetchingPlatforms {
    /// Whether `step` is what follows on the networks. Networks that have that of the chain
    /// are stored, where there is a cache, and the lists of the two sources are fetched.
    /// Otherwise the request fails.
    pub open spec fn goes_on(
        self,
        platforms: Option<Vec<AssetPlatform>>,
        step: TokenListStep,
    ) -> bool {
        match self {
            FetchingPlatforms::Cached { chain_id } => match network_in(platforms, chain_id) {
                Some(found) => {
                    &&& step matches TokenListStep::StorePlatforms { key, platforms: stored, next }
                    &&& key@ == "platforms"@
                    &&& Some(stored) == platforms
                    &&& gathers(next, chain_id, found)
                },
                None => falls_back(step, chain_id),
            },
            FetchingPlatforms::Uncached { chain_id } => match network_in(platforms, chain_id) {
                Some(found) => {
                    &&& step matches TokenListStep::GatherUncached(g)
                    &&& g.chain_id == chain_id
                    &&& g.network_name@ == found.0
                    &&& g.coingecko_url@ == coingecko_list_url(found.1)
                    &&& g.superfluid_url@ == SUPERFLUID_URL@
                },
                None => step matches TokenListStep::Respond(reply) && reply@ == unsupported_reply(
                    chain_id,
                ),
            },
        }
    }

    /// Goes on with the networks, where they could be fetched.
    pub fn resume(self, platforms: Option<Vec<AssetPlatform>>) -> (r: TokenListStep)
        ensures
            self.goes_on(platforms, r),
    {
        match self {
            FetchingPlatforms::Cached { chain_id } => {
                if let Some(list) = platforms {
                    if let Some(found) = find_network(list.as_slice(), chain_id) {
                        return TokenListStep::StorePlatforms {
                            key: owned("platforms"),
                            platforms: list,
                            next: gathering(chain_id, found),
                        };
                    }
                }
                fall_back(chain_id)
            },
            FetchingPlatforms::Uncached { chain_id } => {
                if let Some(list) = platforms {
                    if let Some((network_name, network_id)) = find_network(
                        list.as_slice(),
                        chain_id,
                    ) {
                        return TokenListStep::GatherUncached(
                            UncachedGathering {
                                chain_id,
                                network_name,
                                coingecko_url: coingecko_url(network_id.as_str()),
                                superfluid_url: owned(SUPERFLUID_URL),
                            },
                        );
                    }
                }
                let error = owned("unsupported chainId: ").concat(u64_text(chain_id).as_str());
                let body = Fields::new().with_text("error", error.as_str()).build();
                TokenListStep::Respond(value_response(400, &body))
            },
        }
    }
}

/// Whether `step` stores the token list of a chain and answers with it.
pub open spec fn serves(
    step: TokenListStep,
    network_name: Seq<char>,
    chain_id: u64,
    coingecko: SourceTokenList,
    superfluid: SourceTokenList,
) -> bool {
    &&& step matches TokenListStep::StoreAndRespondList { key, status, list }
    &&& key@ == list_key(chain_id)
    &&& status == 200
    &&& is_token_list(list, network_name, chain_id, coingecko, superfluid)
}

impl Gathering {
    /// Whether `step` is what follows on the lists of the two sources: where there are both,
    /// the token list is made of them, otherwise the request fails.
    pub open spec fn goes_on(
        self,
        coingecko: Option<SourceTokenList>,
        superfluid: Option<SourceTokenList>,
        step: TokenListStep,
    ) -> bool {
        match (coingecko, superfluid) {
            (Some(c), Some(s)) => serves(step, self.network_name@, self.chain_id, c, s),
            _ => falls_back(step, self.chain_id),
        }
    }

    /// Goes on with the lists of the two sources, where they could be had.
    pub fn build_and_cache_token_list(
        self,
        coingecko: Option<SourceTokenList>,
        superfluid: Option<SourceTokenList>,
    ) -> (r: TokenListStep)
        ensures
            self.goes_on(coingecko, superfluid, r),
    {
        match (coingecko, superfluid) {
            (Some(c), Some(s)) => TokenListStep::StoreAndRespondList {
                key: response_cache_key(self.chain_id),
                status: 200,
                list: token_list(self.network_name.as_str(), self.chain_id, c, s),
            },
            _ => fall_back(self.chain_id),
        }
    }
}

/// Whether a list is `fetched`, or an empty one where there is none.
pub open spec fn is_or_empty(list: SourceTokenList, fetched: Option<SourceTokenList>) -> bool {
    match fetched {
        Some(l) => list == l,
        None => list.tokens@.len() == 0 && list.timestamp is None,
    }
}

fn or_empty(fetched: Option<SourceTokenList>) -> (r: SourceTokenList)
    ensures
        is_or_empty(r, fetched),
{
    match fetched {
        Some(list) => list,
        None => SourceTokenList { tokens: Vec::new(), timestamp: None },
    }
}

impl UncachedGathering {
    /// Whether `step` is what follows on the lists of the two sources: the token list is made
    /// of those that there are.
    pub open spec fn goes_on(
        self,
        coingecko: Option<SourceTokenList>,
        superfluid: Option<SourceTokenList>,
        step: TokenListStep,
    ) -> bool {
        exists|c: SourceTokenList, s: SourceTokenList|
            {
                &&& #[trigger] is_or_empty(c, coingecko)
                &&& #[trigger] is_or_empty(s, superfluid)
                &&& serves(step, self.network_name@, self.chain_id, c, s)
            }
    }

    /// Goes on with the lists of the two sources, where they could be had.
    pub fn build_token_list_without_cache(
        self,
        coingecko: Option<SourceTokenList>,
        superfluid: Option<SourceTokenList>,
    ) -> (r: TokenListStep)
        ensures
            self.goes_on(coingecko, superfluid, r),
    {
        let c = or_empty(coingecko);
        let s = or_empty(superfluid);
        let step = TokenListStep::StoreAndRespondList {
            key: response_cache_key(self.chain_id),
            status: 200,
            list: token_list(self.network_name.as_str(), self.chain_id, c, s),
        };
        proof {
            assert(serves(step, self.network_name@, self.chain_id, c, s));
        }
        step
    }
}

/// The answer where there is neither a token list nor a cached one.
pub open spec fn failed_reply() -> ReplyModel {
    value_reply(
        502,
        JsonModel::empty().with(
            "error"@,
            JsonModel::Text("failed to fetch token lists and no cache available"@),
        ),
    )
}

impl AfterFailure {
    /// Whether `step` is what follows on what the cache has: a list, however old, is better
    /// than an error.
    pub open spec fn goes_on(
        self,
        entry: Option<CacheEntry<TokenListResponse>>,
        step: TokenListStep,
    ) -> bool {
        match any_data(entry) {
            Some(list) => step == (TokenListStep::RespondList { status: 200, list }),
            None => step matches TokenListStep::Respond(reply) && reply@ == failed_reply(),
        }
    }

    /// Goes on with what the cache has.
    pub fn resume(self, entry: Option<CacheEntry<TokenListResponse>>) -> (r: TokenListStep)
        ensures
            self.goes_on(entry, r),
    {
        match get_stale(entry) {
            Some(list) => TokenListStep::RespondList { status: 200, list },
            None => {
                let body = Fields::new().with_text(
                    "error",
                    "failed to fetch token lists and no cache available",
                ).build();
                TokenListStep::Respond(value_response(502, &body))
            },
        }
    }
}

/// Each chain has a key of its own in the cache.
pub proof fn keys_tell_chains_apart(one: u64, other: u64)
    ensures
        list_key(one) == list_key(other) <==> one == other,
{
    if list_key(one) == list_key(other) {
        let n = "tokenlist_"@.len() as int;
        assert(decimal(one as nat) =~= list_key(one).skip(n));
        assert(decimal(other as nat) =~= list_key(other).skip(n));
        decimal_reads_back(one);
        decimal_reads_back(other);
    }
}

/// A token list that was served is served again to a request for the same chain, until its
/// time in the cache is over.
pub proof fn served_lists_are_served_again(
    serving: TokenListStep,
    network_name: Seq<char>,
    chain_id: u64,
    coingecko: SourceTokenList,
    superfluid: SourceTokenList,
    opening: Opening,
    reading: TokenListStep,
    stored_ms: u64,
    now_ms: u64,
    step: TokenListStep,
)
    requires
        serves(serving, network_name, chain_id, coingecko, superfluid),
        opening.chain_id == chain_id,
        opening.goes_on(true, reading),
        now_ms < stored_ms + TOKEN_LIST_TTL_MS,
        serving matches TokenListStep::StoreAndRespondList { key, status, list }
            && reading matches TokenListStep::ReadList { key: read_key, next } ==> next.goes_on(
            Some(entry_of(list, stored_ms)),
            now_ms,
            step,
        ),
    ensures
        serving matches TokenListStep::StoreAndRespondList { key, status, list }
            && reading matches TokenListStep::ReadList { key: read_key, next } && key@ == read_key@
            && step == (TokenListStep::RespondList { status: 200, list }),
{
}

/// Where the network or a list of a source cannot be had, a request with a cache is answered
/// with the token list that is in the cache, however old.
pub proof fn failures_fall_back_on_the_cache(
    gathering: Gathering,
    coingecko: Option<SourceTokenList>,
    superfluid: Option<SourceTokenList>,
    fetching: FetchingPlatforms,
    platforms: Option<Vec<AssetPlatform>>,
    failed: TokenListStep,
    cached: CacheEntry<TokenListResponse>,
    step: TokenListStep,
)
    requires
        ({
            &&& coingecko is None || superfluid is None
            &&& gathering.goes_on(coingecko, superfluid, failed)
        }) || ({
            &&& fetching is Cached
            &&& network_in(platforms, fetching->Cached_chain_id) is None
            &&& fetching.goes_on(platforms, failed)
        }),
        failed matches TokenListStep::ReadStaleList { key, next } ==> next.goes_on(
            Some(cached),
            step,
        ),
    ensures
        failed is ReadStaleList,
        step == (TokenListStep::RespondList { status: 200, list: cached.data }),
{
}

/// A list that was fetched is kept under the key of its source: it is taken from there until
/// its time is over, and later where the list cannot be fetched.
pub proof fn fetched_lists_are_kept(
    source: Source,
    list: SourceTokenList,
    storing: SourceStep,
    stored_ms: u64,
    now_ms: u64,
    step: SourceStep,
    failing: SourceStep,
)
    requires
        (FetchingSource { source }).goes_on(Some(list), storing),
        source.goes_on(Some(entry_of(list, stored_ms)), now_ms, step),
        (FetchingSource { source }).goes_on(None, failing),
    ensures
        storing matches SourceStep::StoreAndDone { key, data } && key@ == source.key@ && data
            == list,
        now_ms < stored_ms + TOKEN_LIST_TTL_MS ==> step == SourceStep::Done(list),
        failing matches SourceStep::ReadStale { key } && key@ == source.key@,
        any_data(Some(entry_of(list, stored_ms))) == Some(list),
{
}

} // verus!

//! `GET /abi/<chainId>/<contractAddress>`: the ABI of a verified contract, from a cache,
//! from Etherscan, or from the Blockscout explorer of the chain.

use vstd::prelude::*;
use vstd::utf8::is_ascii_chars;
use crate::cache::{any_data, entry_of, fresh_data, get_cached, get_stale, CacheEntry};
use crate::http::{build_response, json_reply, Reply, ReplyModel};
use crate::json::{
    array_value, json_model, json_models, json_of_text, parse_text, Fields, JsonModel,
};
use crate::text::{
    all_digits, alphanumerics, ascii_lower, chars_of, digit_value, is_alphanumeric,
    keep_alphanumerics, owned, parse_u64, same, sanitize_err, sanitized, starts_with,
    to_lowercase, trim_hex_prefix, u64_numeral, without_leading,
};

verus! {

/// How long an ABI is served from the cache: a year, for an ABI does not change once its
/// contract is verified.
pub const ABI_TTL_MS: u64 = 31536000000;

/// Whether a text is an address: forty-two characters that begin with `0x`, with nothing but
/// hexadecimal digits behind the leading `0x`.
pub open spec fn valid_address(s: Seq<char>) -> bool {
    "0x"@.is_prefix_of(s) && s.len() == 42 && all_digits(without_leading(s, "0x"@), 16)
}

pub fn is_valid_address(addr: &str) -> (r: bool)
    ensures
        r == valid_address(addr@),
{
    let rest = trim_hex_prefix(addr);
    let x = chars_of(rest.as_str());
    let mut i: usize = 0;
    while i < x.len()
        invariant
            i <= x.len(),
            x@ == without_leading(addr@, "0x"@),
            forall|j: int| 0 <= j < i ==> (#[trigger] digit_value(x@[j], 16)) is Some,
        decreases x.len() - i,
    {
        let c = x[i];
        if !(('0' <= c && c <= '9') || ('a' <= c && c <= 'f') || ('A' <= c && c <= 'F')) {
            proof {
                assert(digit_value(x@[i as int], 16) is None);
            }
            return false;
        }
        i += 1;
    }
    starts_with(addr, "0x") && addr.unicode_len() == 42
}

proof fn lemma_hex_is_ascii(s: Seq<char>)
    requires
        all_digits(without_leading(s, "0x"@), 16),
    ensures
        is_ascii_chars(s),
    decreases s.len(),
{
    reveal_strlit("0x");
    if "0x"@.is_prefix_of(s) {
        lemma_hex_is_ascii(s.skip(2));
        assert forall|i: int| 0 <= i < s.len() implies '\0' <= (#[trigger] s[i]) <= '\u{7f}' by {
            if i < 2 {
                assert(s[i] == s.subrange(0, 2)[i]);
            } else {
                assert(s[i] == s.skip(2)[i - 2]);
            }
        }
    } else {
        assert forall|i: int| 0 <= i < s.len() implies '\0' <= (#[trigger] s[i]) <= '\u{7f}' by {
            assert(digit_value(s[i], 16) is Some);
        }
    }
}

/// Whether a text is the number of a chain.
pub open spec fn valid_chain_id(s: Seq<char>) -> bool {
    u64_numeral(s, 10) is Some
}

pub fn is_valid_chain_id(chain_id: &str) -> (r: bool)
    ensures
        r == valid_chain_id(chain_id@),
{
    parse_u64(chain_id).is_some()
}

/// Where Etherscan gives the ABI of a contract. Of the key of the service, where there is
/// one, only letters and digits are sent.
pub open spec fn etherscan_url(
    chain_id: Seq<char>,
    address: Seq<char>,
    api_key: Option<Seq<char>>,
) -> Seq<char> {
    "https://api.etherscan.io/v2/api"@ + "?chainId="@ + chain_id
        + "&module=contract&action=getabi&address="@ + address + match api_key {
        Some(k) => "&apikey="@ + alphanumerics(k),
        None => ""@,
    }
}

pub fn etherscan_abi_url(chain_id: &str, address: &str, api_key: Option<String>) -> (r: String)
    ensures
        r@ == etherscan_url(chain_id@, address@, api_key.deep_view()),
{
    let url = owned("https://api.etherscan.io/v2/api").concat("?chainId=").concat(chain_id).concat(
        "&module=contract&action=getabi&address=",
    ).concat(address);
    let key = match api_key {
        Some(k) => owned("&apikey=").concat(keep_alphanumerics(k.as_str()).as_str()),
        None => owned(""),
    };
    url.concat(key.as_str())
}

/// Where a Blockscout explorer gives the ABI of a contract.
pub open spec fn blockscout_url(base_url: Seq<char>, address: Seq<char>) -> Seq<char> {
    base_url + "/api?module=contract&action=getabi&address="@ + address
}

pub fn blockscout_abi_url(base_url: &str, address: &str) -> (r: String)
    ensures
        r@ == blockscout_url(base_url@, address@),
{
    owned(base_url).concat("/api?module=contract&action=getabi&address=").concat(address)
}

/// The Blockscout explorer of a chain, where one is known.
pub open spec fn blockscout_of(chain_id: Seq<char>) -> Option<Seq<char>> {
    if chain_id == "1"@ {
        Some("https://eth.blockscout.com"@)
    } else if chain_id == "10"@ {
        Some("https://optimism.blockscout.com"@)
    } else if chain_id == "100"@ {
        Some("https://gnosis.blockscout.com"@)
    } else if chain_id == "42161"@ {
        Some("https://arbitrum.blockscout.com"@)
    } else if chain_id == "8453"@ {
        Some("https://base.blockscout.com"@)
    } else {
        None
    }
}

pub fn blockscout_base_url(chain_id: &str) -> (r: Option<&'static str>)
    ensures
        r.deep_view() == blockscout_of(chain_id@),
{
    if same(chain_id, "1") {
        Some("https://eth.blockscout.com")
    } else if same(chain_id, "10") {
        Some("https://optimism.blockscout.com")
    } else if same(chain_id, "100") {
        Some("https://gnosis.blockscout.com")
    } else if same(chain_id, "42161") {
        Some("https://arbitrum.blockscout.com")
    } else if same(chain_id, "8453") {
        Some("https://base.blockscout.com")
    } else {
        None
    }
}

/// What an explorer answers.
#[derive(Debug)]
pub struct ExplorerAbiResponse {
    pub status: String,
    pub message: String,
    pub result: String,
}

/// What came of a question to an explorer.
pub enum ExplorerReply {
    /// There was no answer.
    Failed(String),
    /// The answer was not the JSON of an explorer.
    Malformed(String),
    Answer(ExplorerAbiResponse),
}

/// Why an explorer has no ABI.
pub struct AbiMiss {
    pub provider: &'static str,
    pub message: String,
    pub details: String,
}

/// What an explorer has of an ABI.
pub enum AbiLookup {
    Found(serde_json::Value),
    NotFound(AbiMiss),
}

/// What an explorer has of an ABI, by what it holds.
pub enum LookupModel {
    Found(JsonModel),
    NotFound(MissModel),
}

/// Why an explorer has no ABI, by what it holds.
pub struct MissModel {
    pub provider: Seq<char>,
    pub message: Seq<char>,
    pub details: Seq<char>,
}

impl View for AbiMiss {
    type V = MissModel;

    open spec fn view(&self) -> MissModel {
        MissModel {
            provider: self.provider@,
            message: self.message@,
            details: self.details@,
        }
    }
}

impl View for AbiLookup {
    type V = LookupModel;

    open spec fn view(&self) -> LookupModel {
        match self {
            AbiLookup::Found(v) => LookupModel::Found(json_model(*v)),
            AbiLookup::NotFound(m) => LookupModel::NotFound(m@),
        }
    }
}

/// The contract that a request asks for: the number of a chain and an address on it.
pub struct Contract {
    chain_id: String,
    address: String,
}

/// A contract by what it holds.
pub struct ContractModel {
    pub chain_id: Seq<char>,
    pub address: Seq<char>,
}

impl View for Contract {
    type V = ContractModel;

    closed spec fn view(&self) -> ContractModel {
        ContractModel { chain_id: self.chain_id@, address: self.address@ }
    }
}

/// The key under which the ABI of a contract is cached.
pub open spec fn abi_key(contract: ContractModel) -> Seq<char> {
    "abi_"@ + contract.chain_id + "_"@ + ascii_lower(contract.address)
}

/// The answer that an explorer is of no use.
pub open spec fn provider_error(
    error: Seq<char>,
    provider: Seq<char>,
    contract: ContractModel,
    details: Seq<char>,
) -> ReplyModel {
    json_reply(
        502,
        JsonModel::empty().with("error"@, JsonModel::Text(error)).with(
            "provider"@,
            JsonModel::Text(provider),
        ).with("chainId"@, JsonModel::Text(contract.chain_id)).with(
            "address"@,
            JsonModel::Text(contract.address),
        ).with("details"@, JsonModel::Text(sanitized(details))),
    )
}

/// What the reply of an explorer comes to: what it has of the ABI, or the answer that it is
/// of no use.
pub open spec fn explorer_outcome(
    provider: Seq<char>,
    contract: ContractModel,
    reply: ExplorerReply,
) -> Result<LookupModel, ReplyModel> {
    match reply {
        ExplorerReply::Failed(e) => Err(
            provider_error("upstream request failed"@, provider, contract, e@),
        ),
        ExplorerReply::Malformed(e) => Err(
            provider_error("invalid upstream json"@, provider, contract, e@),
        ),
        ExplorerReply::Answer(a) => if a.status@ != "1"@ {
            Ok(
                LookupModel::NotFound(
                    MissModel { provider, message: a.message@, details: a.result@ },
                ),
            )
        } else {
            match json_of_text(a.result@) {
                Ok(abi) => Ok(LookupModel::Found(abi)),
                Err(e) => Err(provider_error("invalid abi json"@, provider, contract, e)),
            }
        },
    }
}

impl Contract {
    #[verifier::type_invariant]
    spec fn is_valid(self) -> bool {
        valid_address(self.address@) && valid_chain_id(self.chain_id@)
    }

    /// The contract at an address of a chain, where both are valid.
    pub fn new(chain_id: &str, address: &str) -> (r: Option<Contract>)
        ensures
            match r {
                Some(contract) => {
                    &&& valid_address(address@)
                    &&& valid_chain_id(chain_id@)
                    &&& contract@ == (ContractModel { chain_id: chain_id@, address: address@ })
                },
                None => !valid_address(address@) || !valid_chain_id(chain_id@),
            },
    {
        if !is_valid_address(address) || !is_valid_chain_id(chain_id) {
            return None;
        }
        Some(Contract { chain_id: owned(chain_id), address: owned(address) })
    }

    /// The key under which the ABI is cached. Letters of either case name the same address.
    pub fn cache_key(&self) -> (r: String)
        ensures
            r@ == abi_key(self@),
    {
        proof {
            use_type_invariant(self);
            lemma_hex_is_ascii(self.address@);
        }
        let lower = to_lowercase(self.address.as_str());
        owned("abi_").concat(self.chain_id.as_str()).concat("_").concat(lower.as_str())
    }

    fn provider_failure(&self, error: &str, provider: &str, details: &str) -> (r: Reply)
        ensures
            r@ == provider_error(error@, provider@, self@, details@),
    {
        let clean = sanitize_err(details);
        let body = Fields::new().with_text("error", error).with_text(
            "provider",
            provider,
        ).with_text("chainId", self.chain_id.as_str()).with_text(
            "address",
            self.address.as_str(),
        ).with_text("details", clean.as_str()).build();
        build_response(502, &body)
    }

    /// Reads the reply of an explorer.
    pub fn fetch_explorer_abi(&self, provider: &'static str, reply: ExplorerReply) -> (r: Result<
        AbiLookup,
        Reply,
    >)
        ensures
            match r {
                Ok(lookup) => explorer_outcome(provider@, self@, reply) == Ok::<
                    LookupModel,
                    ReplyModel,
                >(lookup@),
                Err(e) => explorer_outcome(provider@, self@, reply) == Err::<
                    LookupModel,
                    ReplyModel,
                >(e@),
            },
    {
        match reply {
            ExplorerReply::Failed(e) => Err(
                self.provider_failure("upstream request failed", provider, e.as_str()),
            ),
            ExplorerReply::Malformed(e) => Err(
                self.provider_failure("invalid upstream json", provider, e.as_str()),
            ),
            ExplorerReply::Answer(a) => {
                if !same(a.status.as_str(), "1") {
                    return Ok(
                        AbiLookup::NotFound(
                            AbiMiss { provider, message: a.message, details: a.result },
                        ),
                    );
                }
                self.read_abi(provider, parse_text(a.result.as_str()))
            },
        }
    }

    /// Takes the ABI that an explorer has, where its text is JSON.
    pub fn read_abi(&self, provider: &str, abi: Result<serde_json::Value, String>) -> (r: Result<
        AbiLookup,
        Reply,
    >)
        ensures
            match (r, abi) {
                (Ok(lookup), Ok(v)) => lookup@ == LookupModel::Found(json_model(v)),
                (Err(reply), Err(e)) => reply@ == provider_error(
                    "invalid abi json"@,
                    provider@,
                    self@,
                    e@,
                ),
                _ => false,
            },
    {
        match abi {
            Ok(v) => Ok(AbiLookup::Found(v)),
            Err(e) => Err(self.provider_failure("invalid abi json", provider, e.as_str())),
        }
    }
}

/// The JSON of a miss.
pub open spec fn miss_model(miss: MissModel) -> JsonModel {
    JsonModel::empty().with("provider"@, JsonModel::Text(miss.provider)).with(
        "error"@,
        JsonModel::Text(miss.message),
    ).with("details"@, JsonModel::Text(miss.details))
}

pub fn miss_json(miss: &AbiMiss) -> (r: serde_json::Value)
    ensures
        json_model(r) == miss_model(miss@),
{
    Fields::new().with_text("provider", miss.provider).with_text(
        "error",
        miss.message.as_str(),
    ).with_text("details", miss.details.as_str()).build()
}

/// What a request for an ABI does next.
#[allow(inconsistent_fields)]
pub enum AbiStep {
    /// It answers.
    Respond(Reply),
    /// It reads the cache, where there is one.
    ReadCache { key: String, next: AfterCache },
    /// It asks an explorer.
    Ask { url: String, next: AfterExplorer },
    /// It stores an ABI in the cache, where there is one, and answers.
    StoreAndRespond { key: String, abi: serde_json::Value, reply: Reply },
    /// It reads the cache once more for an answer that is better than an error.
    ReadStale { key: String, next: AfterStale },
}

/// A request that waits for the cache.
pub struct AfterCache {
    pub contract: Contract,
}

/// A request that waits for an explorer.
pub enum AfterExplorer {
    Etherscan { contract: Contract },
    Blockscout { contract: Contract, etherscan: AbiMiss },
}

/// A request that failed and waits for what the cache has, however old.
pub struct AfterStale {
    pub reply: Reply,
}

/// The answer to a request for something that is no contract.
pub open spec fn invalid_reply(chain_id: Seq<char>, address: Seq<char>) -> ReplyModel {
    json_reply(
        400,
        JsonModel::empty().with("error"@, JsonModel::Text("invalid address or chain id"@)).with(
            "chainId"@,
            JsonModel::Text(chain_id),
        ).with("address"@, JsonModel::Text(address)),
    )
}

/// Whether `step` is what a request for the ABI of a contract does first.
pub open spec fn begins(chain_id: Seq<char>, address: Seq<char>, step: AbiStep) -> bool {
    if valid_address(address) && valid_chain_id(chain_id) {
        &&& step matches AbiStep::ReadCache { key, next }
        &&& next.contract@ == (ContractModel { chain_id, address })
        &&& key@ == abi_key(next.contract@)
    } else {
        step matches AbiStep::Respond(reply) && reply@ == invalid_reply(chain_id, address)
    }
}

/// Starts a request for an ABI.
pub fn get_abi(chain_id: &str, address: &str) -> (r: AbiStep)
    ensures
        begins(chain_id@, address@, r),
{
    match Contract::new(chain_id, address) {
        Some(contract) => AbiStep::ReadCache {
            key: contract.cache_key(),
            next: AfterCache { contract },
        },
        None => {
            let body = Fields::new().with_text("error", "invalid address or chain id").with_text(
                "chainId",
                chain_id,
            ).with_text("address", address).build();
            AbiStep::Respond(build_response(400, &body))
        },
    }
}

impl AfterCache {
    /// Whether `step` is what follows on what the cache has: fresh data is the answer,
    /// otherwise Etherscan is asked.
    pub open spec fn goes_on(
        self,
        entry: Option<CacheEntry<serde_json::Value>>,
        now_ms: u64,
        api_key: Option<Seq<char>>,
        step: AbiStep,
    ) -> bool {
        match fresh_data(entry, now_ms, ABI_TTL_MS) {
            Some(abi) => step matches AbiStep::Respond(reply) && reply@ == json_reply(
                200,
                json_model(abi),
            ),
            None => {
                &&& step matches AbiStep::Ask { url, next }
                &&& url@ == etherscan_url(
                    self.contract@.chain_id,
                    self.contract@.address,
                    api_key,
                )
                &&& next == (AfterExplorer::Etherscan { contract: self.contract })
            },
        }
    }

    /// Goes on with what the cache has at the given time.
    pub fn resume(
        self,
        entry: Option<CacheEntry<serde_json::Value>>,
        now_ms: u64,
        api_key: Option<String>,
    ) -> (r: AbiStep)
        ensures
            self.goes_on(entry, now_ms, api_key.deep_view(), r),
    {
        match get_cached(entry, now_ms, ABI_TTL_MS) {
            Some(abi) => AbiStep::Respond(build_response(200, &abi)),
            None => AbiStep::Ask {
                url: etherscan_abi_url(
                    self.contract.chain_id.as_str(),
                    self.contract.address.as_str(),
                    api_key,
                ),
                next: AfterExplorer::Etherscan { contract: self.contract },
            },
        }
    }
}

/// The answer where no explorer but Etherscan is known for the chain.
pub open spec fn not_found_reply(contract: ContractModel, miss: MissModel) -> ReplyModel {
    json_reply(
        404,
        JsonModel::empty().with("error"@, JsonModel::Text(miss.message)).with(
            "details"@,
            JsonModel::Text(miss.details),
        ).with("chainId"@, JsonModel::Text(contract.chain_id)).with(
            "address"@,
            JsonModel::Text(contract.address),
        ).with("sources"@, JsonModel::Array(seq![miss_model(miss)])),
    )
}

/// The answer where neither explorer has the ABI.
pub open spec fn nowhere_found_reply(
    contract: ContractModel,
    etherscan: MissModel,
    blockscout: MissModel,
) -> ReplyModel {
    json_reply(
        404,
        JsonModel::empty().with("error"@, JsonModel::Text("abi not found"@)).with(
            "chainId"@,
            JsonModel::Text(contract.chain_id),
        ).with("address"@, JsonModel::Text(contract.address)).with(
            "sources"@,
            JsonModel::Array(seq![miss_model(etherscan), miss_model(blockscout)]),
        ),
    )
}

impl AfterExplorer {
    /// The contract that is asked for.
    pub open spec fn contract(self) -> ContractModel {
        match self {
            AfterExplorer::Etherscan { contract } => contract@,
            AfterExplorer::Blockscout { contract, etherscan } => contract@,
        }
    }

    /// The explorer that was asked.
    pub open spec fn provider(self) -> Seq<char> {
        match self {
            AfterExplorer::Etherscan { contract } => "etherscan"@,
            AfterExplorer::Blockscout { contract, etherscan } => "blockscout"@,
        }
    }

    /// Whether `step` is what follows on what the explorer has. An ABI is stored and is the
    /// answer; where an explorer is of no use, what the cache has is better than an error;
    /// where Etherscan has nothing, the Blockscout explorer of the chain is asked.
    pub open spec fn goes_on(
        self,
        outcome: Result<LookupModel, ReplyModel>,
        step: AbiStep,
    ) -> bool {
        let asked = self.contract();
        match outcome {
            Ok(LookupModel::Found(found)) => {
                &&& step matches AbiStep::StoreAndRespond { key, abi, reply }
                &&& key@ == abi_key(asked)
                &&& json_model(abi) == found
                &&& reply@ == json_reply(200, found)
            },
            Err(failure) => {
                &&& step matches AbiStep::ReadStale { key, next }
                &&& key@ == abi_key(asked)
                &&& next.reply@ == failure
            },
            Ok(LookupModel::NotFound(miss)) => match self {
                AfterExplorer::Etherscan { contract } => match blockscout_of(asked.chain_id) {
                    Some(base_url) => {
                        &&& step matches AbiStep::Ask { url, next }
                        &&& url@ == blockscout_url(base_url, asked.address)
                        &&& next matches AfterExplorer::Blockscout { contract: c, etherscan }
                        &&& c == contract
                        &&& etherscan@ == miss
                    },
                    None => step matches AbiStep::Respond(reply) && reply@ == not_found_reply(
                        asked,
                        miss,
                    ),
                },
                AfterExplorer::Blockscout { contract, etherscan } => step matches AbiStep::Respond(
                    reply,
                ) && reply@ == nowhere_found_reply(asked, etherscan@, miss),
            },
        }
    }

    /// Goes on with what an explorer replied.
    pub fn resume(self, reply: ExplorerReply) -> (r: AbiStep)
        ensures
            self.goes_on(explorer_outcome(self.provider(), self.contract(), reply), r),
    {
        let (contract, provider, earlier): (Contract, &'static str, Option<AbiMiss>) = match self {
            AfterExplorer::Etherscan { contract } => (contract, "etherscan", None),
            AfterExplorer::Blockscout { contract, etherscan } => (
                contract,
                "blockscout",
                Some(etherscan),
            ),
        };
        let outcome = contract.fetch_explorer_abi(provider, reply);
        let key = contract.cache_key();
        let miss = match outcome {
            Ok(AbiLookup::Found(abi)) => {
                let reply = build_response(200, &abi);
                return AbiStep::StoreAndRespond { key, abi, reply };
            },
            Err(reply) => {
                return AbiStep::ReadStale { key, next: AfterStale { reply } };
            },
            Ok(AbiLookup::NotFound(miss)) => miss,
        };
        match earlier {
            Some(etherscan) => {
                let mut sources: Vec<serde_json::Value> = Vec::new();
                sources.push(miss_json(&etherscan));
                sources.push(miss_json(&miss));
                proof {
                    assert(json_models(sources@) =~= seq![
                        miss_model(etherscan@),
                        miss_model(miss@),
                    ]);
                }
                let body = Fields::new().with_text("error", "abi not found").with_text(
                    "chainId",
                    contract.chain_id.as_str(),
                ).with_text("address", contract.address.as_str()).with(
                    "sources",
                    array_value(sources),
                ).build();
                AbiStep::Respond(build_response(404, &body))
            },
            None => match blockscout_base_url(contract.chain_id.as_str()) {
                Some(base_url) => AbiStep::Ask {
                    url: blockscout_abi_url(base_url, contract.address.as_str()),
                    next: AfterExplorer::Blockscout { contract, etherscan: miss },
                },
                None => {
                    let mut sources: Vec<serde_json::Value> = Vec::new();
                    sources.push(miss_json(&miss));
                    proof {
                        assert(json_models(sources@) =~= seq![miss_model(miss@)]);
                    }
                    let body = Fields::new().with_text("error", miss.message.as_str()).with_text(
                        "details",
                        miss.details.as_str(),
                    ).with_text("chainId", contract.chain_id.as_str()).with_text(
                        "address",
                        contract.address.as_str(),
                    ).with("sources", array_value(sources)).build();
                    AbiStep::Respond(build_response(404, &body))
                },
            },
        }
    }
}

impl AfterStale {
    /// The answer: what the cache has, however old, and otherwise the error.
    pub open spec fn reply_or_stale(
        self,
        entry: Option<CacheEntry<serde_json::Value>>,
    ) -> ReplyModel {
        match any_data(entry) {
            Some(abi) => json_reply(200, json_model(abi)),
            None => self.reply@,
        }
    }

    /// Answers with what the cache has, however old, and otherwise with the error.
    pub fn response_or_stale(self, entry: Option<CacheEntry<serde_json::Value>>) -> (r: Reply)
        ensures
            r@ == self.reply_or_stale(entry),
    {
        match get_stale(entry) {
            Some(abi) => build_response(200, &abi),
            None => self.reply,
        }
    }
}

/// Two valid contracts share a key in the cache if and only if their chains are the same and
/// their addresses differ in the case of letters at most.
pub proof fn keys_tell_contracts_apart(one: ContractModel, other: ContractModel)
    requires
        valid_address(one.address),
        valid_address(other.address),
    ensures
        abi_key(one) == abi_key(other) <==> one.chain_id == other.chain_id && ascii_lower(
            one.address,
        ) == ascii_lower(other.address),
{
    if abi_key(one) == abi_key(other) {
        let n = "abi_"@.len() as int;
        let k = abi_key(one);
        let l = abi_key(other);
        assert(k.len() == n + one.chain_id.len() + "_"@.len() + 42);
        assert(l.len() == n + other.chain_id.len() + "_"@.len() + 42);
        assert(one.chain_id =~= k.subrange(n, n + one.chain_id.len()));
        assert(other.chain_id =~= l.subrange(n, n + other.chain_id.len()));
        assert(ascii_lower(one.address) =~= k.subrange(k.len() - 42, k.len() as int));
        assert(ascii_lower(other.address) =~= l.subrange(l.len() - 42, l.len() as int));
    }
}

/// Once an explorer has had the ABI of a contract, a request for the same contract, with the
/// letters of its address in whatever case, is answered with it out of the cache, until the
/// entry has reached its age.
pub proof fn found_abis_are_served_from_the_cache(
    asking: AfterExplorer,
    found: JsonModel,
    storing: AbiStep,
    address: Seq<char>,
    later: AbiStep,
    stored_ms: u64,
    now_ms: u64,
    api_key: Option<Seq<char>>,
    step: AbiStep,
)
    requires
        asking.goes_on(Ok(LookupModel::Found(found)), storing),
        valid_address(address),
        valid_chain_id(asking.contract().chain_id),
        ascii_lower(address) == ascii_lower(asking.contract().address),
        begins(asking.contract().chain_id, address, later),
        now_ms < stored_ms + ABI_TTL_MS,
        later matches AbiStep::ReadCache { key, next } && storing matches AbiStep::StoreAndRespond {
            key: stored_key,
            abi,
            reply,
        } ==> next.goes_on(Some(entry_of(abi, stored_ms)), now_ms, api_key, step),
    ensures
        storing is StoreAndRespond,
        later is ReadCache,
        later->ReadCache_key@ == storing->StoreAndRespond_key@,
        step matches AbiStep::Respond(reply) && reply@ == storing->reply@ && reply@ == json_reply(
            200,
            found,
        ),
{
}

/// A second explorer is asked only where Etherscan had nothing, and none after it.
pub proof fn blockscout_is_asked_after_etherscan(
    asking: AfterExplorer,
    outcome: Result<LookupModel, ReplyModel>,
    step: AbiStep,
)
    requires
        asking.goes_on(outcome, step),
        step is Ask,
    ensures
        asking is Etherscan,
        outcome matches Ok(LookupModel::NotFound(miss)),
        blockscout_of(asking.contract().chain_id) is Some,
        step matches AbiStep::Ask { url, next } && next is Blockscout && next.contract()
            == asking.contract(),
{
}

/// The key of the service adds letters and digits to the address that is asked, and nothing
/// else.
pub proof fn api_keys_add_letters_and_digits(
    chain_id: Seq<char>,
    address: Seq<char>,
    api_key: Seq<char>,
)
    ensures
        etherscan_url(chain_id, address, Some(api_key)) == etherscan_url(chain_id, address, None)
            + "&apikey="@ + alphanumerics(api_key),
        forall|i: int|
            0 <= i < alphanumerics(api_key).len() ==> is_alphanumeric(
                #[trigger] alphanumerics(api_key)[i],
            ),
{
    reveal_strlit("");
    let keep = |c: char| is_alphanumeric(c);
    assert forall|i: int| 0 <= i < alphanumerics(api_key).len() implies is_alphanumeric(
        #[trigger] alphanumerics(api_key)[i],
    ) by {
        api_key.lemma_filter_pred(keep, i);
    }
    assert(etherscan_url(chain_id, address, Some(api_key)) =~= etherscan_url(
        chain_id,
        address,
        None,
    ) + "&apikey="@ + alphanumerics(api_key));
}

} // verus!

//! What a request for an ABI promises: it asks the explorers for its own contract, and it comes
//! to the answer that they give.

use vstd::prelude::*;
use crate::abi::{
    begins, etherscan_url, explorer_outcome, valid_address, AbiStep, AfterCache, AfterExplorer,
    ExplorerAbiResponse, ExplorerReply, MissModel,
};
use crate::cache::CacheEntry;
use crate::json::{json_model, json_of_text, JsonModel};
use crate::laws::answers::{answers, cleaned, lemma_cleaned, lemma_json_headers};
use crate::text::{
    all_digits, alphanumerics, ascii_lower, digit_value, u64_numeral, without_leading,
};

verus! {

/// Whether a character is a hexadecimal digit.
pub open spec fn is_hex(c: char) -> bool {
    '0' <= c <= '9' || 'a' <= c <= 'f' || 'A' <= c <= 'F'
}

/// Whether a text is `0x` and forty hexadecimal digits behind it.
pub open spec fn is_address(s: Seq<char>) -> bool {
    &&& s.len() == 42
    &&& s[0] == '0'
    &&& s[1] == 'x'
    &&& forall|i: int| 2 <= i < 42 ==> is_hex(#[trigger] s[i])
}

proof fn lemma_address(s: Seq<char>)
    ensures
        is_address(s) ==> valid_address(s),
        valid_address(s) ==> s.len() == 42 && s[0] == '0' && s[1] == 'x',
        valid_address(s) ==> forall|i: int|
            2 <= i < 42 ==> is_hex(#[trigger] s[i]) || s[i] == 'x',
{
    reveal_strlit("0x");
    if is_address(s) {
        assert("0x"@ =~= s.subrange(0, 2));
        let rest = s.skip(2);
        assert(rest[1] == s[3]);
        if "0x"@.is_prefix_of(rest) {
            assert("0x"@[1] == rest.subrange(0, 2)[1]);
        }
        assert(without_leading(rest, "0x"@) == rest);
        assert(without_leading(s, "0x"@) == rest);
        assert forall|i: int| 0 <= i < rest.len() implies (#[trigger] digit_value(
            rest[i],
            16,
        )) is Some by {
            assert(rest[i] == s[i + 2]);
        }
    }
    if valid_address(s) {
        assert(s.subrange(0, 2)[0] == "0x"@[0]);
        assert(s.subrange(0, 2)[1] == "0x"@[1]);
        lemma_hex_behind(s);
    }
}

proof fn lemma_hex_behind(s: Seq<char>)
    requires
        all_digits(without_leading(s, "0x"@), 16),
    ensures
        forall|i: int| 0 <= i < s.len() ==> is_hex(#[trigger] s[i]) || s[i] == 'x',
    decreases s.len(),
{
    reveal_strlit("0x");
    if "0x"@.is_prefix_of(s) {
        lemma_hex_behind(s.skip(2));
        assert forall|i: int| 0 <= i < s.len() implies is_hex(#[trigger] s[i]) || s[i] == 'x' by {
            if i < 2 {
                assert(s[i] == s.subrange(0, 2)[i]);
            } else {
                assert(s[i] == s.skip(2)[i - 2]);
            }
        }
    } else {
        assert forall|i: int| 0 <= i < s.len() implies is_hex(#[trigger] s[i]) || s[i] == 'x' by {
            assert(digit_value(s[i], 16) is Some);
        }
    }
}

/// A request for something else than a contract is answered 400 and what it asked for: where the
/// chain is no number, or where the address does not have `0x` in front, has not its length, or
/// holds something that is neither a hexadecimal digit nor a further `x`.
pub proof fn requests_for_no_contract_are_refused(
    chain_id: Seq<char>,
    address: Seq<char>,
    step: AbiStep,
)
    requires
        begins(chain_id, address, step),
        u64_numeral(chain_id, 10) is None || address.len() != 42 || address[0] != '0' || address[1]
            != 'x' || exists|i: int|
            2 <= i < 42 && !is_hex(#[trigger] address[i]) && address[i] != 'x',
    ensures
        step matches AbiStep::Respond(reply) && answers(
            reply@,
            400,
            JsonModel::Object(
                map![
                    "error"@ => JsonModel::Text("invalid address or chain id"@),
                    "chainId"@ => JsonModel::Text(chain_id),
                    "address"@ => JsonModel::Text(address)
                ],
            ),
        ),
{
    lemma_address(address);
    lemma_json_headers();
    let m = map![
        "error"@ => JsonModel::Text("invalid address or chain id"@),
        "chainId"@ => JsonModel::Text(chain_id),
        "address"@ => JsonModel::Text(address)
    ];
    assert(m =~= Map::empty().insert(
        "error"@,
        JsonModel::Text("invalid address or chain id"@),
    ).insert("chainId"@, JsonModel::Text(chain_id)).insert("address"@, JsonModel::Text(address)))
        by {
        lemma_keys();
    }
}

proof fn lemma_keys()
    ensures
        "error"@ != "chainId"@,
        "error"@ != "address"@,
        "error"@ != "details"@,
        "error"@ != "provider"@,
        "error"@ != "sources"@,
        "chainId"@ != "address"@,
        "chainId"@ != "details"@,
        "chainId"@ != "provider"@,
        "chainId"@ != "sources"@,
        "address"@ != "details"@,
        "address"@ != "provider"@,
        "address"@ != "sources"@,
        "details"@ != "provider"@,
        "details"@ != "sources"@,
        "provider"@ != "sources"@,
{
    reveal_strlit("error");
    reveal_strlit("chainId");
    reveal_strlit("address");
    reveal_strlit("details");
    reveal_strlit("provider");
    reveal_strlit("sources");
    assert("error"@[0] == 'e' && "chainId"@[0] == 'c' && "address"@[0] == 'a' && "details"@[0]
        == 'd' && "provider"@[0] == 'p' && "sources"@[0] == 's');
}

/// The characters of a key that are sent: ASCII letters and digits.
pub open spec fn sent_key(key: Seq<char>) -> Seq<char> {
    key.filter(|c: char| 'a' <= c <= 'z' || 'A' <= c <= 'Z' || '0' <= c <= '9')
}

proof fn lemma_sent_key(key: Seq<char>)
    ensures
        alphanumerics(key) == sent_key(key),
    decreases key.len(),
{
    reveal(Seq::filter);
    if key.len() > 0 {
        lemma_sent_key(key.drop_last());
    }
}

/// The question to Etherscan for a contract.
pub open spec fn question(
    chain_id: Seq<char>,
    address: Seq<char>,
    api_key: Option<Seq<char>>,
) -> Seq<char> {
    let url = "https://api.etherscan.io/v2/api?chainId="@ + chain_id
        + "&module=contract&action=getabi&address="@ + address;
    if api_key is Some {
        url + "&apikey="@ + sent_key(api_key->0)
    } else {
        url
    }
}

proof fn lemma_question(chain_id: Seq<char>, address: Seq<char>, api_key: Option<Seq<char>>)
    ensures
        etherscan_url(chain_id, address, api_key) == question(chain_id, address, api_key),
{
    reveal_strlit("");
    reveal_strlit("https://api.etherscan.io/v2/api?chainId=");
    reveal_strlit("https://api.etherscan.io/v2/api");
    reveal_strlit("?chainId=");
    assert("https://api.etherscan.io/v2/api?chainId="@ =~= "https://api.etherscan.io/v2/api"@
        + "?chainId="@);
    if api_key is Some {
        lemma_sent_key(api_key->0);
    }
    assert(etherscan_url(chain_id, address, api_key) =~= question(chain_id, address, api_key));
}

/// A request for a contract looks it up in the cache, under its chain and its address with small
/// letters, and where the cache has nothing of it that is younger than a year, it asks Etherscan
/// for the chain and the address of the request itself.
pub proof fn requests_ask_for_their_own_contract(
    chain_id: Seq<char>,
    address: Seq<char>,
    first: AbiStep,
    entry: Option<CacheEntry<serde_json::Value>>,
    now_ms: u64,
    api_key: Option<Seq<char>>,
    step: AbiStep,
)
    requires
        is_address(address),
        u64_numeral(chain_id, 10) is Some,
        begins(chain_id, address, first),
        first matches AbiStep::ReadCache { key, next } ==> next.goes_on(
            entry,
            now_ms,
            api_key,
            step,
        ),
        entry matches Some(e) ==> now_ms >= e.timestamp_ms + 31536000000,
    ensures
        first matches AbiStep::ReadCache { key, next } && key@ == "abi_"@ + chain_id + "_"@
            + ascii_lower(address),
        step matches AbiStep::Ask { url, next } && {
            &&& url@ == question(chain_id, address, api_key)
            &&& next matches AfterExplorer::Etherscan { contract }
            &&& contract@.chain_id == chain_id
            &&& contract@.address == address
        },
{
    lemma_address(address);
    lemma_question(chain_id, address, api_key);
}

/// Requests for two different chains, or for two different addresses, ask two different
/// questions.
pub proof fn requests_for_two_contracts_differ(
    one: (Seq<char>, Seq<char>),
    other: (Seq<char>, Seq<char>),
    api_key: Option<Seq<char>>,
    first_one: AbiStep,
    first_other: AbiStep,
    now_ms: u64,
    step_one: AbiStep,
    step_other: AbiStep,
)
    requires
        is_address(one.1),
        is_address(other.1),
        u64_numeral(one.0, 10) is Some,
        u64_numeral(other.0, 10) is Some,
        one != other,
        begins(one.0, one.1, first_one),
        begins(other.0, other.1, first_other),
        first_one matches AbiStep::ReadCache { key, next } ==> next.goes_on(
            None,
            now_ms,
            api_key,
            step_one,
        ),
        first_other matches AbiStep::ReadCache { key, next } ==> next.goes_on(
            None,
            now_ms,
            api_key,
            step_other,
        ),
    ensures
        step_one matches AbiStep::Ask { url: a, next: m } && step_other matches AbiStep::Ask {
            url: b,
            next: n,
        } && a@ != b@,
{
    requests_ask_for_their_own_contract(
        one.0,
        one.1,
        first_one,
        None,
        now_ms,
        api_key,
        step_one,
    );
    requests_ask_for_their_own_contract(
        other.0,
        other.1,
        first_other,
        None,
        now_ms,
        api_key,
        step_other,
    );
    let a = question(one.0, one.1, api_key);
    let b = question(other.0, other.1, api_key);
    if a == b {
        let n = "https://api.etherscan.io/v2/api?chainId="@.len() as int;
        let m = "&module=contract&action=getabi&address="@.len() as int;
        let k = one.0.len() as int;
        assert(a.len() == b.len());
        assert(other.0.len() == k);
        assert(one.0 =~= a.subrange(n, n + k));
        assert(other.0 =~= b.subrange(n, n + k));
        assert(one.1 =~= a.subrange(n + k + m, n + k + m + 42));
        assert(other.1 =~= b.subrange(n + k + m, n + k + m + 42));
    }
}

/// What the cache has of a contract and is younger than a year is the answer, as it stands.
pub proof fn cached_abis_are_served_for_a_year(
    next: AfterCache,
    entry: CacheEntry<serde_json::Value>,
    now_ms: u64,
    api_key: Option<Seq<char>>,
    step: AbiStep,
)
    requires
        next.goes_on(Some(entry), now_ms, api_key, step),
        now_ms < entry.timestamp_ms + 31536000000,
    ensures
        step matches AbiStep::Respond(reply) && answers(reply@, 200, json_model(entry.data)),
{
    lemma_json_headers();
}

/// Whether a question was put to the explorer of a name, for a contract.
pub open spec fn asks_of(
    asking: AfterExplorer,
    explorer: Seq<char>,
    chain_id: Seq<char>,
    address: Seq<char>,
) -> bool {
    match asking {
        AfterExplorer::Etherscan { contract } => explorer == "etherscan"@ && contract@.chain_id
            == chain_id && contract@.address == address,
        AfterExplorer::Blockscout { contract, etherscan } => explorer == "blockscout"@
            && contract@.chain_id == chain_id && contract@.address == address,
    }
}

/// Where either explorer has the ABI, it is stored under the contract and is the answer, as the
/// explorer gave it.
pub proof fn abis_of_explorers_are_served(
    asking: AfterExplorer,
    explorer: Seq<char>,
    chain_id: Seq<char>,
    address: Seq<char>,
    answer: ExplorerAbiResponse,
    found: JsonModel,
    step: AbiStep,
)
    requires
        asks_of(asking, explorer, chain_id, address),
        asking.goes_on(
            explorer_outcome(
                asking.provider(),
                asking.contract(),
                ExplorerReply::Answer(answer),
            ),
            step,
        ),
        answer.status@ == "1"@,
        json_of_text(answer.result@) == Ok::<JsonModel, Seq<char>>(found),
    ensures
        step matches AbiStep::StoreAndRespond { key, abi, reply } && {
            &&& key@ == "abi_"@ + chain_id + "_"@ + ascii_lower(address)
            &&& json_model(abi) == found
            &&& answers(reply@, 200, found)
        },
{
    lemma_json_headers();
}

/// What an explorer says that has no ABI, in an answer.
pub open spec fn miss_value(
    provider: Seq<char>,
    message: Seq<char>,
    details: Seq<char>,
) -> JsonModel {
    JsonModel::Object(
        map![
            "provider"@ => JsonModel::Text(provider),
            "error"@ => JsonModel::Text(message),
            "details"@ => JsonModel::Text(details)
        ],
    )
}

/// Where a chain has its explorer besides Etherscan.
pub open spec fn second_explorer(chain_id: Seq<char>, base: Seq<char>) -> bool {
    ||| chain_id == "1"@ && base == "https://eth.blockscout.com"@
    ||| chain_id == "10"@ && base == "https://optimism.blockscout.com"@
    ||| chain_id == "100"@ && base == "https://gnosis.blockscout.com"@
    ||| chain_id == "42161"@ && base == "https://arbitrum.blockscout.com"@
    ||| chain_id == "8453"@ && base == "https://base.blockscout.com"@
}

/// Where Etherscan has no ABI, the Blockscout explorer of the chain is asked for the same
/// contract; on a chain without one the answer is 404 and what Etherscan said.
pub proof fn misses_of_etherscan_go_on(
    asking: AfterExplorer,
    chain_id: Seq<char>,
    address: Seq<char>,
    answer: ExplorerAbiResponse,
    step: AbiStep,
    base: Seq<char>,
)
    requires
        asks_of(asking, "etherscan"@, chain_id, address),
        asking is Etherscan,
        asking.goes_on(
            explorer_outcome(
                asking.provider(),
                asking.contract(),
                ExplorerReply::Answer(answer),
            ),
            step,
        ),
        answer.status@ != "1"@,
    ensures
        second_explorer(chain_id, base) ==> (step matches AbiStep::Ask { url, next } && {
            &&& url@ == base + "/api?module=contract&action=getabi&address="@ + address
            &&& asks_of(next, "blockscout"@, chain_id, address)
            &&& next matches AfterExplorer::Blockscout { contract, etherscan }
            &&& etherscan.provider@ == "etherscan"@
            &&& etherscan.message@ == answer.message@
            &&& etherscan.details@ == answer.result@
        }),
        (forall|b: Seq<char>| !#[trigger] second_explorer(chain_id, b)) ==> (
        step matches AbiStep::Respond(reply) && answers(
            reply@,
            404,
            JsonModel::Object(
                map![
                    "error"@ => JsonModel::Text(answer.message@),
                    "details"@ => JsonModel::Text(answer.result@),
                    "chainId"@ => JsonModel::Text(chain_id),
                    "address"@ => JsonModel::Text(address),
                    "sources"@ => JsonModel::Array(
                        seq![miss_value("etherscan"@, answer.message@, answer.result@)],
                    )
                ],
            ),
        )),
{
    lemma_keys();
    lemma_chains();
    lemma_json_headers();
    lemma_miss("etherscan"@, answer.message@, answer.result@);
    if forall|b: Seq<char>| !#[trigger] second_explorer(chain_id, b) {
        assert(!second_explorer(chain_id, "https://eth.blockscout.com"@));
        assert(!second_explorer(chain_id, "https://optimism.blockscout.com"@));
        assert(!second_explorer(chain_id, "https://gnosis.blockscout.com"@));
        assert(!second_explorer(chain_id, "https://arbitrum.blockscout.com"@));
        assert(!second_explorer(chain_id, "https://base.blockscout.com"@));
        let sources = JsonModel::Array(
            seq![miss_value("etherscan"@, answer.message@, answer.result@)],
        );
        let m = map![
            "error"@ => JsonModel::Text(answer.message@),
            "details"@ => JsonModel::Text(answer.result@),
            "chainId"@ => JsonModel::Text(chain_id),
            "address"@ => JsonModel::Text(address),
            "sources"@ => sources
        ];
        assert(m =~= Map::empty().insert("error"@, JsonModel::Text(answer.message@)).insert(
            "details"@,
            JsonModel::Text(answer.result@),
        ).insert("chainId"@, JsonModel::Text(chain_id)).insert(
            "address"@,
            JsonModel::Text(address),
        ).insert("sources"@, sources));
    }
}

proof fn lemma_miss(provider: Seq<char>, message: Seq<char>, details: Seq<char>)
    ensures
        crate::abi::miss_model(MissModel { provider, message, details }) == miss_value(
            provider,
            message,
            details,
        ),
{
    lemma_keys();
    assert(crate::abi::miss_model(MissModel { provider, message, details })->Object_0
        =~= miss_value(provider, message, details)->Object_0);
}

proof fn lemma_chains()
    ensures
        "1"@ != "10"@,
        "1"@ != "100"@,
        "1"@ != "42161"@,
        "1"@ != "8453"@,
        "10"@ != "100"@,
        "10"@ != "42161"@,
        "10"@ != "8453"@,
        "100"@ != "42161"@,
        "100"@ != "8453"@,
        "42161"@ != "8453"@,
{
    reveal_strlit("1");
    reveal_strlit("10");
    reveal_strlit("100");
    reveal_strlit("42161");
    reveal_strlit("8453");
    assert("1"@.len() == 1 && "10"@.len() == 2 && "100"@.len() == 3 && "42161"@.len() == 5
        && "8453"@.len() == 4);
}

/// Where neither explorer has the ABI, the answer is 404 and what each of them said.
pub proof fn misses_of_both_explorers_are_told(
    asking: AfterExplorer,
    chain_id: Seq<char>,
    address: Seq<char>,
    answer: ExplorerAbiResponse,
    step: AbiStep,
)
    requires
        asks_of(asking, "blockscout"@, chain_id, address),
        asking is Blockscout,
        asking.goes_on(
            explorer_outcome(
                asking.provider(),
                asking.contract(),
                ExplorerReply::Answer(answer),
            ),
            step,
        ),
        answer.status@ != "1"@,
    ensures
        asking matches AfterExplorer::Blockscout { contract, etherscan } && (
        step matches AbiStep::Respond(reply) && answers(
            reply@,
            404,
            JsonModel::Object(
                map![
                    "error"@ => JsonModel::Text("abi not found"@),
                    "chainId"@ => JsonModel::Text(chain_id),
                    "address"@ => JsonModel::Text(address),
                    "sources"@ => JsonModel::Array(
                        seq![
                            miss_value(
                                etherscan.provider@,
                                etherscan.message@,
                                etherscan.details@,
                            ),
                            miss_value("blockscout"@, answer.message@, answer.result@),
                        ],
                    )
                ],
            ),
        )),
{
    lemma_keys();
    lemma_json_headers();
    if let AfterExplorer::Blockscout { contract, etherscan } = asking {
        lemma_miss(etherscan.provider@, etherscan.message@, etherscan.details@);
        lemma_miss("blockscout"@, answer.message@, answer.result@);
        let sources = JsonModel::Array(
            seq![
                miss_value(etherscan.provider@, etherscan.message@, etherscan.details@),
                miss_value("blockscout"@, answer.message@, answer.result@),
            ],
        );
        let m = map![
            "error"@ => JsonModel::Text("abi not found"@),
            "chainId"@ => JsonModel::Text(chain_id),
            "address"@ => JsonModel::Text(address),
            "sources"@ => sources
        ];
        assert(m =~= Map::empty().insert("error"@, JsonModel::Text("abi not found"@)).insert(
            "chainId"@,
            JsonModel::Text(chain_id),
        ).insert("address"@, JsonModel::Text(address)).insert("sources"@, sources));
    }
}

/// Where an explorer is of no use, the cache is read once more: what it has, however old, is the
/// answer, and otherwise 502 with what went wrong, of which explorer, for which contract.
pub proof fn failures_of_explorers_fall_back(
    asking: AfterExplorer,
    explorer: Seq<char>,
    chain_id: Seq<char>,
    address: Seq<char>,
    reply: ExplorerReply,
    error: Seq<char>,
    details: Seq<char>,
    step: AbiStep,
    entry: Option<CacheEntry<serde_json::Value>>,
)
    requires
        asks_of(asking, explorer, chain_id, address),
        asking.goes_on(explorer_outcome(asking.provider(), asking.contract(), reply), step),
        match reply {
            ExplorerReply::Failed(e) => error == "upstream request failed"@ && details == e@,
            ExplorerReply::Malformed(e) => error == "invalid upstream json"@ && details == e@,
            ExplorerReply::Answer(a) => error == "invalid abi json"@ && a.status@ == "1"@
                && json_of_text(a.result@) == Err::<JsonModel, Seq<char>>(details),
        },
    ensures
        step matches AbiStep::ReadStale { key, next } && {
            &&& key@ == "abi_"@ + chain_id + "_"@ + ascii_lower(address)
            &&& entry matches Some(e) ==> answers(
                next.reply_or_stale(entry),
                200,
                json_model(e.data),
            )
            &&& entry is None ==> answers(
                next.reply_or_stale(entry),
                502,
                JsonModel::Object(
                    map![
                        "error"@ => JsonModel::Text(error),
                        "provider"@ => JsonModel::Text(explorer),
                        "chainId"@ => JsonModel::Text(chain_id),
                        "address"@ => JsonModel::Text(address),
                        "details"@ => JsonModel::Text(cleaned(details))
                    ],
                ),
            )
        },
{
    lemma_keys();
    lemma_json_headers();
    lemma_cleaned(details);
    let m = map![
        "error"@ => JsonModel::Text(error),
        "provider"@ => JsonModel::Text(explorer),
        "chainId"@ => JsonModel::Text(chain_id),
        "address"@ => JsonModel::Text(address),
        "details"@ => JsonModel::Text(cleaned(details))
    ];
    assert(m =~= Map::empty().insert("error"@, JsonModel::Text(error)).insert(
        "provider"@,
        JsonModel::Text(explorer),
    ).insert("chainId"@, JsonModel::Text(chain_id)).insert(
        "address"@,
        JsonModel::Text(address),
    ).insert("details"@, JsonModel::Text(cleaned(details))));
}

} // verus!

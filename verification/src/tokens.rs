//! Token lists: the lists of the sources, and the one list that is made of them.

use std::collections::HashMap;
use vstd::hash_set::StringHashSet;
use vstd::prelude::*;
use crate::text::{lowercase, owned, to_lowercase};

verus! {

/// A network as CoinGecko lists it.
#[derive(Debug)]
pub struct AssetPlatform {
    pub id: String,
    pub chain_identifier: Option<i64>,
    pub name: String,
}

/// A token. What a source says of it beyond the usual is kept in `extra`.
#[derive(Debug, Clone)]
pub struct Token {
    pub address: String,
    pub chain_id: u64,
    pub name: String,
    pub symbol: String,
    pub decimals: u32,
    pub logo_uri: Option<String>,
    pub extra: HashMap<String, serde_json::Value>,
}

/// The token list of a source.
#[derive(Debug)]
pub struct SourceTokenList {
    pub tokens: Vec<Token>,
    pub timestamp: Option<String>,
}

#[derive(Debug)]
pub struct Version {
    pub major: u32,
    pub minor: u32,
    pub patch: u32,
}

/// The token list that is served.
#[derive(Debug)]
pub struct TokenListResponse {
    pub name: String,
    pub logo_uri: String,
    pub timestamp: String,
    pub tokens: Vec<Token>,
    pub version: Version,
}

/// A number with its bits read as those of a signed number.
pub open spec fn as_signed(n: u64) -> int {
    if n <= i64::MAX {
        n as int
    } else {
        n - 0x1_0000_0000_0000_0000
    }
}

/// Whether a network is that of a chain.
pub open spec fn is_network(platform: AssetPlatform, chain_id: u64) -> bool {
    platform.chain_identifier matches Some(id) && id == as_signed(chain_id)
}

/// The name and the id of the first network of a chain.
pub open spec fn network(platforms: Seq<AssetPlatform>, chain_id: u64) -> Option<
    (Seq<char>, Seq<char>),
>
    decreases platforms.len(),
{
    if platforms.len() == 0 {
        None
    } else if is_network(platforms[0], chain_id) {
        Some((platforms[0].name@, platforms[0].id@))
    } else {
        network(platforms.skip(1), chain_id)
    }
}

/// Finds the network of a chain.
pub fn find_network(platforms: &[AssetPlatform], chain_id: u64) -> (r: Option<(String, String)>)
    ensures
        r.deep_view() == network(platforms@, chain_id),
{
    let id: i64 = chain_id as i64;
    proof {
        assert(chain_id <= 0x7fff_ffff_ffff_ffff ==> chain_id as i64 == chain_id) by (bit_vector);
        assert(chain_id > 0x7fff_ffff_ffff_ffff ==> chain_id as i64 == chain_id
            - 0x1_0000_0000_0000_0000) by (bit_vector);
        assert(platforms@.skip(0) =~= platforms@);
    }
    let mut i: usize = 0;
    while i < platforms.len()
        invariant
            i <= platforms@.len(),
            id == as_signed(chain_id),
            network(platforms@, chain_id) == network(platforms@.skip(i as int), chain_id),
        decreases platforms@.len() - i,
    {
        proof {
            assert(platforms@.skip(i as int)[0] == platforms@[i as int]);
            assert(platforms@.skip(i as int).skip(1) =~= platforms@.skip(i + 1));
        }
        if let Some(n) = platforms[i].chain_identifier {
            if n == id {
                return Some((owned(platforms[i].name.as_str()), owned(platforms[i].id.as_str())));
            }
        }
        i += 1;
    }
    None
}

/// A network is found if and only if there is one of the chain, and it is the first such.
pub proof fn networks_are_found(platforms: Seq<AssetPlatform>, chain_id: u64)
    ensures
        network(platforms, chain_id) is None <==> forall|i: int|
            0 <= i < platforms.len() ==> !is_network(#[trigger] platforms[i], chain_id),
        forall|i: int|
            0 <= i < platforms.len() && is_network(#[trigger] platforms[i], chain_id) && (forall|
                k: int,
            |
                0 <= k < i ==> !is_network(#[trigger] platforms[k], chain_id)) ==> network(
                platforms,
                chain_id,
            ) == Some((platforms[i].name@, platforms[i].id@)),
    decreases platforms.len(),
{
    if platforms.len() > 0 {
        let rest = platforms.skip(1);
        networks_are_found(rest, chain_id);
        assert(forall|i: int| 0 <= i < rest.len() ==> #[trigger] rest[i] == platforms[i + 1]);
        assert(forall|i: int|
            1 <= i < platforms.len() ==> #[trigger] platforms[i] == rest[i - 1]);
        if is_network(platforms[0], chain_id) {
        } else {
            assert forall|i: int|
                0 <= i < platforms.len() && is_network(#[trigger] platforms[i], chain_id) && (
                forall|k: int|
                    0 <= k < i ==> !is_network(
                        #[trigger] platforms[k],
                        chain_id,
                    )) implies network(platforms, chain_id) == Some(
                (platforms[i].name@, platforms[i].id@),
            ) by {
                assert(is_network(rest[i - 1], chain_id));
                assert forall|k: int| 0 <= k < i - 1 implies !is_network(
                    #[trigger] rest[k],
                    chain_id,
                ) by {
                    assert(rest[k] == platforms[k + 1]);
                }
            }
        }
    }
}

/// The addresses of tokens in lower case.
pub open spec fn lowered(tokens: Seq<Token>) -> Seq<Seq<char>> {
    tokens.map_values(|t: Token| lowercase(t.address@))
}

fn lowered_addresses(tokens: &Vec<Token>) -> (r: Vec<String>)
    ensures
        r.deep_view() == lowered(tokens@),
{
    let mut out: Vec<String> = Vec::new();
    let mut i: usize = 0;
    proof {
        assert(out.deep_view() =~= lowered(tokens@).take(0));
    }
    while i < tokens.len()
        invariant
            i <= tokens@.len(),
            out.deep_view() == lowered(tokens@).take(i as int),
        decreases tokens@.len() - i,
    {
        let ghost before = out.deep_view();
        out.push(to_lowercase(tokens[i].address.as_str()));
        proof {
            assert(out.deep_view() =~= before.push(lowered(tokens@)[i as int]));
            assert(before.push(lowered(tokens@)[i as int]) =~= lowered(tokens@).take(i + 1));
        }
        i += 1;
    }
    proof {
        assert(lowered(tokens@).take(tokens@.len() as int) =~= lowered(tokens@));
    }
    out
}

/// Tokens, each with its address in lower case.
pub open spec fn with_lowered(tokens: Seq<Token>) -> Seq<(Token, Seq<char>)> {
    tokens.map_values(|t: Token| (t, lowercase(t.address@)))
}

fn with_lowered_addresses(tokens: Vec<Token>) -> (r: Vec<(Token, String)>)
    ensures
        pair_models(r@) == with_lowered(tokens@),
{
    let ghost list = tokens@;
    let mut out: Vec<(Token, String)> = Vec::new();
    for token in it: tokens.into_iter()
        invariant
            it.seq() == list,
            pair_models(out@) == with_lowered(list).take(it.index()),
    {
        let ghost before = out@;
        let address = to_lowercase(token.address.as_str());
        out.push((token, address));
        proof {
            assert(pair_models(out@) =~= pair_models(before).push((token, address@)));
            assert(pair_models(out@) =~= with_lowered(list).take(it.index() + 1));
        }
    }
    proof {
        assert(with_lowered(list).take(list.len() as int) =~= with_lowered(list));
    }
    out
}

/// Tokens with an address each, by what they hold.
pub open spec fn pair_models(list: Seq<(Token, String)>) -> Seq<(Token, Seq<char>)> {
    list.map_values(|p: (Token, String)| (p.0, p.1@))
}

/// Whether the token at `j` of a second list is added to a first one that has the addresses
/// `taken`: it is of the chain and has an address, and neither the first list nor an earlier
/// token of the chain has the same one.
pub open spec fn is_added(
    taken: Seq<Seq<char>>,
    more: Seq<(Token, Seq<char>)>,
    chain_id: u64,
    j: int,
) -> bool {
    &&& more[j].0.chain_id == chain_id
    &&& more[j].1.len() > 0
    &&& !taken.contains(more[j].1)
    &&& forall|k: int|
        0 <= k < j && (#[trigger] more[k]).0.chain_id == chain_id ==> more[k].1 != more[j].1
}

/// The positions among the first `n` tokens of a second list that are added to a first one.
pub open spec fn added_positions(
    taken: Seq<Seq<char>>,
    more: Seq<(Token, Seq<char>)>,
    chain_id: u64,
    n: nat,
) -> Seq<int> {
    Seq::new(n, |j: int| j).filter(|j: int| is_added(taken, more, chain_id, j))
}

/// The tokens of a second list that are added to a first one, in their order.
pub open spec fn added(
    taken: Seq<Seq<char>>,
    more: Seq<(Token, Seq<char>)>,
    chain_id: u64,
) -> Seq<Token> {
    added_positions(taken, more, chain_id, more.len()).map_values(|j: int| more[j].0)
}

/// Whether an address is taken once the first `n` tokens of the second list have been looked
/// at.
spec fn is_seen(
    taken: Seq<Seq<char>>,
    more: Seq<(Token, Seq<char>)>,
    chain_id: u64,
    n: int,
    address: Seq<char>,
) -> bool {
    taken.contains(address) || exists|k: int|
        0 <= k < n && (#[trigger] more[k]).0.chain_id == chain_id && more[k].1 == address
            && address.len() > 0
}

proof fn lemma_next_position(
    taken: Seq<Seq<char>>,
    more: Seq<(Token, Seq<char>)>,
    chain_id: u64,
    n: nat,
)
    ensures
        added_positions(taken, more, chain_id, n + 1) == if is_added(
            taken,
            more,
            chain_id,
            n as int,
        ) {
            added_positions(taken, more, chain_id, n).push(n as int)
        } else {
            added_positions(taken, more, chain_id, n)
        },
{
    reveal(Seq::filter);
    let all = Seq::new((n + 1) as nat, |j: int| j);
    assert(all.drop_last() =~= Seq::new(n, |j: int| j));
}

fn all_of(list: Vec<String>) -> (r: StringHashSet)
    ensures
        forall|s: Seq<char>| #[trigger] r@.contains(s) <==> list.deep_view().contains(s),
{
    let ghost texts = list.deep_view();
    let mut out = StringHashSet::new();
    for text in it: list.into_iter()
        invariant
            texts == it.seq().map_values(|s: String| s@),
            forall|s: Seq<char>| #[trigger]
                out@.contains(s) <==> texts.take(it.index()).contains(s),
    {
        let ghost i = it.index();
        let ghost a = text@;
        let ghost before = out@;
        out.insert(text);
        proof {
            assert(texts[i] == a);
            assert(texts.take(i + 1) =~= texts.take(i).push(a));
            assert forall|s: Seq<char>| #[trigger] out@.contains(s) <==> texts.take(
                i + 1,
            ).contains(s) by {
                assert(out@.contains(s) == (before.contains(s) || s == a));
                if texts.take(i).contains(s) {
                    let k = choose|k: int| 0 <= k < i && texts.take(i)[k] == s;
                    assert(texts.take(i).push(a)[k] == s);
                }
                if s == a {
                    assert(texts.take(i).push(a)[i] == s);
                }
            }
        }
    }
    proof {
        assert(texts.take(texts.len() as int) =~= texts);
    }
    out
}

/// Adds to a first list, which has the addresses `taken`, those tokens of a second one that
/// are of the chain and new.
pub fn add_new_tokens(
    tokens: &mut Vec<Token>,
    taken: Vec<String>,
    more: Vec<(Token, String)>,
    chain_id: u64,
)
    ensures
        final(tokens)@ == old(tokens)@ + added(taken.deep_view(), pair_models(more@), chain_id),
{
    let ghost before = tokens@;
    let ghost first = taken.deep_view();
    let ghost second = pair_models(more@);
    let ghost count = more@.len();
    let mut seen = all_of(taken);
    proof {
        reveal(Seq::filter);
        assert(tokens@ =~= before + added_positions(first, second, chain_id, 0).map_values(
            |j: int| second[j].0,
        ));
    }
    for pair in it: more.into_iter()
        invariant
            pair_models(it.seq()) == second,
            it.seq().len() == count,
            forall|s: Seq<char>| #[trigger]
                seen@.contains(s) <==> is_seen(first, second, chain_id, it.index(), s),
            tokens@ == before + added_positions(
                first,
                second,
                chain_id,
                it.index() as nat,
            ).map_values(|j: int| second[j].0),
    {
        let ghost i = it.index();
        let ghost old_seen = seen@;
        let ghost old_tokens = tokens@;
        let (token, address) = pair;
        let ghost a = address@;
        let ghost positions = added_positions(first, second, chain_id, i as nat);
        proof {
            assert(second[i] == (token, a));
            lemma_next_position(first, second, chain_id, i as nat);
            assert(seen@.contains(a) <==> is_seen(first, second, chain_id, i, a));
        }
        if token.chain_id == chain_id && !address.as_str().is_empty() {
            if seen.insert(address) {
                proof {
                    assert(is_added(first, second, chain_id, i));
                }
                tokens.push(token);
                proof {
                    assert(positions.push(i).map_values(|j: int| second[j].0)
                        =~= positions.map_values(|j: int| second[j].0).push(token));
                    assert(tokens@ =~= before + positions.push(i).map_values(
                        |j: int| second[j].0,
                    ));
                }
            }
        }
        proof {
            assert forall|s: Seq<char>| #[trigger] seen@.contains(s) <==> is_seen(
                first,
                second,
                chain_id,
                i + 1,
                s,
            ) by {
                assert(old_seen.contains(s) <==> is_seen(first, second, chain_id, i, s));
                if s == a && second[i].0.chain_id == chain_id && s.len() > 0 {
                    assert(is_seen(first, second, chain_id, i + 1, s));
                }
                if is_seen(first, second, chain_id, i, s) && !first.contains(s) {
                    let k = choose|k: int|
                        0 <= k < i && (#[trigger] second[k]).0.chain_id == chain_id && second[k].1
                            == s && s.len() > 0;
                    assert(is_seen(first, second, chain_id, i + 1, s));
                }
            }
        }
    }
}

/// The tokens of CoinGecko, and behind them those of Superfluid that are of the chain and
/// new. Addresses are the same where they are the same in lower case.
pub open spec fn merged(
    coingecko: Seq<Token>,
    superfluid: Seq<Token>,
    chain_id: u64,
) -> Seq<Token> {
    coingecko + added(lowered(coingecko), with_lowered(superfluid), chain_id)
}

/// Merges the tokens of CoinGecko and of Superfluid.
pub fn merge_tokens(coingecko: Vec<Token>, superfluid: Vec<Token>, chain_id: u64) -> (r: Vec<Token>)
    ensures
        r@ == merged(coingecko@, superfluid@, chain_id),
{
    let mut tokens = coingecko;
    let taken = lowered_addresses(&tokens);
    let more = with_lowered_addresses(superfluid);
    add_new_tokens(&mut tokens, taken, more, chain_id);
    tokens
}

pub(crate) proof fn lemma_positions(
    taken: Seq<Seq<char>>,
    more: Seq<(Token, Seq<char>)>,
    chain_id: u64,
    n: nat,
)
    ensures
        forall|i: int|
            0 <= i < added_positions(taken, more, chain_id, n).len() ==> {
                &&& 0 <= #[trigger] added_positions(taken, more, chain_id, n)[i] < n
                &&& is_added(taken, more, chain_id, added_positions(taken, more, chain_id, n)[i])
            },
        forall|i: int, k: int|
            0 <= i < k < added_positions(taken, more, chain_id, n).len()
                ==> #[trigger] added_positions(taken, more, chain_id, n)[i]
                < #[trigger] added_positions(taken, more, chain_id, n)[k],
        forall|j: int|
            0 <= j < n && #[trigger] is_added(taken, more, chain_id, j) ==> added_positions(
                taken,
                more,
                chain_id,
                n,
            ).contains(j),
    decreases n,
{
    reveal(Seq::filter);
    if n > 0 {
        let m = (n - 1) as nat;
        lemma_positions(taken, more, chain_id, m);
        lemma_next_position(taken, more, chain_id, m);
        let before = added_positions(taken, more, chain_id, m);
        let after = added_positions(taken, more, chain_id, n);
        assert forall|j: int|
            0 <= j < n && #[trigger] is_added(taken, more, chain_id, j) implies after.contains(
            j,
        ) by {
            if j < m {
                let i = choose|i: int| 0 <= i < before.len() && before[i] == j;
                assert(after[i] == j);
            } else {
                assert(after[after.len() - 1] == j);
            }
        }
    }
}

/// The merged list begins with the tokens of CoinGecko, all of them and as they are.
pub proof fn coingecko_comes_first(coingecko: Seq<Token>, superfluid: Seq<Token>, chain_id: u64)
    ensures
        coingecko.is_prefix_of(merged(coingecko, superfluid, chain_id)),
{
}

/// A token that comes behind those of CoinGecko is a token of Superfluid on the chain, with
/// an address, and no token before it in the merged list has the same address.
pub proof fn added_tokens_are_new(
    coingecko: Seq<Token>,
    superfluid: Seq<Token>,
    chain_id: u64,
    i: int,
)
    requires
        coingecko.len() <= i < merged(coingecko, superfluid, chain_id).len(),
    ensures
        superfluid.contains(merged(coingecko, superfluid, chain_id)[i]),
        merged(coingecko, superfluid, chain_id)[i].chain_id == chain_id,
        lowered(merged(coingecko, superfluid, chain_id))[i].len() > 0,
        forall|k: int|
            0 <= k < i ==> #[trigger] lowered(merged(coingecko, superfluid, chain_id))[k]
                != lowered(merged(coingecko, superfluid, chain_id))[i],
{
    let taken = lowered(coingecko);
    let more = with_lowered(superfluid);
    let n = coingecko.len();
    let positions = added_positions(taken, more, chain_id, more.len());
    let all = merged(coingecko, superfluid, chain_id);
    lemma_positions(taken, more, chain_id, more.len());
    let j = positions[i - n];
    assert(is_added(taken, more, chain_id, j));
    assert(all[i] == superfluid[j]);
    assert(more[j] == (superfluid[j], lowercase(superfluid[j].address@)));
    assert forall|k: int| 0 <= k < i implies #[trigger] lowered(all)[k] != lowered(all)[i] by {
        if k < n {
            assert(taken[k] == lowered(all)[k]);
            assert(taken.contains(taken[k]));
        } else {
            let l = positions[k - n];
            assert(l < j);
            assert(is_added(taken, more, chain_id, l));
            assert(more[l].0.chain_id == chain_id);
            assert(lowered(all)[k] == more[l].1);
        }
    }
}

/// Each token of Superfluid on the chain that has an address is in the merged list, by its
/// address.
pub proof fn superfluid_tokens_are_listed(
    coingecko: Seq<Token>,
    superfluid: Seq<Token>,
    chain_id: u64,
    j: int,
)
    requires
        0 <= j < superfluid.len(),
        superfluid[j].chain_id == chain_id,
        lowercase(superfluid[j].address@).len() > 0,
    ensures
        lowered(merged(coingecko, superfluid, chain_id)).contains(
            lowercase(superfluid[j].address@),
        ),
    decreases j,
{
    let taken = lowered(coingecko);
    let more = with_lowered(superfluid);
    let n = coingecko.len();
    let positions = added_positions(taken, more, chain_id, more.len());
    let all = merged(coingecko, superfluid, chain_id);
    let address = lowercase(superfluid[j].address@);
    assert(more[j] == (superfluid[j], address));
    if taken.contains(address) {
        let i = choose|i: int| 0 <= i < taken.len() && taken[i] == address;
        assert(lowered(all)[i] == address);
    } else if is_added(taken, more, chain_id, j) {
        lemma_positions(taken, more, chain_id, more.len());
        let i = choose|i: int| 0 <= i < positions.len() && positions[i] == j;
        assert(all[n + i] == superfluid[j]);
        assert(lowered(all)[n + i] == address);
    } else {
        let k = choose|k: int|
            0 <= k < j && (#[trigger] more[k]).0.chain_id == chain_id && more[k].1 == address;
        assert(more[k] == (superfluid[k], lowercase(superfluid[k].address@)));
        superfluid_tokens_are_listed(coingecko, superfluid, chain_id, k);
    }
}

/// The tokens of Superfluid are added once: merging them into the merged list again adds
/// nothing.
pub proof fn merging_again_adds_nothing(
    coingecko: Seq<Token>,
    superfluid: Seq<Token>,
    chain_id: u64,
)
    ensures
        merged(merged(coingecko, superfluid, chain_id), superfluid, chain_id) == merged(
            coingecko,
            superfluid,
            chain_id,
        ),
{
    let all = merged(coingecko, superfluid, chain_id);
    let more = with_lowered(superfluid);
    let positions = added_positions(lowered(all), more, chain_id, more.len());
    lemma_positions(lowered(all), more, chain_id, more.len());
    if positions.len() > 0 {
        let j = positions[0];
        assert(is_added(lowered(all), more, chain_id, j));
        assert(more[j] == (superfluid[j], lowercase(superfluid[j].address@)));
        superfluid_tokens_are_listed(coingecko, superfluid, chain_id, j);
        assert(false);
    }
    assert(merged(all, superfluid, chain_id) =~= all);
}

} // verus!

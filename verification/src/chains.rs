//! The chains of the EEZ, and the configuration that names them.

use vstd::prelude::*;
use crate::text::{
    around_first, decimal, decimal_reads_back, first_index, is_space, joined,
    joined_texts_split_again, lemma_first_index, owned, parse_u64, pieces, same, split, split_once,
    trim, trimmed, trimmed_end, trimmed_start, u64_numeral,
};

verus! {

/// A chain of the EEZ.
pub struct Chain {
    pub chain_id: u64,
    pub execution_rpc: String,
    pub front: String,
}

/// A chain by what it holds.
pub struct ChainModel {
    pub chain_id: u64,
    pub execution_rpc: Seq<char>,
    pub front: Seq<char>,
}

impl View for Chain {
    type V = ChainModel;

    open spec fn view(&self) -> ChainModel {
        ChainModel {
            chain_id: self.chain_id,
            execution_rpc: self.execution_rpc@,
            front: self.front@,
        }
    }
}

/// Chains under their keys, by what they hold.
pub open spec fn chain_models(list: Seq<(String, Chain)>) -> Seq<(Seq<char>, ChainModel)> {
    list.map_values(|e: (String, Chain)| (e.0@, e.1@))
}

/// The chain that an entry `key=chainId,executionRpc,front` stands for.
pub open spec fn chain_entry(entry: Seq<char>) -> Option<(Seq<char>, ChainModel)> {
    match around_first(trimmed(entry), '=') {
        Some((key, rest)) => {
            let parts = pieces(rest, ',').map_values(|p: Seq<char>| trimmed(p));
            if parts.len() != 3 {
                None
            } else {
                match u64_numeral(parts[0], 10) {
                    Some(chain_id) => Some(
                        (
                            trimmed(key),
                            ChainModel { chain_id, execution_rpc: parts[1], front: parts[2] },
                        ),
                    ),
                    None => None,
                }
            }
        },
        None => None,
    }
}

fn read_entry(entry: &str) -> (r: Option<(String, Chain)>)
    ensures
        match r {
            Some(e) => chain_entry(entry@) == Some((e.0@, e.1@)),
            None => chain_entry(entry@) is None,
        },
{
    let (key, rest) = match split_once(trim(entry).as_str(), '=') {
        Some(parts) => parts,
        None => {
            return None;
        },
    };
    let parts = split(rest.as_str(), ',');
    let ghost trimmed_parts = pieces(rest@, ',').map_values(|p: Seq<char>| trimmed(p));
    proof {
        assert(parts.deep_view().len() == parts@.len());
        assert forall|i: int| 0 <= i < parts@.len() implies trimmed_parts[i] == trimmed(
            (#[trigger] parts@[i])@,
        ) by {
            assert(parts.deep_view()[i] == parts@[i]@);
        }
    }
    if parts.len() != 3 {
        return None;
    }
    match parse_u64(trim(parts[0].as_str()).as_str()) {
        Some(chain_id) => Some(
            (
                trim(key.as_str()),
                Chain {
                    chain_id,
                    execution_rpc: trim(parts[1].as_str()),
                    front: trim(parts[2].as_str()),
                },
            ),
        ),
        None => None,
    }
}

/// The chains of a configuration `key=chainId,executionRpc,front;...`. Entries of any other
/// form are passed over.
pub open spec fn configured_chains(config: Seq<char>) -> Seq<(Seq<char>, ChainModel)> {
    pieces(config, ';').filter_map(|entry: Seq<char>| chain_entry(entry))
}

/// Reads the chains of a configuration.
pub fn chains(config: &str) -> (r: Vec<(String, Chain)>)
    ensures
        chain_models(r@) == configured_chains(config@),
{
    let entries = split(config, ';');
    let ghost all = pieces(config@, ';');
    let ghost read = |entry: Seq<char>| chain_entry(entry);
    let mut out: Vec<(String, Chain)> = Vec::new();
    let mut i: usize = 0;
    proof {
        assert(all.take(0).filter_map(read) =~= chain_models(out@));
    }
    while i < entries.len()
        invariant
            i <= entries.len(),
            entries.deep_view() == all,
            all.len() == entries@.len(),
            read == (|entry: Seq<char>| chain_entry(entry)),
            chain_models(out@) == all.take(i as int).filter_map(read),
        decreases entries.len() - i,
    {
        let ghost before = out@;
        proof {
            assert(all[i as int] == entries@[i as int]@);
            all.lemma_filter_map_take_succ(read, i as int);
        }
        match read_entry(entries[i].as_str()) {
            Some(e) => {
                out.push(e);
                proof {
                    assert(chain_models(out@) =~= chain_models(before) + seq![(e.0@, e.1@)]);
                }
            },
            None => {
                proof {
                    assert(chain_models(before) =~= chain_models(before) + Seq::empty());
                }
            },
        }
        i += 1;
    }
    proof {
        assert(all.take(all.len() as int) =~= all);
    }
    out
}

/// The first chain under a key.
pub open spec fn chain_under(list: Seq<(Seq<char>, ChainModel)>, key: Seq<char>) -> Option<
    ChainModel,
>
    decreases list.len(),
{
    if list.len() == 0 {
        None
    } else if list[0].0 == key {
        Some(list[0].1)
    } else {
        chain_under(list.skip(1), key)
    }
}

/// Finds the first chain under a key.
pub(crate) fn find_chain(list: &Vec<(String, Chain)>, key: &str) -> (r: Option<Chain>)
    ensures
        match r {
            Some(chain) => chain_under(chain_models(list@), key@) == Some(chain@),
            None => chain_under(chain_models(list@), key@) is None,
        },
{
    let ghost all = chain_models(list@);
    let mut i: usize = 0;
    proof {
        assert(all.skip(0) =~= all);
    }
    while i < list.len()
        invariant
            i <= list.len(),
            all == chain_models(list@),
            chain_under(all, key@) == chain_under(all.skip(i as int), key@),
        decreases list.len() - i,
    {
        proof {
            assert(all.skip(i as int)[0] == (list@[i as int].0@, list@[i as int].1@));
            assert(all.skip(i as int).skip(1) =~= all.skip(i + 1));
        }
        let (k, chain) = &list[i];
        if same(k.as_str(), key) {
            return Some(
                Chain {
                    chain_id: chain.chain_id,
                    execution_rpc: owned(chain.execution_rpc.as_str()),
                    front: owned(chain.front.as_str()),
                },
            );
        }
        i += 1;
    }
    None
}

/// The keys of chains, in their order.
pub open spec fn chain_keys(list: Seq<(Seq<char>, ChainModel)>) -> Seq<Seq<char>> {
    list.map_values(|e: (Seq<char>, ChainModel)| e.0)
}

pub(crate) fn known_keys(list: &Vec<(String, Chain)>) -> (r: Vec<String>)
    ensures
        r.deep_view() == chain_keys(chain_models(list@)),
{
    let ghost keys = chain_keys(chain_models(list@));
    let mut known: Vec<String> = Vec::new();
    let mut i: usize = 0;
    proof {
        assert(known.deep_view() =~= keys.take(0));
    }
    while i < list.len()
        invariant
            i <= list.len(),
            keys == chain_keys(chain_models(list@)),
            known.deep_view() == keys.take(i as int),
        decreases list.len() - i,
    {
        let ghost before = known.deep_view();
        known.push(owned(list[i].0.as_str()));
        proof {
            assert(known.deep_view() =~= before.push(keys[i as int]));
            assert(before.push(keys[i as int]) =~= keys.take(i + 1));
        }
        i += 1;
    }
    proof {
        assert(keys.take(list@.len() as int) =~= keys);
    }
    known
}

/// A chain under its key as an entry of a configuration.
pub open spec fn written_entry(e: (Seq<char>, ChainModel)) -> Seq<char> {
    e.0 + seq!['='] + joined(
        seq![decimal(e.1.chain_id as nat), e.1.execution_rpc, e.1.front],
        seq![','],
    )
}

/// Whether an entry can be written: the key, the execution RPC and the front have no spaces
/// around them and do not hold the characters that part them.
pub open spec fn is_writable(e: (Seq<char>, ChainModel)) -> bool {
    &&& trimmed(e.0) == e.0
    &&& trimmed(e.1.execution_rpc) == e.1.execution_rpc
    &&& trimmed(e.1.front) == e.1.front
    &&& !e.0.contains('=') && !e.0.contains(';')
    &&& !e.1.execution_rpc.contains(',') && !e.1.execution_rpc.contains(';')
    &&& !e.1.front.contains(',') && !e.1.front.contains(';')
}

/// Chains that are written into a configuration are read back from it as they were, in the
/// same order.
pub proof fn written_chains_read_back(list: Seq<(Seq<char>, ChainModel)>)
    requires
        forall|i: int| 0 <= i < list.len() ==> is_writable(#[trigger] list[i]),
    ensures
        configured_chains(
            joined(list.map_values(|e: (Seq<char>, ChainModel)| written_entry(e)), seq![';']),
        ) == list,
{
    let entries = list.map_values(|e: (Seq<char>, ChainModel)| written_entry(e));
    let read = |entry: Seq<char>| chain_entry(entry);
    assert forall|i: int| 0 <= i < list.len() implies chain_entry(#[trigger] entries[i]) == Some(
        list[i],
    ) && !entries[i].contains(';') by {
        lemma_written_entry(list[i]);
    }
    if list.len() == 0 {
        let none = Seq::<char>::empty();
        assert(pieces(none, ';') == seq![none]);
        assert(first_index(none, '=') == 0);
        assert(trimmed(none) == none);
        Seq::lemma_filter_map_singleton(none, read);
        assert(list =~= Seq::empty());
    } else {
        joined_texts_split_again(entries, ';');
        lemma_read_all(list, entries, read);
    }
}

proof fn lemma_read_all(
    list: Seq<(Seq<char>, ChainModel)>,
    entries: Seq<Seq<char>>,
    read: spec_fn(Seq<char>) -> Option<(Seq<char>, ChainModel)>,
)
    requires
        entries.len() == list.len(),
        forall|i: int| 0 <= i < list.len() ==> read(#[trigger] entries[i]) == Some(list[i]),
    ensures
        entries.filter_map(read) == list,
    decreases list.len(),
{
    if list.len() > 0 {
        let n = list.len() - 1;
        assert forall|i: int| 0 <= i < n implies read(#[trigger] entries.drop_last()[i]) == Some(
            list.drop_last()[i],
        ) by {
            assert(entries[i] == entries.drop_last()[i]);
        }
        lemma_read_all(list.drop_last(), entries.drop_last(), read);
        assert(read(entries[n]) == Some(list[n]));
        assert(list =~= list.drop_last() + seq![list.last()]);
    } else {
        assert(list =~= Seq::empty());
    }
}

proof fn lemma_trimmed(s: Seq<char>)
    ensures
        trimmed(s) == s <==> s.len() == 0 || (!is_space(s[0]) && !is_space(s.last())),
    decreases s.len(),
{
    lemma_trimmed_start(s);
    lemma_trimmed_end(trimmed_start(s));
}

proof fn lemma_trimmed_start(s: Seq<char>)
    ensures
        trimmed_start(s).len() <= s.len(),
        s.len() > 0 && is_space(s[0]) ==> trimmed_start(s).len() < s.len(),
    decreases s.len(),
{
    if s.len() > 0 && is_space(s[0]) {
        lemma_trimmed_start(s.skip(1));
    }
}

proof fn lemma_trimmed_end(s: Seq<char>)
    ensures
        trimmed_end(s).len() <= s.len(),
        s.len() > 0 && is_space(s.last()) ==> trimmed_end(s).len() < s.len(),
    decreases s.len(),
{
    if s.len() > 0 && is_space(s.last()) {
        lemma_trimmed_end(s.drop_last());
    }
}

proof fn lemma_three_joined(x: Seq<char>, y: Seq<char>, z: Seq<char>, sep: char)
    ensures
        joined(seq![x, y, z], seq![sep]) == x + seq![sep] + y + seq![sep] + z,
{
    reveal_with_fuel(joined, 4);
    let parts = seq![x, y, z];
    assert(parts.drop_last() =~= seq![x, y]);
    assert(parts.drop_last().drop_last() =~= seq![x]);
}

proof fn lemma_not_held(a: Seq<char>, b: Seq<char>, c: char)
    requires
        !a.contains(c),
        !b.contains(c),
    ensures
        !(a + b).contains(c),
{
    assert forall|i: int| 0 <= i < (a + b).len() implies (a + b)[i] != c by {
        if i < a.len() {
            assert(a.contains(a[i]));
        } else {
            assert(b.contains(b[i - a.len()]));
        }
    }
}

proof fn lemma_digits_hold_no_other(n: nat, c: char)
    requires
        !('0' <= c <= '9'),
    ensures
        !decimal(n).contains(c),
{
    lemma_decimal_digits(n);
}

pub(crate) proof fn lemma_key_ends(key: Seq<char>, rest: Seq<char>)
    requires
        !key.contains('='),
    ensures
        around_first(key + seq!['='] + rest, '=') == Some((key, rest)),
{
    let s = key + seq!['='] + rest;
    let a = key.len() as int;
    assert forall|j: int| 0 <= j < a implies s[j] != '=' by {
        assert(s[j] == key[j]);
        assert(key.contains(key[j]));
    }
    lemma_first_index(s, '=', a);
    assert(s.take(a) =~= key);
    assert(s.skip(a + 1) =~= rest);
}

proof fn lemma_written_entry(e: (Seq<char>, ChainModel))
    requires
        is_writable(e),
    ensures
        chain_entry(written_entry(e)) == Some(e),
        !written_entry(e).contains(';'),
{
    let number = decimal(e.1.chain_id as nat);
    let rpc = e.1.execution_rpc;
    let front = e.1.front;
    let parts = seq![number, rpc, front];
    let rest = joined(parts, seq![',']);
    let s = written_entry(e);
    lemma_three_joined(number, rpc, front, ',');
    decimal_reads_back(e.1.chain_id);
    lemma_digits_hold_no_other(e.1.chain_id as nat, ';');
    lemma_digits_hold_no_other(e.1.chain_id as nat, ',');
    lemma_not_held(number, seq![','], ';');
    lemma_not_held(number + seq![','], rpc, ';');
    lemma_not_held(number + seq![','] + rpc, seq![','], ';');
    lemma_not_held(number + seq![','] + rpc + seq![','], front, ';');
    lemma_not_held(e.0, seq!['='], ';');
    lemma_not_held(e.0 + seq!['='], rest, ';');
    assert(trimmed(s) == s) by {
        lemma_trimmed(e.0);
        lemma_trimmed(front);
        lemma_trimmed(s);
        assert(s[0] == if e.0.len() > 0 {
            e.0[0]
        } else {
            '='
        });
        assert(s.last() == rest.last());
        assert(rest.last() == if front.len() > 0 {
            front.last()
        } else {
            ','
        });
    }
    lemma_key_ends(e.0, rest);
    joined_texts_split_again(parts, ',');
    assert(trimmed(number) == number) by {
        lemma_decimal_digits(e.1.chain_id as nat);
        lemma_trimmed(number);
    }
    assert(parts.map_values(|p: Seq<char>| trimmed(p)) =~= parts);
}

proof fn lemma_decimal_digits(n: nat)
    ensures
        decimal(n).len() > 0,
        forall|i: int| 0 <= i < decimal(n).len() ==> '0' <= #[trigger] decimal(n)[i] <= '9',
    decreases n,
{
    if n >= 10 {
        lemma_decimal_digits(n / 10);
    }
}

} // verus!

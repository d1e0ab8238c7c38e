//! What the configuration of the chains promises: every entry of the right form is a chain, and
//! is found by its key.

use vstd::prelude::*;
use crate::chains::{chain_entry, chain_keys, chain_under, configured_chains, ChainModel};
use crate::laws::proxies::texts_are_split_at_separators;
use crate::laws::text::{spaces_are_trimmed_off, texts_are_parted_at_the_first_separator};
use crate::text::{is_space, lemma_pieces_of_one, pieces, trimmed, u64_numeral};

verus! {

/// Whether a text is made of spaces.
pub open spec fn is_blank(s: Seq<char>) -> bool {
    forall|i: int| 0 <= i < s.len() ==> is_space(#[trigger] s[i])
}

/// Whether a text has no spaces around it.
pub open spec fn is_bare(s: Seq<char>) -> bool {
    s.len() > 0 ==> !is_space(s[0]) && !is_space(s.last())
}

/// Whether `padded` is `s` with spaces around it.
pub open spec fn pads(padded: Seq<char>, s: Seq<char>) -> bool {
    &&& is_bare(s)
    &&& exists|left: Seq<char>, right: Seq<char>|
        #[trigger] is_blank(left) && #[trigger] is_blank(right) && padded == left + s + right
}

proof fn lemma_pads(padded: Seq<char>, s: Seq<char>)
    requires
        pads(padded, s),
    ensures
        trimmed(padded) == s,
{
    let (left, right) = choose|left: Seq<char>, right: Seq<char>|
        #[trigger] is_blank(left) && #[trigger] is_blank(right) && padded == left + s + right;
    spaces_are_trimmed_off(left, s, right);
}

/// An entry `key=chainId,executionRpc,front`, with spaces around it and around its parts or
/// without, stands for the chain with that number and those two addresses, under that key.
pub proof fn entries_name_their_chain(
    entry: Seq<char>,
    inner: Seq<char>,
    padded_key: Seq<char>,
    padded_number: Seq<char>,
    padded_rpc: Seq<char>,
    padded_front: Seq<char>,
    key: Seq<char>,
    number: Seq<char>,
    chain_id: u64,
    execution_rpc: Seq<char>,
    front: Seq<char>,
)
    requires
        pads(entry, inner),
        inner == padded_key + seq!['='] + (padded_number + seq![','] + (padded_rpc + seq![',']
            + padded_front)),
        pads(padded_key, key),
        pads(padded_number, number),
        pads(padded_rpc, execution_rpc),
        pads(padded_front, front),
        !padded_key.contains('='),
        !padded_number.contains(','),
        !padded_rpc.contains(','),
        !padded_front.contains(','),
        u64_numeral(number, 10) == Some(chain_id),
    ensures
        chain_entry(entry) == Some((key, ChainModel { chain_id, execution_rpc, front })),
{
    lemma_pads(entry, inner);
    lemma_pads(padded_key, key);
    lemma_pads(padded_number, number);
    lemma_pads(padded_rpc, execution_rpc);
    lemma_pads(padded_front, front);
    let end = padded_rpc + seq![','] + padded_front;
    let rest = padded_number + seq![','] + end;
    crate::chains::lemma_key_ends(padded_key, rest);
    texts_are_split_at_separators(padded_number, ',', end);
    texts_are_split_at_separators(padded_rpc, ',', padded_front);
    lemma_pieces_of_one(padded_front, ',');
    assert(pieces(rest, ',') =~= seq![padded_number, padded_rpc, padded_front]);
    assert(pieces(rest, ',').map_values(|p: Seq<char>| trimmed(p)) =~= seq![
        number,
        execution_rpc,
        front,
    ]);
}

/// An entry of another form stands for no chain: one without an equals sign, one that does not
/// have three parts, or one whose first part is no number.
pub proof fn other_entries_name_no_chain(entry: Seq<char>, key: Seq<char>, rest: Seq<char>)
    ensures
        !trimmed(entry).contains('=') ==> chain_entry(entry) is None,
        trimmed(entry) == key + seq!['='] + rest && !key.contains('=') && pieces(rest, ',').len()
            != 3 ==> chain_entry(entry) is None,
        trimmed(entry) == key + seq!['='] + rest && !key.contains('=') && pieces(rest, ',').len()
            == 3 && u64_numeral(trimmed(pieces(rest, ',')[0]), 10) is None ==> chain_entry(
            entry,
        ) is None,
{
    if !key.contains('=') {
        crate::chains::lemma_key_ends(key, rest);
    }
    texts_are_parted_at_the_first_separator(Seq::empty(), '=', rest, trimmed(entry));
}

/// A configuration has the chains of its entries, in their order; an entry that stands for no
/// chain is passed over, and no chain is dropped for it.
pub proof fn entries_are_read_in_their_order(config: Seq<char>, entry: Seq<char>)
    requires
        !entry.contains(';'),
    ensures
        configured_chains(entry) == match chain_entry(entry) {
            Some(e) => seq![e],
            None => Seq::empty(),
        },
        configured_chains(config + seq![';'] + entry) == configured_chains(config) + match
        chain_entry(entry) {
            Some(e) => seq![e],
            None => Seq::empty(),
        },
{
    let read = |e: Seq<char>| chain_entry(e);
    lemma_pieces_of_one(entry, ';');
    Seq::lemma_filter_map_singleton(entry, read);
    crate::text::lemma_pieces_append(config, ';', entry);
    let all = pieces(config, ';').push(entry);
    assert(all.drop_last() =~= pieces(config, ';'));
    assert(all.last() == entry);
    let n = all.len() - 1;
    all.lemma_filter_map_take_succ(read, n);
    assert(all.take(n + 1) =~= all);
    assert(all.take(n) =~= pieces(config, ';'));
    assert(configured_chains(entry) =~= match chain_entry(entry) {
        Some(e) => seq![e],
        None => Seq::empty(),
    });
}

/// The chain under a key is the first that has it; where none has it, there is none. The keys that
/// are known are those of the chains, in their order.
pub proof fn chains_are_found_by_their_key(
    list: Seq<(Seq<char>, ChainModel)>,
    key: Seq<char>,
    i: int,
)
    requires
        0 <= i <= list.len(),
        forall|k: int| 0 <= k < i ==> (#[trigger] list[k]).0 != key,
        i < list.len() ==> list[i].0 == key,
    ensures
        i < list.len() ==> chain_under(list, key) == Some(list[i].1),
        i == list.len() ==> chain_under(list, key) is None,
        chain_keys(list).len() == list.len(),
        forall|k: int| 0 <= k < list.len() ==> #[trigger] chain_keys(list)[k] == list[k].0,
    decreases list.len(),
{
    if i > 0 {
        assert(list[0].0 != key);
        let rest = list.skip(1);
        assert forall|k: int| 0 <= k < i - 1 implies (#[trigger] rest[k]).0 != key by {
            assert(rest[k] == list[k + 1]);
        }
        chains_are_found_by_their_key(rest, key, i - 1);
    }
}

} // verus!

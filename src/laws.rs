//! Properties of the generated modules.
use vstd::prelude::*;
use crate::contracts::ContractMetadata;
use crate::render::{addresses_text, entries_text, entry_text, network_text, networks_text};
use crate::table::{
    address_table, has_key, keys_unique, lemma_address_table_unique, lemma_network_entries_unique,
    lemma_upsert, lookup, network_entries,
};
use crate::viem::{renders, OutputFile};

verus! {

/// No record after the `j`-th of `cs` bears its name.
pub open spec fn last_of_name(cs: Seq<ContractMetadata>, j: int) -> bool {
    forall|k: int| j < k < cs.len() ==> cs[k].name@ != cs[j].name@
}

/// No group after the `i`-th of `ic` has its network identifier.
pub open spec fn last_of_network(ic: Seq<(u64, Vec<ContractMetadata>)>, i: int) -> bool {
    forall|k: int| i < k < ic.len() ==> ic[k].0 != ic[i].0
}

/// `part` occurs in `text`.
pub open spec fn occurs_in(part: Seq<char>, text: Seq<char>) -> bool {
    exists|pre: Seq<char>, post: Seq<char>| text == pre + part + post
}

/// `line` is one of the lines of the entries `es`, and the block of network `id`
/// with those entries occurs in `text`.
pub open spec fn in_network_block(
    text: Seq<char>,
    id: u64,
    es: Seq<(Seq<char>, Seq<char>)>,
    line: Seq<char>,
) -> bool {
    &&& occurs_in(line, entries_text(es))
    &&& occurs_in(network_text((id, es)), text)
}

/// A network's entries give each name the address of the last record that bears it.
pub proof fn lemma_network_entries_lookup(cs: Seq<ContractMetadata>, j: int)
    requires
        0 <= j < cs.len(),
        last_of_name(cs, j),
    ensures
        lookup(network_entries(cs), cs[j].name@) == Some(cs[j].address@),
    decreases cs.len(),
{
    let prev = cs.drop_last();
    lemma_network_entries_unique(prev);
    lemma_upsert(network_entries(prev), cs.last().name@, cs.last().address@);
    if j < cs.len() - 1 {
        assert(cs[cs.len() - 1].name@ != cs[j].name@);
        lemma_network_entries_lookup(prev, j);
    }
}

/// The address table gives each network identifier the entries of the last
/// group that has it.
pub proof fn lemma_address_table_lookup(ic: Seq<(u64, Vec<ContractMetadata>)>, i: int)
    requires
        0 <= i < ic.len(),
        last_of_network(ic, i),
    ensures
        lookup(address_table(ic), ic[i].0) == Some(network_entries(ic[i].1@)),
    decreases ic.len(),
{
    let prev = ic.drop_last();
    lemma_address_table_unique(prev);
    lemma_upsert(address_table(prev), ic.last().0, network_entries(ic.last().1@));
    if i < ic.len() - 1 {
        assert(ic[ic.len() - 1].0 != ic[i].0);
        lemma_address_table_lookup(prev, i);
    }
}

/// The line of each entry occurs in the lines of the entries.
pub proof fn lemma_entry_occurs(es: Seq<(Seq<char>, Seq<char>)>, k: int)
    requires
        0 <= k < es.len(),
    ensures
        occurs_in(entry_text(es[k]), entries_text(es)),
    decreases es.len(),
{
    let last = entry_text(es.last());
    if k == es.len() - 1 {
        assert(entries_text(es) =~= entries_text(es.drop_last()) + last + Seq::empty());
    } else {
        lemma_entry_occurs(es.drop_last(), k);
        let (pre, post) = choose|pre: Seq<char>, post: Seq<char>|
            entries_text(es.drop_last()) == pre + entry_text(es[k]) + post;
        assert(entries_text(es) =~= pre + entry_text(es[k]) + (post + last));
    }
}

/// The block of each network occurs in the blocks of the networks.
pub proof fn lemma_network_occurs(t: Seq<(u64, Seq<(Seq<char>, Seq<char>)>)>, k: int)
    requires
        0 <= k < t.len(),
    ensures
        occurs_in(network_text(t[k]), networks_text(t)),
    decreases t.len(),
{
    let last = network_text(t.last());
    if k == t.len() - 1 {
        assert(networks_text(t) =~= networks_text(t.drop_last()) + last + Seq::empty());
    } else {
        lemma_network_occurs(t.drop_last(), k);
        let (pre, post) = choose|pre: Seq<char>, post: Seq<char>|
            networks_text(t.drop_last()) == pre + network_text(t[k]) + post;
        assert(networks_text(t) =~= pre + network_text(t[k]) + (post + last));
    }
}

/// Each entry of the table is rendered as its line, inside the block of its
/// network, in the addresses module.
pub proof fn lemma_entry_in_block(t: Seq<(u64, Seq<(Seq<char>, Seq<char>)>)>, n: int, k: int)
    requires
        0 <= n < t.len(),
        0 <= k < t[n].1.len(),
    ensures
        in_network_block(addresses_text(t), t[n].0, t[n].1, entry_text(t[n].1[k])),
{
    lemma_entry_occurs(t[n].1, k);
    lemma_network_occurs(t, n);
    let (p2, q2) = choose|pre: Seq<char>, post: Seq<char>|
        networks_text(t) == pre + network_text(t[n]) + post;
    assert(t[n] == (t[n].0, t[n].1));
    assert(addresses_text(t) =~= ("export const ContractAddress = {\n"@ + p2) + network_text(t[n])
        + (q2 + "} as const;\n"@));
}

/// Completeness: for each network and the last record of each name in it, the
/// address table maps the network and the name to the record's address, and the
/// line `"<name>": "<address>",` stands in that network's block of the
/// addresses module.
pub proof fn lemma_completeness(ic: Seq<(u64, Vec<ContractMetadata>)>, i: int, j: int)
    requires
        keys_unique(ic),
        0 <= i < ic.len(),
        0 <= j < ic[i].1@.len(),
        last_of_name(ic[i].1@, j),
    ensures
        lookup(address_table(ic), ic[i].0) == Some(network_entries(ic[i].1@)),
        lookup(network_entries(ic[i].1@), ic[i].1@[j].name@) == Some(ic[i].1@[j].address@),
        in_network_block(
            addresses_text(address_table(ic)),
            ic[i].0,
            network_entries(ic[i].1@),
            entry_text((ic[i].1@[j].name@, ic[i].1@[j].address@)),
        ),
{
    let t = address_table(ic);
    let cs = ic[i].1@;
    let c = cs[j];
    let es = network_entries(cs);
    assert(last_of_network(ic, i));
    lemma_address_table_lookup(ic, i);
    lemma_network_entries_lookup(cs, j);
    let n = choose|n: int| 0 <= n < t.len() && t[n].0 == ic[i].0;
    let k = choose|k: int| 0 <= k < es.len() && es[k].0 == c.name@;
    assert(t[n].1 == es);
    assert(es[k] == (c.name@, c.address@));
    lemma_entry_in_block(t, n, k);
}

/// Last write wins: where several records of a network bear one name, the
/// network's entries hold that name once, with the address of the last of them.
pub proof fn lemma_last_write_wins(cs: Seq<ContractMetadata>, b: int)
    requires
        0 <= b < cs.len(),
        last_of_name(cs, b),
    ensures
        has_key(network_entries(cs), cs[b].name@),
        forall|k: int|
            0 <= k < network_entries(cs).len() && (#[trigger] network_entries(cs)[k]).0
                == cs[b].name@ ==> network_entries(cs)[k].1 == cs[b].address@,
{
    let es = network_entries(cs);
    lemma_network_entries_lookup(cs, b);
    lemma_network_entries_unique(cs);
    let c = choose|k: int| 0 <= k < es.len() && es[k].0 == cs[b].name@;
    assert forall|k: int| 0 <= k < es.len() && (#[trigger] es[k]).0 == cs[b].name@ implies es[k].1
        == cs[b].address@ by {
        if k != c {
            assert(keys_unique(es));
        }
    }
}

/// Idempotence: two runs on the same input generate the same files, name for
/// name and byte for byte.
pub proof fn lemma_idempotent(
    ic: Seq<(u64, Vec<ContractMetadata>)>,
    fs1: Seq<OutputFile>,
    fs2: Seq<OutputFile>,
)
    requires
        renders(fs1, ic),
        renders(fs2, ic),
    ensures
        fs1.len() == fs2.len(),
        forall|k: int|
            0 <= k < fs1.len() ==> (#[trigger] fs1[k]).dir == fs2[k].dir && fs1[k].file_name@
                == fs2[k].file_name@ && fs1[k].contents@ == fs2[k].contents@,
{
    assert forall|k: int| 0 <= k < fs1.len() implies (#[trigger] fs1[k]).dir == fs2[k].dir
        && fs1[k].file_name@ == fs2[k].file_name@ && fs1[k].contents@ == fs2[k].contents@ by {
        if k > 0 {
            assert(fs1.skip(1)[k - 1] == fs1[k]);
            assert(fs2.skip(1)[k - 1] == fs2[k]);
        }
    }
}

} // verus!

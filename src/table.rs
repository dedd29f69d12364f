//! The address table: contracts projected to name and address, keyed by network.
use vstd::prelude::*;
use crate::contracts::{ContractMetadata, IntermediateContracts};
use crate::render::{ContractAddresses, NetworkAddresses};

verus! {

/// Whether some pair of `s` has the key `k`.
pub open spec fn has_key<K, V>(s: Seq<(K, V)>, k: K) -> bool {
    exists|i: int| 0 <= i < s.len() && s[i].0 == k
}

/// No key occurs twice in `s`.
pub open spec fn keys_unique<K, V>(s: Seq<(K, V)>) -> bool {
    forall|i: int, j: int| 0 <= i < j < s.len() ==> s[i].0 != s[j].0
}

/// Sets the value of key `k` to `v`: in place where `k` is present, else at the end.
pub open spec fn upsert<K, V>(s: Seq<(K, V)>, k: K, v: V) -> Seq<(K, V)> {
    if has_key(s, k) {
        s.update(choose|i: int| 0 <= i < s.len() && s[i].0 == k, (k, v))
    } else {
        s.push((k, v))
    }
}

/// The value of key `k` in `s`, if any.
pub open spec fn lookup<K, V>(s: Seq<(K, V)>, k: K) -> Option<V> {
    if has_key(s, k) {
        Some(s[choose|i: int| 0 <= i < s.len() && s[i].0 == k].1)
    } else {
        None
    }
}

/// The entries of one network: each record's name and address, where a later
/// record replaces the address of an earlier one with the same name.
pub open spec fn network_entries(cs: Seq<ContractMetadata>) -> Seq<(Seq<char>, Seq<char>)>
    decreases cs.len(),
{
    if cs.len() == 0 {
        Seq::empty()
    } else {
        upsert(network_entries(cs.drop_last()), cs.last().name@, cs.last().address@)
    }
}

/// The address table of the input: one entry per network identifier, where a
/// later group with the same identifier replaces an earlier one.
pub open spec fn address_table(ic: Seq<(u64, Vec<ContractMetadata>)>) -> Seq<
    (u64, Seq<(Seq<char>, Seq<char>)>),
>
    decreases ic.len(),
{
    if ic.len() == 0 {
        Seq::empty()
    } else {
        upsert(address_table(ic.drop_last()), ic.last().0, network_entries(ic.last().1@))
    }
}

/// An address table that is a mapping: each network identifier once, and each
/// contract name once within its network.
pub open spec fn table_well_formed(t: Seq<(u64, Seq<(Seq<char>, Seq<char>)>)>) -> bool {
    &&& keys_unique(t)
    &&& forall|i: int| 0 <= i < t.len() ==> keys_unique(#[trigger] t[i].1)
}

/// After `upsert`, `k` maps to `v`, every other key keeps its value, and keys stay unique.
pub proof fn lemma_upsert<K, V>(s: Seq<(K, V)>, k: K, v: V)
    requires
        keys_unique(s),
    ensures
        keys_unique(upsert(s, k, v)),
        lookup(upsert(s, k, v), k) == Some(v),
        forall|k2: K| k2 != k ==> lookup(upsert(s, k, v), k2) == lookup(s, k2),
        forall|k2: K| has_key(upsert(s, k, v), k2) <==> (has_key(s, k2) || k2 == k),
{
    let u = upsert(s, k, v);
    if has_key(s, k) {
        let i = choose|i: int| 0 <= i < s.len() && s[i].0 == k;
        assert(u[i].0 == k);
        assert forall|k2: K| k2 != k implies lookup(u, k2) == lookup(s, k2) by {
            if has_key(s, k2) {
                let j = choose|j: int| 0 <= j < s.len() && s[j].0 == k2;
                assert(u[j].0 == k2);
                let j2 = choose|j: int| 0 <= j < u.len() && u[j].0 == k2;
                assert(j2 != i);
                assert(s[j2].0 == k2);
            }
            if has_key(u, k2) {
                let j2 = choose|j: int| 0 <= j < u.len() && u[j].0 == k2;
                assert(s[j2].0 == k2);
            }
        }
        assert forall|k2: K| has_key(u, k2) <==> (has_key(s, k2) || k2 == k) by {
            if has_key(s, k2) {
                let j = choose|j: int| 0 <= j < s.len() && s[j].0 == k2;
                assert(u[j].0 == k2);
            }
            if has_key(u, k2) {
                let j2 = choose|j: int| 0 <= j < u.len() && u[j].0 == k2;
                if j2 != i {
                    assert(s[j2].0 == k2);
                }
            }
        }
    } else {
        assert(u[s.len() as int].0 == k);
        assert forall|k2: K| k2 != k implies lookup(u, k2) == lookup(s, k2) by {
            if has_key(s, k2) {
                let j = choose|j: int| 0 <= j < s.len() && s[j].0 == k2;
                assert(u[j].0 == k2);
                let j2 = choose|j: int| 0 <= j < u.len() && u[j].0 == k2;
                assert(s[j2].0 == k2);
            }
            if has_key(u, k2) {
                let j2 = choose|j: int| 0 <= j < u.len() && u[j].0 == k2;
                assert(s[j2].0 == k2);
            }
        }
        assert forall|k2: K| has_key(u, k2) <==> (has_key(s, k2) || k2 == k) by {
            if has_key(s, k2) {
                let j = choose|j: int| 0 <= j < s.len() && s[j].0 == k2;
                assert(u[j].0 == k2);
            }
            if has_key(u, k2) {
                let j2 = choose|j: int| 0 <= j < u.len() && u[j].0 == k2;
                if j2 != s.len() {
                    assert(s[j2].0 == k2);
                }
            }
        }
    }
}

/// The names of a network's entries are unique.
pub proof fn lemma_network_entries_unique(cs: Seq<ContractMetadata>)
    ensures
        keys_unique(network_entries(cs)),
    decreases cs.len(),
{
    if cs.len() > 0 {
        lemma_network_entries_unique(cs.drop_last());
        lemma_upsert(network_entries(cs.drop_last()), cs.last().name@, cs.last().address@);
    }
}

/// The network identifiers of the address table are unique.
pub proof fn lemma_address_table_unique(ic: Seq<(u64, Vec<ContractMetadata>)>)
    ensures
        keys_unique(address_table(ic)),
    decreases ic.len(),
{
    if ic.len() > 0 {
        lemma_address_table_unique(ic.drop_last());
        lemma_upsert(address_table(ic.drop_last()), ic.last().0, network_entries(ic.last().1@));
    }
}

/// The address table of any input is a mapping.
pub proof fn lemma_address_table_well_formed(ic: Seq<(u64, Vec<ContractMetadata>)>)
    ensures
        table_well_formed(address_table(ic)),
    decreases ic.len(),
{
    if ic.len() > 0 {
        let prev = address_table(ic.drop_last());
        let v = network_entries(ic.last().1@);
        lemma_address_table_well_formed(ic.drop_last());
        lemma_network_entries_unique(ic.last().1@);
        lemma_upsert(prev, ic.last().0, v);
        let u = upsert(prev, ic.last().0, v);
        assert forall|i: int| 0 <= i < u.len() implies keys_unique(#[trigger] u[i].1) by {
            if i < prev.len() && u[i] != prev[i] {
                assert(u[i].1 == v);
            }
        }
    }
}

fn upsert_name(entries: &mut NetworkAddresses, name: String, address: String)
    requires
        keys_unique(old(entries).deep_view()),
    ensures
        final(entries).deep_view() == upsert(old(entries).deep_view(), name@, address@),
{
    let ghost s = entries.deep_view();
    let ghost e = (name@, address@);
    let mut i: usize = 0;
    while i < entries.len() && entries[i].0 != name
        invariant
            0 <= i <= entries.len(),
            entries.deep_view() == s,
            forall|j: int| 0 <= j < i ==> s[j].0 != name@,
        decreases entries.len() - i,
    {
        i = i + 1;
    }
    if i < entries.len() {
        proof {
            assert(s[i as int].0 == name@);
            let c = choose|j: int| 0 <= j < s.len() && s[j].0 == name@;
            assert(c == i);
        }
        entries.set(i, (name, address));
        assert(entries.deep_view() =~= s.update(i as int, e));
    } else {
        entries.push((name, address));
        assert(entries.deep_view() =~= s.push(e));
    }
}

fn upsert_network(table: &mut ContractAddresses, chain_id: u64, entries: NetworkAddresses)
    requires
        keys_unique(old(table).deep_view()),
    ensures
        final(table).deep_view() == upsert(old(table).deep_view(), chain_id, entries.deep_view()),
{
    let ghost s = table.deep_view();
    let ghost e = (chain_id, entries.deep_view());
    let mut i: usize = 0;
    while i < table.len() && table[i].0 != chain_id
        invariant
            0 <= i <= table.len(),
            table.deep_view() == s,
            forall|j: int| 0 <= j < i ==> s[j].0 != chain_id,
        decreases table.len() - i,
    {
        i = i + 1;
    }
    if i < table.len() {
        proof {
            assert(s[i as int].0 == chain_id);
            let c = choose|j: int| 0 <= j < s.len() && s[j].0 == chain_id;
            assert(c == i);
        }
        table.set(i, (chain_id, entries));
        assert(table.deep_view() =~= s.update(i as int, e));
    } else {
        table.push((chain_id, entries));
        assert(table.deep_view() =~= s.push(e));
    }
}

/// Projects one network's records to their names and addresses; a later record
/// replaces the address of an earlier one with the same name.
pub fn network_addresses(contracts: &Vec<ContractMetadata>) -> (r: NetworkAddresses)
    ensures
        r.deep_view() == network_entries(contracts@),
{
    let mut entries: NetworkAddresses = Vec::new();
    let mut i: usize = 0;
    while i < contracts.len()
        invariant
            0 <= i <= contracts.len(),
            entries.deep_view() == network_entries(contracts@.take(i as int)),
        decreases contracts.len() - i,
    {
        proof {
            lemma_network_entries_unique(contracts@.take(i as int));
            assert(contracts@.take(i as int + 1).drop_last() =~= contracts@.take(i as int));
        }
        let c = &contracts[i];
        upsert_name(&mut entries, c.name.clone(), c.address.clone());
        i = i + 1;
    }
    assert(contracts@.take(i as int) =~= contracts@);
    entries
}

/// Builds the address table of `ic`; a later group with a network identifier
/// already seen replaces the earlier one.
pub fn address_table_of(ic: &IntermediateContracts) -> (r: ContractAddresses)
    ensures
        r.deep_view() == address_table(ic@),
{
    let mut table: ContractAddresses = Vec::new();
    let mut i: usize = 0;
    while i < ic.len()
        invariant
            0 <= i <= ic.len(),
            table.deep_view() == address_table(ic@.take(i as int)),
        decreases ic.len() - i,
    {
        proof {
            lemma_address_table_unique(ic@.take(i as int));
            assert(ic@.take(i as int + 1).drop_last() =~= ic@.take(i as int));
        }
        let entries = network_addresses(&ic[i].1);
        upsert_network(&mut table, ic[i].0, entries);
        i = i + 1;
    }
    assert(ic@.take(i as int) =~= ic@);
    table
}

} // verus!

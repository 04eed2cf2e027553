//! The chains a swap can happen on.
use crate::json::{empty_object, trees, Json, Tree};
use vstd::prelude::*;

verus! {

/// The chain ids that a list of records names, in order.
pub open spec fn chain_ids(records: Seq<Tree>) -> Seq<u64>
    decreases records.len(),
{
    if records.len() == 0 {
        Seq::empty()
    } else {
        let before = chain_ids(records.drop_last());
        match records.last().unsigned_at("chainId"@) {
            Some(id) => before.push(id),
            None => before,
        }
    }
}

/// The chains uniswap_module holds a deployment for, from its `get_chains` reply.
pub fn deployed_chains(get_chains: &Json) -> (r: Vec<u64>)
    ensures
        r@ == chain_ids(get_chains@.list_at("chains"@)),
{
    let mut out: Vec<u64> = Vec::new();
    match get_chains.array_of("chains") {
        None => {},
        Some(chains) => {
            let ghost all = trees(chains@);
            let mut i: usize = 0;
            while i < chains.len()
                invariant
                    i <= chains@.len(),
                    all == trees(chains@),
                    out@ == chain_ids(all.take(i as int)),
                decreases chains@.len() - i,
            {
                assert(all.take(i + 1).drop_last() =~= all.take(i as int));
                assert(all.take(i + 1).last() == chains@[i as int]@);
                if let Some(id) = chains[i].u64_of("chainId") {
                    out.push(id);
                }
                i += 1;
            }
            assert(all.take(chains@.len() as int) =~= all);
        },
    }
    out
}

/// The chain of a record that is switched on and in scope.
pub open spec fn live_chain(record: Tree) -> Option<u64> {
    if record.bool_at("enabled"@) == Some(true) && record.bool_at("inScope"@) == Some(true) {
        record.unsigned_at("chainId"@)
    } else {
        None
    }
}

/// `row` with the field of that name that the record has, where it has one.
pub open spec fn with_field(row: Tree, record: Tree, key: Seq<char>) -> Tree {
    match record.get(key) {
        Some(v) => row.with(key, v),
        None => row,
    }
}

/// What a view is told of a chain: names, not endpoints.
pub open spec fn network_row(record: Tree, id: u64) -> Tree {
    let row = empty_object().with("chainId"@, Tree::Unsigned(id)).with(
        "enabled"@,
        Tree::Bool(true),
    ).with("inScope"@, Tree::Bool(true));
    let row = with_field(row, record, "name"@);
    let row = with_field(row, record, "nativeSymbol"@);
    let row = with_field(row, record, "nativeDecimals"@);
    let row = with_field(row, record, "testnet"@);
    with_field(row, record, "verifiedProxyMode"@)
}

/// The live chains where Uniswap is deployed, as a view is told of them.
pub open spec fn networks_in(records: Seq<Tree>, deployed: Seq<u64>) -> Seq<Tree>
    decreases records.len(),
{
    if records.len() == 0 {
        Seq::empty()
    } else {
        let before = networks_in(records.drop_last(), deployed);
        match live_chain(records.last()) {
            Some(id) => if deployed.contains(id) {
                before.push(network_row(records.last(), id))
            } else {
                before
            },
            None => before,
        }
    }
}

/// The live chains where Uniswap is not deployed.
pub open spec fn unsupported_in(records: Seq<Tree>, deployed: Seq<u64>) -> Seq<u64>
    decreases records.len(),
{
    if records.len() == 0 {
        Seq::empty()
    } else {
        let before = unsupported_in(records.drop_last(), deployed);
        match live_chain(records.last()) {
            Some(id) => if deployed.contains(id) {
                before
            } else {
                before.push(id)
            },
            None => before,
        }
    }
}

fn copy_field(row: Json, record: &Json, key: &str) -> (r: Json)
    requires
        row@ is Object,
    ensures
        r@ == with_field(row@, record@, key@),
        r@ is Object,
{
    match record.get(key) {
        Some(v) => row.with(key, v.clone()),
        None => row,
    }
}

fn row_of(record: &Json, id: u64) -> (r: Json)
    ensures
        r@ == network_row(record@, id),
{
    let row = Json::object().with("chainId", Json::Unsigned(id)).with(
        "enabled",
        Json::Bool(true),
    ).with("inScope", Json::Bool(true));
    let row = copy_field(row, record, "name");
    let row = copy_field(row, record, "nativeSymbol");
    let row = copy_field(row, record, "nativeDecimals");
    let row = copy_field(row, record, "testnet");
    copy_field(row, record, "verifiedProxyMode")
}

fn contains_id(ids: &[u64], id: u64) -> (r: bool)
    ensures
        r == ids@.contains(id),
{
    let mut i: usize = 0;
    while i < ids.len()
        invariant
            i <= ids@.len(),
            forall|j: int| 0 <= j < i ==> ids@[j] != id,
        decreases ids@.len() - i,
    {
        if ids[i] == id {
            return true;
        }
        i += 1;
    }
    false
}

/// eth_rpc's enabled, in-scope records split by whether Uniswap is deployed there. A chain the
/// user enabled but Uniswap is not on is named, so a view can say why it is missing.
pub fn swappable_networks(records: &[Json], deployed: &[u64]) -> (r: (Vec<Json>, Vec<u64>))
    ensures
        trees(r.0@) == networks_in(trees(records@), deployed@),
        r.1@ == unsupported_in(trees(records@), deployed@),
{
    let ghost all = trees(records@);
    let mut networks: Vec<Json> = Vec::new();
    let mut unsupported: Vec<u64> = Vec::new();
    let mut i: usize = 0;
    assert(trees(networks@) =~= Seq::<Tree>::empty());
    while i < records.len()
        invariant
            i <= records@.len(),
            all == trees(records@),
            trees(networks@) == networks_in(all.take(i as int), deployed@),
            unsupported@ == unsupported_in(all.take(i as int), deployed@),
        decreases records@.len() - i,
    {
        let record = &records[i];
        proof {
            assert(all.take(i + 1).drop_last() =~= all.take(i as int));
            assert(all.take(i + 1).last() == record@);
        }
        let enabled = match record.bool_of("enabled") {
            Some(b) => b,
            None => false,
        };
        let in_scope = match record.bool_of("inScope") {
            Some(b) => b,
            None => false,
        };
        if let Some(id) = record.u64_of("chainId") {
            if enabled && in_scope {
                if contains_id(deployed, id) {
                    let ghost before = networks@;
                    let row = row_of(record, id);
                    networks.push(row);
                    assert(trees(networks@) =~= trees(before).push(row@));
                } else {
                    unsupported.push(id);
                }
            }
        }
        i += 1;
    }
    assert(all.take(records@.len() as int) =~= all);
    (networks, unsupported)
}

proof fn lemma_row(record: Tree, id: u64)
    ensures
        network_row(record, id).unsigned_at("chainId"@) == Some(id),
        forall|k: Seq<char>|
            k != "chainId"@ && k != "enabled"@ && k != "inScope"@ && k != "name"@ && k
                != "nativeSymbol"@ && k != "nativeDecimals"@ && k != "testnet"@ && k
                != "verifiedProxyMode"@ ==> #[trigger] network_row(record, id).get(k) is None,
{
    reveal_strlit("chainId");
    reveal_strlit("enabled");
    reveal_strlit("inScope");
    reveal_strlit("name");
    reveal_strlit("nativeSymbol");
    reveal_strlit("nativeDecimals");
    reveal_strlit("testnet");
    reveal_strlit("verifiedProxyMode");
    assert("chainId"@.len() == 7 && "chainId"@[0] == 'c');
    assert("enabled"@.len() == 7 && "enabled"@[0] == 'e');
    assert("inScope"@.len() == 7 && "inScope"@[0] == 'i');
    assert("name"@.len() == 4);
    assert("nativeSymbol"@.len() == 12);
    assert("nativeDecimals"@.len() == 14);
    assert("testnet"@.len() == 7 && "testnet"@[0] == 't');
    assert("verifiedProxyMode"@.len() == 17);
}

/// A view gets names, not endpoints: of a record it is told the chain, its switches and what it is
/// called, and nothing else.
pub proof fn law_names_not_endpoints(record: Tree, id: u64, key: Seq<char>)
    requires
        network_row(record, id).get(key) is Some,
    ensures
        key == "chainId"@ || key == "enabled"@ || key == "inScope"@ || key == "name"@ || key
            == "nativeSymbol"@ || key == "nativeDecimals"@ || key == "testnet"@ || key
            == "verifiedProxyMode"@,
{
    lemma_row(record, id);
}

/// A chain that is switched on and in scope is a network where Uniswap is deployed, and named as
/// unsupported where it is not; no other chain is either.
pub proof fn law_live_chains_are_split(records: Seq<Tree>, deployed: Seq<u64>, id: u64)
    ensures
        (exists|i: int|
            0 <= i < networks_in(records, deployed).len() && (#[trigger] networks_in(
                records,
                deployed,
            )[i]).unsigned_at("chainId"@) == Some(id)) <==> deployed.contains(id) && (exists|i: int|

            0 <= i < records.len() && live_chain(#[trigger] records[i]) == Some(id)),
        unsupported_in(records, deployed).contains(id) <==> !deployed.contains(id) && (exists|
            i: int,
        |
            0 <= i < records.len() && live_chain(#[trigger] records[i]) == Some(id)),
    decreases records.len(),
{
    if records.len() > 0 {
        let head = records.drop_last();
        let last = records.last();
        law_live_chains_are_split(head, deployed, id);
        let rows = networks_in(records, deployed);
        let before = networks_in(head, deployed);
        let missing = unsupported_in(records, deployed);
        let missing_before = unsupported_in(head, deployed);
        assert(records[records.len() - 1] == last);
        if exists|i: int| 0 <= i < head.len() && live_chain(#[trigger] head[i]) == Some(id) {
            let i = choose|i: int|
                0 <= i < head.len() && live_chain(#[trigger] head[i]) == Some(id);
            assert(records[i] == head[i]);
        }
        if exists|i: int| 0 <= i < records.len() && live_chain(#[trigger] records[i]) == Some(id) {
            let i = choose|i: int|
                0 <= i < records.len() && live_chain(#[trigger] records[i]) == Some(id);
            if i < head.len() {
                assert(head[i] == records[i]);
            }
        }
        if exists|i: int|
            0 <= i < before.len() && (#[trigger] before[i]).unsigned_at("chainId"@) == Some(id) {
            let i = choose|i: int|
                0 <= i < before.len() && (#[trigger] before[i]).unsigned_at("chainId"@) == Some(id);
            assert(rows[i] == before[i]);
        }
        if missing_before.contains(id) {
            let i = choose|i: int| 0 <= i < missing_before.len() && missing_before[i] == id;
            assert(missing[i] == id);
        }
        if let Some(n) = live_chain(last) {
            lemma_row(last, n);
            if deployed.contains(n) {
                assert(rows[rows.len() - 1] == network_row(last, n));
            } else {
                assert(missing[missing.len() - 1] == n);
            }
        }
        if exists|i: int|
            0 <= i < rows.len() && (#[trigger] rows[i]).unsigned_at("chainId"@) == Some(id) {
            let i = choose|i: int|
                0 <= i < rows.len() && (#[trigger] rows[i]).unsigned_at("chainId"@) == Some(id);
            if i < before.len() {
                assert(before[i] == rows[i]);
            }
        }
        if missing.contains(id) {
            let i = choose|i: int| 0 <= i < missing.len() && missing[i] == id;
            if i < missing_before.len() {
                assert(missing_before[i] == id);
            }
        }
    }
}

/// A record is told of under the names it has for itself: its chain, that it is on and in scope,
/// and each of its names, as the record has it and where it has it.
pub proof fn law_what_a_network_is_called(record: Tree, id: u64)
    ensures
        ({
            let row = network_row(record, id);
            &&& row.get("chainId"@) == Some(Tree::Unsigned(id))
            &&& row.get("enabled"@) == Some(Tree::Bool(true))
            &&& row.get("inScope"@) == Some(Tree::Bool(true))
            &&& row.get("name"@) == record.get("name"@)
            &&& row.get("nativeSymbol"@) == record.get("nativeSymbol"@)
            &&& row.get("nativeDecimals"@) == record.get("nativeDecimals"@)
            &&& row.get("testnet"@) == record.get("testnet"@)
            &&& row.get("verifiedProxyMode"@) == record.get("verifiedProxyMode"@)
        }),
{
    reveal_strlit("chainId");
    reveal_strlit("enabled");
    reveal_strlit("inScope");
    reveal_strlit("name");
    reveal_strlit("nativeSymbol");
    reveal_strlit("nativeDecimals");
    reveal_strlit("testnet");
    reveal_strlit("verifiedProxyMode");
    assert("chainId"@.len() == 7 && "chainId"@[0] == 'c');
    assert("enabled"@.len() == 7 && "enabled"@[0] == 'e');
    assert("inScope"@.len() == 7 && "inScope"@[0] == 'i');
    assert("name"@.len() == 4);
    assert("nativeSymbol"@.len() == 12);
    assert("nativeDecimals"@.len() == 14);
    assert("testnet"@.len() == 7 && "testnet"@[0] == 't');
    assert("verifiedProxyMode"@.len() == 17);
}

/// The records are told of in their order. One more that is on and in scope, and whose chain is a
/// number, is one more network where Uniswap is deployed on its chain, and one more chain that is
/// missing where it is not; any other adds nothing. The chains of a list are the numbers it names,
/// in its order.
pub proof fn law_one_more_record(records: Seq<Tree>, record: Tree, deployed: Seq<u64>)
    ensures
        chain_ids(Seq::empty()) == Seq::<u64>::empty(),
        networks_in(Seq::empty(), deployed) == Seq::<Tree>::empty(),
        unsupported_in(Seq::empty(), deployed) == Seq::<u64>::empty(),
        chain_ids(records.push(record)) == (match record.get("chainId"@) {
            Some(Tree::Unsigned(id)) => chain_ids(records).push(id),
            _ => chain_ids(records),
        }),
        ({
            let (rows, missing) = (
                networks_in(records, deployed),
                unsupported_in(records, deployed),
            );
            let more = records.push(record);
            match record.get("chainId"@) {
                Some(Tree::Unsigned(id)) => if record.get("enabled"@) == Some(Tree::Bool(true))
                    && record.get("inScope"@) == Some(Tree::Bool(true)) {
                    if deployed.contains(id) {
                        networks_in(more, deployed) == rows.push(network_row(record, id))
                            && unsupported_in(more, deployed) == missing
                    } else {
                        networks_in(more, deployed) == rows && unsupported_in(more, deployed)
                            == missing.push(id)
                    }
                } else {
                    networks_in(more, deployed) == rows && unsupported_in(more, deployed) == missing
                },
                _ => networks_in(more, deployed) == rows && unsupported_in(more, deployed)
                    == missing,
            }
        }),
{
    assert(records.push(record).drop_last() =~= records);
}

} // verus!

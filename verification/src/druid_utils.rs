//! The check that matched transactions realise what they expect of each other.

use vstd::prelude::*;
use crate::encoding::{construct_inputs_fingerprint, spec_inputs_fingerprint};
use crate::primitives::{DruidExpectation, Transaction, TransactionModel, Triple};
use crate::script_utils::same_text;

verus! {

/// A transaction carries the given druid.
pub open spec fn carries_druid(tx: TransactionModel, druid: Seq<char>) -> bool {
    tx.druid_info is Some && tx.druid_info->0.druid == druid
}

/// What output `k` of a transaction realises: its value goes from the sender of the
/// transaction to the address of the output.
pub open spec fn realized_by(tx: TransactionModel, k: int) -> Triple {
    Triple {
        from: spec_inputs_fingerprint(tx.inputs),
        to: tx.outputs[k].script_public_key->0,
        asset: tx.outputs[k].value,
    }
}

/// One of the first `k` outputs of a transaction has an address and realises `t`.
pub open spec fn realized_upto(tx: TransactionModel, k: int, t: Triple) -> bool {
    exists|j: int|
        0 <= j < k && tx.outputs[j].script_public_key is Some && #[trigger] realized_by(tx, j)
            == t
}

/// Some output with an address, of some transaction that carries the druid, realises `t`.
pub open spec fn realized(txs: Seq<TransactionModel>, druid: Seq<char>, t: Triple) -> bool {
    exists|i: int, k: int|
        0 <= i < txs.len() && carries_druid(#[trigger] txs[i], druid) && 0 <= k
            < txs[i].outputs.len() && txs[i].outputs[k].script_public_key is Some
            && #[trigger] realized_by(txs[i], k) == t
}

/// Every expectation of every transaction that carries the druid is realised.
pub open spec fn expectations_met(txs: Seq<TransactionModel>, druid: Seq<char>) -> bool {
    forall|i: int, k: int|
        0 <= i < txs.len() && carries_druid(#[trigger] txs[i], druid) && 0 <= k
            < txs[i].druid_info->0.expectations.len() ==> realized(
            txs,
            druid,
            #[trigger] txs[i].druid_info->0.expectations[k],
        )
}

/// The values of a batch of transactions.
pub open spec fn tx_models(txs: Seq<Transaction>) -> Seq<TransactionModel> {
    txs.map_values(|t: Transaction| t@)
}

/// The values of a list of triples.
pub open spec fn triple_models(list: Seq<DruidExpectation>) -> Seq<Triple> {
    list.map_values(|e: DruidExpectation| e@)
}

/// Whether a transaction carries the given druid.
pub fn tx_carries_druid(tx: &Transaction, druid: &str) -> (r: bool)
    ensures
        r == carries_druid(tx@, druid@),
{
    match &tx.druid_info {
        Some(info) => same_text(info.druid.as_str(), druid),
        None => false,
    }
}

/// Collects what the outputs of the transactions that carry the druid realise.
#[verifier::rlimit(40)]
pub fn collect_realized(druid: &str, transactions: &[Transaction]) -> (list: Vec<DruidExpectation>)
    ensures
        forall|t: Triple|
            triple_models(list@).contains(t) <==> realized(tx_models(transactions@), druid@, t),
{
    let ghost txs = tx_models(transactions@);
    let mut list: Vec<DruidExpectation> = Vec::new();
    let mut i: usize = 0;
    while i < transactions.len()
        invariant
            i <= transactions@.len(),
            txs == tx_models(transactions@),
            forall|t: Triple|
                triple_models(list@).contains(t) <==> realized(txs.subrange(0, i as int), druid@, t),
        decreases transactions@.len() - i,
    {
        let tx = &transactions[i];
        assert(txs[i as int] == tx@);
        let ghost before_tx = triple_models(list@);
        if tx_carries_druid(tx, druid) {
            let from = construct_inputs_fingerprint(&tx.inputs);
            let mut k: usize = 0;
            while k < tx.outputs.len()
                invariant
                    k <= tx.outputs@.len(),
                    from@ == spec_inputs_fingerprint(tx@.inputs),
                    tx@.outputs.len() == tx.outputs@.len(),
                    forall|t: Triple|
                        #[trigger] triple_models(list@).contains(t) <==> (before_tx.contains(t)
                            || realized_upto(tx@, k as int, t)),
                decreases tx.outputs@.len() - k,
            {
                let out = &tx.outputs[k];
                assert(tx@.outputs[k as int] == out@);
                let ghost before = triple_models(list@);
                if let Some(to) = &out.script_public_key {
                    let entry = DruidExpectation {
                        from: from.clone(),
                        to: to.clone(),
                        asset: out.value.duplicate(),
                    };
                    assert(entry@ == realized_by(tx@, k as int));
                    list.push(entry);
                    assert(triple_models(list@) =~= before.push(realized_by(tx@, k as int)));
                    assert forall|t: Triple|
                        triple_models(list@).contains(t) <==> (before.contains(t) || t
                            == realized_by(tx@, k as int)) by {
                        if before.contains(t) {
                            let j = choose|j: int| 0 <= j < before.len() && before[j] == t;
                            assert(triple_models(list@)[j] == t);
                        }
                        if t == realized_by(tx@, k as int) {
                            assert(triple_models(list@)[before.len() as int] == t);
                        }
                    }
                }
                proof {
                    let now = triple_models(list@);
                    let here = realized_by(tx@, k as int);
                    assert forall|t: Triple| #[trigger]
                        now.contains(t) <==> (before_tx.contains(t) || realized_upto(
                            tx@,
                            k + 1,
                            t,
                        )) by {
                        assert(before.contains(t) <==> (before_tx.contains(t) || realized_upto(
                            tx@,
                            k as int,
                            t,
                        )));
                        if realized_upto(tx@, k as int, t) {
                            let j = choose|j: int|
                                0 <= j < k && tx@.outputs[j].script_public_key is Some
                                    && #[trigger] realized_by(tx@, j) == t;
                            assert(0 <= j < k + 1 && realized_by(tx@, j) == t);
                        }
                        if out@.script_public_key is Some && t == here {
                            assert(0 <= k < k + 1 && realized_by(tx@, k as int) == t);
                        }
                        if realized_upto(tx@, k + 1, t) {
                            let j = choose|j: int|
                                0 <= j < k + 1 && tx@.outputs[j].script_public_key is Some
                                    && #[trigger] realized_by(tx@, j) == t;
                            if j < k {
                                assert(realized_by(tx@, j) == t);
                                assert(realized_upto(tx@, k as int, t));
                            }
                        }
                    }
                }
                k += 1;
            }
        }
        proof {
            let prev = txs.subrange(0, i as int);
            let next = txs.subrange(0, i + 1);
            assert forall|t: Triple|
                triple_models(list@).contains(t) <==> realized(next, druid@, t) by {
                if realized(next, druid@, t) {
                    let (a, b) = choose|a: int, b: int|
                        0 <= a < next.len() && carries_druid(#[trigger] next[a], druid@) && 0 <= b
                            < next[a].outputs.len() && next[a].outputs[b].script_public_key
                            is Some && #[trigger] realized_by(next[a], b) == t;
                    if a < i {
                        assert(prev[a] == next[a]);
                        assert(realized_by(prev[a], b) == t);
                        assert(realized(prev, druid@, t));
                    } else {
                        assert(next[a] == tx@);
                        assert(realized_by(tx@, b) == t);
                    }
                }
                if before_tx.contains(t) {
                    assert(realized(prev, druid@, t));
                    let (a, b) = choose|a: int, b: int|
                        0 <= a < prev.len() && carries_druid(#[trigger] prev[a], druid@) && 0 <= b
                            < prev[a].outputs.len() && prev[a].outputs[b].script_public_key
                            is Some && #[trigger] realized_by(prev[a], b) == t;
                    assert(next[a] == prev[a]);
                    assert(realized_by(next[a], b) == t);
                }
                if carries_druid(tx@, druid@) && realized_upto(tx@, tx@.outputs.len() as int, t) {
                    let j = choose|j: int|
                        0 <= j < tx@.outputs.len() && tx@.outputs[j].script_public_key is Some
                            && #[trigger] realized_by(tx@, j) == t;
                    assert(next[i as int] == tx@);
                    assert(realized_by(next[i as int], j) == t);
                }
            }
        }
        i += 1;
    }
    assert(txs.subrange(0, i as int) =~= txs);
    list
}

/// Whether a list of triples holds the given one.
pub fn holds_triple(list: &Vec<DruidExpectation>, wanted: &DruidExpectation) -> (r: bool)
    ensures
        r == triple_models(list@).contains(wanted@),
{
    let mut i: usize = 0;
    while i < list.len()
        invariant
            i <= list@.len(),
            forall|j: int| 0 <= j < i ==> triple_models(list@)[j] != wanted@,
        decreases list@.len() - i,
    {
        let e = &list[i];
        if same_text(e.from.as_str(), wanted.from.as_str()) && same_text(
            e.to.as_str(),
            wanted.to.as_str(),
        ) && e.asset.same_as(&wanted.asset) {
            assert(triple_models(list@)[i as int] == wanted@);
            return true;
        }
        i += 1;
    }
    false
}

/// Verifies that every expectation of the transactions that carry `druid` is realised by
/// an output of one of them.
#[verifier::rlimit(40)]
pub fn druid_expectations_are_met(druid: String, transactions: &[Transaction]) -> (r: bool)
    ensures
        r == expectations_met(tx_models(transactions@), druid@),
{
    let ghost txs = tx_models(transactions@);
    let realized_list = collect_realized(druid.as_str(), transactions);
    let mut i: usize = 0;
    while i < transactions.len()
        invariant
            i <= transactions@.len(),
            txs == tx_models(transactions@),
            forall|t: Triple|
                triple_models(realized_list@).contains(t) <==> realized(txs, druid@, t),
            forall|a: int, b: int|
                0 <= a < i && carries_druid(#[trigger] txs[a], druid@) && 0 <= b
                    < txs[a].druid_info->0.expectations.len() ==> realized(
                    txs,
                    druid@,
                    #[trigger] txs[a].druid_info->0.expectations[b],
                ),
        decreases transactions@.len() - i,
    {
        let tx = &transactions[i];
        assert(txs[i as int] == tx@);
        if tx_carries_druid(tx, druid.as_str()) {
            if let Some(info) = &tx.druid_info {
                let mut k: usize = 0;
                while k < info.expectations.len()
                    invariant
                        k <= info.expectations@.len(),
                        i < transactions@.len(),
                        txs == tx_models(transactions@),
                        txs[i as int] == tx@,
                        carries_druid(tx@, druid@),
                        tx@.druid_info->0 == info@,
                        forall|t: Triple|
                            triple_models(realized_list@).contains(t) <==> realized(
                                txs,
                                druid@,
                                t,
                            ),
                        forall|b: int|
                            0 <= b < k ==> realized(
                                txs,
                                druid@,
                                #[trigger] info@.expectations[b],
                            ),
                    decreases info.expectations@.len() - k,
                {
                    assert(info@.expectations[k as int] == info.expectations@[k as int]@);
                    if !holds_triple(&realized_list, &info.expectations[k]) {
                        assert(!realized(
                            txs,
                            druid@,
                            txs[i as int].druid_info->0.expectations[k as int],
                        ));
                        return false;
                    }
                    k += 1;
                }
            }
        }
        i += 1;
    }
    true
}

} // verus!

//! The accumulator that sums what a transaction spends and what it pays out.

use vstd::prelude::*;
use crate::primitives::{Asset, AssetModel};

verus! {

/// The receipts counted so far for one creating transaction.
#[derive(Clone, Debug, PartialEq, Eq)]
pub struct ReceiptCount {
    pub drs_tx_hash: String,
    pub amount: u128,
}

/// Sum of the tokens and, per creating transaction, of the receipts of a list of assets.
/// Of several counts for one creating transaction the last is the one that holds.
#[derive(Clone, Debug, Default)]
pub struct AssetValues {
    pub tokens: u128,
    pub receipts: Vec<ReceiptCount>,
}

/// The mathematical value of an `AssetValues`.
pub struct Ledger {
    pub tokens: nat,
    pub receipts: Map<Seq<char>, nat>,
}

/// The counts that the first `n` entries of a list give.
pub open spec fn counts_map(list: Seq<ReceiptCount>, n: nat) -> Map<Seq<char>, nat>
    decreases n,
{
    if n == 0 {
        Map::empty()
    } else {
        counts_map(list, (n - 1) as nat).insert(
            list[n - 1].drs_tx_hash@,
            list[n - 1].amount as nat,
        )
    }
}

/// The empty ledger.
pub open spec fn empty_ledger() -> Ledger {
    Ledger { tokens: 0, receipts: Map::empty() }
}

/// The receipts counted for `drs`; zero where none were.
pub open spec fn count_of(l: Ledger, drs: Seq<char>) -> nat {
    if l.receipts.dom().contains(drs) {
        l.receipts[drs]
    } else {
        0
    }
}

/// The ledger after adding an asset: tokens add to the token sum, receipts that name
/// their creating transaction add to its count, anything else adds nothing.
pub open spec fn ledger_add(l: Ledger, a: AssetModel) -> Ledger {
    match a {
        AssetModel::Token { amount } => Ledger { tokens: l.tokens + amount as nat, receipts: l.receipts },
        AssetModel::Receipt { amount, drs_tx_hash: Some(drs), metadata } => Ledger {
            tokens: l.tokens,
            receipts: l.receipts.insert(drs, count_of(l, drs) + amount as nat),
        },
        _ => l,
    }
}

/// Two ledgers are equal if the token sums are equal and the same creating transactions
/// have the same counts.
pub open spec fn ledger_eq(a: Ledger, b: Ledger) -> bool {
    a.tokens == b.tokens && a.receipts =~= b.receipts
}

impl View for AssetValues {
    type V = Ledger;

    open spec fn view(&self) -> Ledger {
        Ledger {
            tokens: self.tokens as nat,
            receipts: counts_map(self.receipts@, self.receipts@.len()),
        }
    }
}

/// The counts of the first `n` entries do not depend on later entries.
pub proof fn lemma_counts_prefix(a: Seq<ReceiptCount>, b: Seq<ReceiptCount>, n: nat)
    requires
        n <= a.len(),
        n <= b.len(),
        forall|i: int| 0 <= i < n ==> a[i] == b[i],
    ensures
        counts_map(a, n) == counts_map(b, n),
    decreases n,
{
    if n > 0 {
        lemma_counts_prefix(a, b, (n - 1) as nat);
    }
}

/// A key is counted exactly if some entry has it, and its count is that of the last
/// entry that has it.
#[verifier::rlimit(40)]
pub proof fn lemma_counts_lookup(list: Seq<ReceiptCount>, n: nat, key: Seq<char>)
    requires
        n <= list.len(),
    ensures
        counts_map(list, n).dom().contains(key) <==> exists|i: int|
            0 <= i < n && (#[trigger] list[i]).drs_tx_hash@ == key,
        forall|j: int|
            0 <= j < n && (#[trigger] list[j]).drs_tx_hash@ == key && (forall|k: int|
                j < k < n ==> (#[trigger] list[k]).drs_tx_hash@ != key) ==> counts_map(list, n)[key]
                == list[j].amount,
    decreases n,
{
    if n > 0 {
        lemma_counts_lookup(list, (n - 1) as nat, key);
        if list[n - 1].drs_tx_hash@ == key {
            assert(counts_map(list, n).dom().contains(key));
        } else {
            assert forall|j: int|
                0 <= j < n && (#[trigger] list[j]).drs_tx_hash@ == key && (forall|k: int|
                    j < k < n ==> (#[trigger] list[k]).drs_tx_hash@ != key) implies counts_map(
                list,
                n,
            )[key] == list[j].amount by {
                assert(j < n - 1);
                assert(forall|k: int|
                    j < k < n - 1 ==> (#[trigger] list[k]).drs_tx_hash@ != key);
            }
        }
    }
}

impl AssetValues {
    /// Nothing counted.
    pub fn new() -> (r: Self)
        ensures
            r@ == empty_ledger(),
            r.within(0),
    {
        AssetValues { tokens: 0, receipts: Vec::new() }
    }

    /// No sum held is over `cap`.
    pub open spec fn within(&self, cap: nat) -> bool {
        &&& self.tokens <= cap
        &&& forall|i: int| 0 <= i < self.receipts@.len() ==> (#[trigger] self.receipts@[i]).amount <= cap
    }

    /// The receipts counted for a creating transaction, if any were.
    pub fn lookup(&self, drs_tx_hash: &String) -> (r: Option<u128>)
        ensures
            r is Some == self@.receipts.dom().contains(drs_tx_hash@),
            r is Some ==> r->0 == self@.receipts[drs_tx_hash@],
            forall|cap: nat| self.within(cap) && r is Some ==> r->0 <= cap,
    {
        let mut j: usize = self.receipts.len();
        while j > 0
            invariant
                j <= self.receipts@.len(),
                forall|k: int|
                    j <= k < self.receipts@.len() ==> (#[trigger] self.receipts@[k]).drs_tx_hash@
                        != drs_tx_hash@,
            decreases j,
        {
            j -= 1;
            if self.receipts[j].drs_tx_hash == *drs_tx_hash {
                proof {
                    lemma_counts_lookup(self.receipts@, self.receipts@.len(), drs_tx_hash@);
                    assert(self.receipts@[j as int].drs_tx_hash@ == drs_tx_hash@);
                }
                return Some(self.receipts[j].amount);
            }
        }
        proof {
            lemma_counts_lookup(self.receipts@, self.receipts@.len(), drs_tx_hash@);
        }
        None
    }

    /// Adds an asset to the sums.
    pub fn update_add(&mut self, rhs: &Asset)
        requires
            old(self).within((u128::MAX - u64::MAX) as nat),
        ensures
            final(self)@ == ledger_add(old(self)@, rhs@),
            forall|cap: nat| old(self).within(cap) ==> final(self).within(cap + u64::MAX as nat),
    {
        match rhs {
            Asset::Token(amount) => {
                self.tokens = self.tokens + amount.0 as u128;
            },
            Asset::Receipt(receipt) => {
                match &receipt.drs_tx_hash {
                    Some(drs) => {
                        let so_far: u128 = match self.lookup(drs) {
                            Some(n) => n,
                            None => 0,
                        };
                        let ghost before = self.receipts@;
                        self.receipts.push(
                            ReceiptCount {
                                drs_tx_hash: drs.clone(),
                                amount: so_far + receipt.amount as u128,
                            },
                        );
                        proof {
                            lemma_counts_prefix(before, self.receipts@, before.len());
                        }
                    },
                    None => {},
                }
            },
            _ => {},
        }
    }

    /// Whether every count of `self` is also held by `other`.
    fn counts_held_by(&self, other: &AssetValues) -> (r: bool)
        ensures
            r == (forall|key: Seq<char>| #[trigger]
                self@.receipts.dom().contains(key) ==> other@.receipts.dom().contains(key)
                    && other@.receipts[key] == self@.receipts[key]),
    {
        let mut i: usize = 0;
        while i < self.receipts.len()
            invariant
                i <= self.receipts@.len(),
                forall|k: int|
                    0 <= k < i ==> other@.receipts.dom().contains(
                        (#[trigger] self.receipts@[k]).drs_tx_hash@,
                    ) && other@.receipts[self.receipts@[k].drs_tx_hash@]
                        == self@.receipts[self.receipts@[k].drs_tx_hash@],
            decreases self.receipts@.len() - i,
        {
            let key = &self.receipts[i].drs_tx_hash;
            let mine = self.lookup(key);
            let theirs = other.lookup(key);
            proof {
                lemma_counts_lookup(self.receipts@, self.receipts@.len(), key@);
                assert(self.receipts@[i as int].drs_tx_hash@ == key@);
            }
            match (mine, theirs) {
                (Some(a), Some(b)) => {
                    if a != b {
                        assert(self@.receipts.dom().contains(key@));
                        return false;
                    }
                },
                _ => {
                    assert(self@.receipts.dom().contains(key@));
                    return false;
                },
            }
            i += 1;
        }
        proof {
            assert forall|key: Seq<char>| #[trigger]
                self@.receipts.dom().contains(key) implies other@.receipts.dom().contains(key)
                && other@.receipts[key] == self@.receipts[key] by {
                lemma_counts_lookup(self.receipts@, self.receipts@.len(), key);
                let k = choose|k: int|
                    0 <= k < self.receipts@.len() && (#[trigger] self.receipts@[k]).drs_tx_hash@
                        == key;
                assert(self.receipts@[k].drs_tx_hash@ == key);
            }
        }
        true
    }

    /// Whether the token sums are equal and the same creating transactions have the same
    /// counts.
    pub fn is_equal(&self, rhs: &AssetValues) -> (r: bool)
        ensures
            r == ledger_eq(self@, rhs@),
    {
        self.tokens == rhs.tokens && self.counts_held_by(rhs) && rhs.counts_held_by(self)
    }
}

} // verus!

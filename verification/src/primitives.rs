//! Assets, outpoints, inputs, outputs and transactions: the data the validators read.

use vstd::prelude::*;
use crate::lang::Script;
use crate::opcodes::Item;

verus! {

/// An amount of tokens.
#[derive(Clone, Copy, Debug, PartialEq, Eq, PartialOrd, Ord, Hash, Default)]
pub struct TokenAmount(pub u64);

/// A data asset: a payload and how many of it.
#[derive(Clone, Debug, PartialEq, Eq, PartialOrd, Ord, Hash, Default)]
pub struct DataAsset {
    pub data: Vec<u8>,
    pub amount: u64,
}

/// A receipt asset: how many, the transaction that created the receipts, and metadata
/// that only a creation may carry.
#[derive(Clone, Debug, PartialEq, Eq, PartialOrd, Ord, Hash, Default)]
pub struct ReceiptAsset {
    pub amount: u64,
    pub drs_tx_hash: Option<String>,
    pub metadata: Option<String>,
}

/// The value of an output.
#[derive(Clone, Debug, PartialEq, Eq, PartialOrd, Ord, Hash)]
pub enum Asset {
    Token(TokenAmount),
    Data(DataAsset),
    Receipt(ReceiptAsset),
}

/// The mathematical value of an `Asset`.
pub enum AssetModel {
    Token { amount: u64 },
    Data { data: Seq<u8>, amount: u64 },
    Receipt { amount: u64, drs_tx_hash: Option<Seq<char>>, metadata: Option<Seq<char>> },
}

/// The text of an optional string.
pub open spec fn opt_text(s: Option<String>) -> Option<Seq<char>> {
    match s {
        Some(t) => Some(t@),
        None => None,
    }
}

impl View for Asset {
    type V = AssetModel;

    open spec fn view(&self) -> AssetModel {
        match self {
            Asset::Token(t) => AssetModel::Token { amount: t.0 },
            Asset::Data(d) => AssetModel::Data { data: d.data@, amount: d.amount },
            Asset::Receipt(r) => AssetModel::Receipt {
                amount: r.amount,
                drs_tx_hash: opt_text(r.drs_tx_hash),
                metadata: opt_text(r.metadata),
            },
        }
    }
}

/// A receipt without the transaction that created it gets `hash` for it; any other asset
/// stays as it is.
pub open spec fn fixed_hash(a: AssetModel, hash: Seq<char>) -> AssetModel {
    match a {
        AssetModel::Receipt { amount, drs_tx_hash: None, metadata } => AssetModel::Receipt {
            amount,
            drs_tx_hash: Some(hash),
            metadata,
        },
        _ => a,
    }
}

/// A copy of an optional string.
pub fn copy_opt_text(s: &Option<String>) -> (r: Option<String>)
    ensures
        opt_text(r) == opt_text(*s),
{
    match s {
        Some(t) => Some(t.clone()),
        None => None,
    }
}

/// Whether two optional strings hold the same text.
pub fn same_opt_text(a: &Option<String>, b: &Option<String>) -> (r: bool)
    ensures
        r == (opt_text(*a) == opt_text(*b)),
{
    match (a, b) {
        (Some(x), Some(y)) => *x == *y,
        (None, None) => true,
        _ => false,
    }
}

/// Whether two byte strings are the same.
pub fn same_bytes(a: &[u8], b: &[u8]) -> (r: bool)
    ensures
        r == (a@ == b@),
{
    if a.len() != b.len() {
        return false;
    }
    let mut i: usize = 0;
    while i < a.len()
        invariant
            i <= a@.len(),
            a@.len() == b@.len(),
            forall|j: int| 0 <= j < i ==> a@[j] == b@[j],
        decreases a@.len() - i,
    {
        if a[i] != b[i] {
            return false;
        }
        i += 1;
    }
    assert(a@ =~= b@);
    true
}

/// A copy of a byte string.
pub fn copy_bytes(a: &[u8]) -> (r: Vec<u8>)
    ensures
        r@ == a@,
{
    let mut r: Vec<u8> = Vec::new();
    let mut i: usize = 0;
    while i < a.len()
        invariant
            i <= a@.len(),
            r@ == a@.subrange(0, i as int),
        decreases a@.len() - i,
    {
        r.push(a[i]);
        assert(r@ =~= a@.subrange(0, i + 1));
        i += 1;
    }
    assert(a@.subrange(0, i as int) =~= a@);
    r
}

impl Default for Asset {
    fn default() -> (a: Self)
        ensures
            a@ == (AssetModel::Token { amount: 0 }),
    {
        Asset::Token(TokenAmount(0))
    }
}

impl Asset {
    /// A token asset.
    pub fn token_u64(amount: u64) -> (a: Self)
        ensures
            a@ == (AssetModel::Token { amount }),
    {
        Asset::Token(TokenAmount(amount))
    }

    /// A receipt asset.
    pub fn receipt(amount: u64, drs_tx_hash: Option<String>, metadata: Option<String>) -> (a:
        Self)
        ensures
            a@ == (AssetModel::Receipt {
                amount,
                drs_tx_hash: opt_text(drs_tx_hash),
                metadata: opt_text(metadata),
            }),
    {
        Asset::Receipt(ReceiptAsset { amount, drs_tx_hash, metadata })
    }

    /// Whether this is a token asset.
    pub fn is_token(&self) -> (r: bool)
        ensures
            r == (self@ is Token),
    {
        match self {
            Asset::Token(_) => true,
            _ => false,
        }
    }

    /// Whether this is a receipt asset.
    pub fn is_receipt(&self) -> (r: bool)
        ensures
            r == (self@ is Receipt),
    {
        match self {
            Asset::Receipt(_) => true,
            _ => false,
        }
    }

    /// The transaction that created the receipts, where this is a receipt that names it.
    pub fn get_drs_tx_hash(&self) -> (r: Option<&String>)
        ensures
            r is Some == (self@ is Receipt && self@->Receipt_drs_tx_hash is Some),
            r is Some ==> r->0@ == self@->Receipt_drs_tx_hash->0,
    {
        match self {
            Asset::Receipt(receipt) => receipt.drs_tx_hash.as_ref(),
            _ => None,
        }
    }

    /// The metadata, where this is a receipt that carries some.
    pub fn get_metadata(&self) -> (r: Option<&String>)
        ensures
            r is Some == (self@ is Receipt && self@->Receipt_metadata is Some),
            r is Some ==> r->0@ == self@->Receipt_metadata->0,
    {
        match self {
            Asset::Receipt(receipt) => receipt.metadata.as_ref(),
            _ => None,
        }
    }

    /// A copy of this asset.
    pub fn duplicate(&self) -> (r: Asset)
        ensures
            r@ == self@,
    {
        match self {
            Asset::Token(t) => Asset::Token(*t),
            Asset::Data(d) => Asset::Data(
                DataAsset { data: copy_bytes(d.data.as_slice()), amount: d.amount },
            ),
            Asset::Receipt(r) => Asset::Receipt(
                ReceiptAsset {
                    amount: r.amount,
                    drs_tx_hash: copy_opt_text(&r.drs_tx_hash),
                    metadata: copy_opt_text(&r.metadata),
                },
            ),
        }
    }

    /// Whether two assets are of the same kind with the same content.
    pub fn same_as(&self, other: &Asset) -> (r: bool)
        ensures
            r == (self@ == other@),
    {
        match (self, other) {
            (Asset::Token(a), Asset::Token(b)) => a.0 == b.0,
            (Asset::Data(a), Asset::Data(b)) => a.amount == b.amount && same_bytes(
                a.data.as_slice(),
                b.data.as_slice(),
            ),
            (Asset::Receipt(a), Asset::Receipt(b)) => a.amount == b.amount && same_opt_text(
                &a.drs_tx_hash,
                &b.drs_tx_hash,
            ) && same_opt_text(&a.metadata, &b.metadata),
            _ => false,
        }
    }

    /// Binds a receipt that names no creating transaction to the outpoint it is spent
    /// from.
    pub fn with_fixed_hash(self, out_point: &OutPoint) -> (r: Asset)
        ensures
            r@ == fixed_hash(self@, out_point.t_hash@),
    {
        match self {
            Asset::Receipt(receipt) => {
                if receipt.drs_tx_hash.is_none() {
                    Asset::Receipt(
                        ReceiptAsset {
                            amount: receipt.amount,
                            drs_tx_hash: Some(out_point.t_hash.clone()),
                            metadata: receipt.metadata,
                        },
                    )
                } else {
                    Asset::Receipt(receipt)
                }
            },
            other => other,
        }
    }
}

/// The place of an earlier output: the hash of its transaction and its index there.
#[derive(Clone, Debug, PartialEq, Eq, PartialOrd, Ord, Hash, Default)]
pub struct OutPoint {
    pub t_hash: String,
    pub n: i32,
}

/// The mathematical value of an `OutPoint`.
pub struct OutPointModel {
    pub t_hash: Seq<char>,
    pub n: i32,
}

impl View for OutPoint {
    type V = OutPointModel;

    open spec fn view(&self) -> OutPointModel {
        OutPointModel { t_hash: self.t_hash@, n: self.n }
    }
}

impl OutPoint {
    /// The outpoint of output `n` of the transaction with hash `t_hash`.
    pub fn new(t_hash: String, n: i32) -> (o: Self)
        ensures
            o@ == (OutPointModel { t_hash: t_hash@, n }),
    {
        OutPoint { t_hash, n }
    }

    /// A copy of this outpoint.
    pub fn duplicate(&self) -> (r: OutPoint)
        ensures
            r@ == self@,
    {
        OutPoint { t_hash: self.t_hash.clone(), n: self.n }
    }
}

/// An input: the output it spends and the script that authorises the spending.
#[derive(Clone, Debug, PartialEq, Eq, PartialOrd, Default)]
pub struct TxIn {
    pub previous_out: Option<OutPoint>,
    pub script_signature: Script,
}

/// The mathematical value of a `TxIn`.
pub struct TxInModel {
    pub previous_out: Option<OutPointModel>,
    pub script_signature: Seq<Item>,
}

impl View for TxIn {
    type V = TxInModel;

    open spec fn view(&self) -> TxInModel {
        TxInModel {
            previous_out: match self.previous_out {
                Some(o) => Some(o@),
                None => None,
            },
            script_signature: self.script_signature@,
        }
    }
}

impl TxIn {
    /// An input that spends nothing, with an empty script.
    pub fn new() -> (t: Self)
        ensures
            t@.previous_out is None,
            t@.script_signature.len() == 0,
    {
        TxIn { previous_out: None, script_signature: Script::new() }
    }

    /// An input that spends `previous_out` with `script_signature`.
    pub fn new_from_input(previous_out: OutPoint, script_signature: Script) -> (t: Self)
        ensures
            t@ == (TxInModel {
                previous_out: Some(previous_out@),
                script_signature: script_signature@,
            }),
    {
        TxIn { previous_out: Some(previous_out), script_signature }
    }
}

/// An output: a value and the address that may spend it.
#[derive(Clone, Debug, PartialEq, Eq, PartialOrd, Ord, Hash, Default)]
pub struct TxOut {
    pub value: Asset,
    pub locktime: u64,
    pub drs_block_hash: Option<String>,
    pub script_public_key: Option<String>,
}

/// The mathematical value of a `TxOut`, as far as the validators read it.
pub struct TxOutModel {
    pub value: AssetModel,
    pub script_public_key: Option<Seq<char>>,
}

impl View for TxOut {
    type V = TxOutModel;

    open spec fn view(&self) -> TxOutModel {
        TxOutModel { value: self.value@, script_public_key: opt_text(self.script_public_key) }
    }
}

impl TxOut {
    /// An output of no tokens to nobody.
    pub fn new() -> (t: Self)
        ensures
            t@ == (TxOutModel { value: AssetModel::Token { amount: 0 }, script_public_key: None }),
            t.locktime == 0,
            t.drs_block_hash is None,
    {
        TxOut {
            value: Asset::Token(TokenAmount(0)),
            locktime: 0,
            drs_block_hash: None,
            script_public_key: None,
        }
    }

    /// An output of `amount` tokens to the address `to_address`.
    pub fn new_token_amount(to_address: String, amount: TokenAmount) -> (t: Self)
        ensures
            t@ == (TxOutModel {
                value: AssetModel::Token { amount: amount.0 },
                script_public_key: Some(to_address@),
            }),
            t.locktime == 0,
            t.drs_block_hash is None,
    {
        TxOut {
            value: Asset::Token(amount),
            locktime: 0,
            drs_block_hash: None,
            script_public_key: Some(to_address),
        }
    }

    /// A copy of this output.
    pub fn duplicate(&self) -> (r: TxOut)
        ensures
            r@ == self@,
    {
        TxOut {
            value: self.value.duplicate(),
            locktime: self.locktime,
            drs_block_hash: copy_opt_text(&self.drs_block_hash),
            script_public_key: copy_opt_text(&self.script_public_key),
        }
    }

    /// An output of `asset` to the address `to_address`.
    pub fn new_asset(to_address: String, asset: Asset) -> (t: Self)
        ensures
            t@ == (TxOutModel { value: asset@, script_public_key: Some(to_address@) }),
            t.locktime == 0,
            t.drs_block_hash is None,
    {
        TxOut { value: asset, locktime: 0, drs_block_hash: None, script_public_key: Some(to_address) }
    }
}

/// What one party of a matched pair expects: who sends what to whom.
#[derive(Clone, Debug, PartialEq, Eq, PartialOrd, Ord, Hash, Default)]
pub struct DruidExpectation {
    pub from: String,
    pub to: String,
    pub asset: Asset,
}

/// The mathematical value of an expectation, and of what an output realises.
pub struct Triple {
    pub from: Seq<char>,
    pub to: Seq<char>,
    pub asset: AssetModel,
}

impl View for DruidExpectation {
    type V = Triple;

    open spec fn view(&self) -> Triple {
        Triple { from: self.from@, to: self.to@, asset: self.asset@ }
    }
}

/// The part of a transaction that ties it to its matched partners.
#[derive(Clone, Debug, PartialEq, Eq, PartialOrd, Ord, Hash, Default)]
pub struct DdeValues {
    pub druid: String,
    pub participants: usize,
    pub expectations: Vec<DruidExpectation>,
}

/// A transaction.
#[derive(Clone, Debug, PartialEq, Eq, PartialOrd, Default)]
pub struct Transaction {
    pub inputs: Vec<TxIn>,
    pub outputs: Vec<TxOut>,
    pub version: usize,
    pub druid_info: Option<DdeValues>,
}

/// The mathematical value of the druid part of a transaction.
pub struct DdeModel {
    pub druid: Seq<char>,
    pub expectations: Seq<Triple>,
}

/// The mathematical value of a `Transaction`, as far as the validators read it.
pub struct TransactionModel {
    pub inputs: Seq<TxInModel>,
    pub outputs: Seq<TxOutModel>,
    pub druid_info: Option<DdeModel>,
}

impl View for DdeValues {
    type V = DdeModel;

    open spec fn view(&self) -> DdeModel {
        DdeModel {
            druid: self.druid@,
            expectations: self.expectations@.map_values(|e: DruidExpectation| e@),
        }
    }
}

impl View for Transaction {
    type V = TransactionModel;

    open spec fn view(&self) -> TransactionModel {
        TransactionModel {
            inputs: self.inputs@.map_values(|i: TxIn| i@),
            outputs: self.outputs@.map_values(|o: TxOut| o@),
            druid_info: match self.druid_info {
                Some(d) => Some(d@),
                None => None,
            },
        }
    }
}

impl Transaction {
    /// A transaction without inputs and outputs.
    pub fn new() -> (t: Self)
        ensures
            t.inputs@.len() == 0,
            t.outputs@.len() == 0,
            t.version == 0,
            t.druid_info is None,
    {
        Transaction { inputs: Vec::new(), outputs: Vec::new(), version: 0, druid_info: None }
    }
}

} // verus!

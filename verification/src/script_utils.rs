//! The predicates that decide whether a transaction may spend its inputs.

use vstd::prelude::*;
use vstd::utf8::encode_utf8_decode_utf8;
use crate::asset_values::{empty_ledger, ledger_add, ledger_eq, AssetValues, Ledger};
use crate::constants::MAX_METADATA_BYTES;
use crate::encoding::{
    construct_p2sh_address, construct_tx_in_signable_asset_hash, construct_tx_in_signable_hash,
    input_models, spec_p2sh_address, spec_signable_asset_hash, spec_signable_hash,
};
use crate::lang::Script;
use crate::machine::interprets;
use crate::opcodes::{text_len, text_size, Item, OpCodes, StackEntry};
use crate::primitives::{
    fixed_hash, same_bytes, Asset, AssetModel, OutPoint, ReceiptAsset, Transaction, TxIn,
    TxInModel,
    TxOut, TxOutModel,
};

verus! {

/// Whether two texts are the same.
pub fn same_text(a: &str, b: &str) -> (r: bool)
    ensures
        r == (a@ == b@),
{
    proof {
        encode_utf8_decode_utf8(a@);
        encode_utf8_decode_utf8(b@);
    }
    same_bytes(a.as_bytes(), b.as_bytes())
}

/// An address is 32 or 64 bytes long.
pub open spec fn valid_address_length(address: Seq<char>) -> bool {
    text_size(address) == 32 || text_size(address) == 64
}

/// Checks that an address has a valid length.
pub fn address_has_valid_length(address: &str) -> (r: bool)
    ensures
        r == valid_address_length(address@),
{
    let n: usize = address.as_bytes().len();
    n == 32 || n == 64
}

/// The metadata of a receipt, where there is any, is within the size limit.
pub open spec fn valid_receipt_size(metadata: Option<Seq<char>>) -> bool {
    metadata is Some ==> text_size(metadata->0) <= MAX_METADATA_BYTES
}

/// Checks that the metadata of a receipt is within the size limit.
pub fn receipt_has_valid_size(receipt: &ReceiptAsset) -> (r: bool)
    ensures
        r == valid_receipt_size(crate::primitives::opt_text(receipt.metadata)),
{
    match &receipt.metadata {
        Some(metadata) => text_len(metadata) <= MAX_METADATA_BYTES,
        None => true,
    }
}

/// A script has the shape of an asset creation and commits to `asset_hash`.
pub open spec fn create_shape(s: Seq<Item>, asset_hash: Seq<char>) -> bool {
    &&& s.len() == 7
    &&& s[0] == Item::Op(OpCodes::OP_CREATE)
    &&& s[1] is Num
    &&& s[2] == Item::Op(OpCodes::OP_DROP)
    &&& s[3] == Item::Bytes(asset_hash)
    &&& s[4] is Signature
    &&& s[5] is PubKey
    &&& s[6] == Item::Op(OpCodes::OP_CHECKSIG)
}

/// A script creates `asset`: the metadata of a receipt is within its limit, the script
/// has the shape of a creation over the asset's signable hash, and it evaluates to true.
pub open spec fn valid_create_script(s: Seq<Item>, asset: AssetModel) -> bool {
    &&& asset is Receipt ==> valid_receipt_size(asset->Receipt_metadata)
    &&& create_shape(s, spec_signable_asset_hash(asset))
    &&& interprets(s)
}

/// One of the three opcodes that turn a key into an address.
pub open spec fn is_hash_op(op: OpCodes) -> bool {
    op == OpCodes::OP_HASH256 || op == OpCodes::OP_HASH256_V0 || op == OpCodes::OP_HASH256_TEMP
}

/// A script has the shape of a pay-to-public-key-hash over `outpoint_hash` and `address`.
pub open spec fn p2pkh_shape(s: Seq<Item>, outpoint_hash: Seq<char>, address: Seq<char>) -> bool {
    &&& s.len() == 8
    &&& s[0] == Item::Bytes(outpoint_hash)
    &&& s[1] is Signature
    &&& s[2] is PubKey
    &&& s[3] == Item::Op(OpCodes::OP_DUP)
    &&& s[4] is Op && is_hash_op(s[4]->Op_0)
    &&& s[5] == Item::PubKeyHash(address)
    &&& s[6] == Item::Op(OpCodes::OP_EQUALVERIFY)
    &&& s[7] == Item::Op(OpCodes::OP_CHECKSIG)
}

/// A script spends a pay-to-public-key-hash output: it has that shape and evaluates to
/// true.
pub open spec fn valid_p2pkh_sig(s: Seq<Item>, outpoint_hash: Seq<char>, address: Seq<char>) -> bool {
    p2pkh_shape(s, outpoint_hash, address) && interprets(s)
}

/// A script spends a pay-to-script-hash output: `address` is the address of the script,
/// and the script evaluates to true.
pub open spec fn valid_p2sh_script(s: Seq<Item>, address: Seq<char>) -> bool {
    spec_p2sh_address(s) == address && interprets(s)
}

/// Whether an entry is the given opcode.
pub fn is_op(entry: &StackEntry, op: OpCodes) -> (r: bool)
    ensures
        r == (entry@ == Item::Op(op)),
{
    match entry {
        StackEntry::Op(o) => *o == op,
        _ => false,
    }
}

/// Whether an entry is the given text as `Bytes`.
pub fn is_bytes(entry: &StackEntry, text: &str) -> (r: bool)
    ensures
        r == (entry@ == Item::Bytes(text@)),
{
    match entry {
        StackEntry::Bytes(b) => same_text(b.as_str(), text),
        _ => false,
    }
}

/// Checks the shape of an asset creation script over a given asset hash.
pub fn has_create_shape(script: &Script, asset_hash: &str) -> (r: bool)
    ensures
        r == create_shape(script@, asset_hash@),
{
    let s = &script.stack;
    if s.len() != 7 {
        return false;
    }
    proof {
        assert forall|i: int| 0 <= i < 7 implies script@[i] == (#[trigger] s@[i])@ by {}
    }
    is_op(&s[0], OpCodes::OP_CREATE) && matches!(s[1], StackEntry::Num(_)) && is_op(
        &s[2],
        OpCodes::OP_DROP,
    ) && is_bytes(&s[3], asset_hash) && matches!(s[4], StackEntry::Signature(_)) && matches!(
        s[5],
        StackEntry::PubKey(_)
    ) && is_op(&s[6], OpCodes::OP_CHECKSIG)
}

/// Checks the shape of a pay-to-public-key-hash script over a given hash and address.
pub fn has_p2pkh_shape(script: &Script, outpoint_hash: &str, address: &str) -> (r: bool)
    ensures
        r == p2pkh_shape(script@, outpoint_hash@, address@),
{
    let s = &script.stack;
    if s.len() != 8 {
        return false;
    }
    proof {
        assert forall|i: int| 0 <= i < 8 implies script@[i] == (#[trigger] s@[i])@ by {}
    }
    let hash_op = match &s[4] {
        StackEntry::Op(op) => match op {
            OpCodes::OP_HASH256 | OpCodes::OP_HASH256_V0 | OpCodes::OP_HASH256_TEMP => true,
            _ => false,
        },
        _ => false,
    };
    let address_entry = match &s[5] {
        StackEntry::PubKeyHash(h) => same_text(h.as_str(), address),
        _ => false,
    };
    is_bytes(&s[0], outpoint_hash) && matches!(s[1], StackEntry::Signature(_)) && matches!(
        s[2],
        StackEntry::PubKey(_)
    ) && is_op(&s[3], OpCodes::OP_DUP) && hash_op && address_entry && is_op(
        &s[6],
        OpCodes::OP_EQUALVERIFY,
    ) && is_op(&s[7], OpCodes::OP_CHECKSIG)
}

/// Checks whether a script validly creates `asset`.
pub fn tx_has_valid_create_script(script: &Script, asset: &Asset) -> (r: bool)
    ensures
        r == valid_create_script(script@, asset@),
{
    let asset_hash = construct_tx_in_signable_asset_hash(asset);
    if let Asset::Receipt(receipt) = asset {
        if !receipt_has_valid_size(receipt) {
            return false;
        }
    }
    has_create_shape(script, asset_hash.as_str()) && script.interpret()
}

/// Checks whether a script validly spends a pay-to-public-key-hash output at
/// `tx_out_pub_key`, committing to `outpoint_hash`.
pub fn tx_has_valid_p2pkh_sig(script: &Script, outpoint_hash: &str, tx_out_pub_key: &str) -> (r:
    bool)
    ensures
        r == valid_p2pkh_sig(script@, outpoint_hash@, tx_out_pub_key@),
{
    has_p2pkh_shape(script, outpoint_hash, tx_out_pub_key) && script.interpret()
}

/// Checks whether a script validly spends a pay-to-script-hash output at `address`.
pub fn tx_has_valid_p2sh_script(script: &Script, address: &str) -> (r: bool)
    ensures
        r == valid_p2sh_script(script@, address@),
{
    let p2sh_address = construct_p2sh_address(script);
    same_text(p2sh_address.as_str(), address) && script.interpret()
}

/// The values of a sequence of outputs.
pub open spec fn output_models(outs: Seq<TxOut>) -> Seq<TxOutModel> {
    outs.map_values(|o: TxOut| o@)
}

/// The ledger of the values of the first `n` outputs.
pub open spec fn ledger_of_outputs(outs: Seq<TxOutModel>, n: nat) -> Ledger
    decreases n,
{
    if n == 0 {
        empty_ledger()
    } else {
        ledger_add(ledger_of_outputs(outs, (n - 1) as nat), outs[n - 1].value)
    }
}

/// Every output that carries an address carries one of valid length.
pub open spec fn addresses_valid(outs: Seq<TxOutModel>) -> bool {
    forall|i: int|
        0 <= i < outs.len() && (#[trigger] outs[i]).script_public_key is Some
            ==> valid_address_length(outs[i].script_public_key->0)
}

/// The outputs are valid against what the inputs spend: the addresses have valid length,
/// and the outputs sum to the same ledger.
pub open spec fn outputs_valid(outs: Seq<TxOutModel>, spent: Ledger) -> bool {
    addresses_valid(outs) && ledger_eq(ledger_of_outputs(outs, outs.len()), spent)
}

/// Verifies the outputs of a transaction against what its inputs spend.
pub fn tx_outs_are_valid(tx_outs: &[TxOut], tx_ins_spent: AssetValues) -> (r: bool)
    ensures
        r == outputs_valid(output_models(tx_outs@), tx_ins_spent@),
{
    let mut tx_outs_spent = AssetValues::new();
    let ghost outs = output_models(tx_outs@);
    let mut i: usize = 0;
    while i < tx_outs.len()
        invariant
            i <= tx_outs@.len(),
            outs == output_models(tx_outs@),
            tx_outs_spent@ == ledger_of_outputs(outs, i as nat),
            tx_outs_spent.within((i * u64::MAX) as nat),
            forall|k: int|
                0 <= k < i && (#[trigger] outs[k]).script_public_key is Some
                    ==> valid_address_length(outs[k].script_public_key->0),
        decreases tx_outs@.len() - i,
    {
        assert(outs[i as int] == tx_outs@[i as int]@);
        if let Some(addr) = &tx_outs[i].script_public_key {
            if !address_has_valid_length(addr.as_str()) {
                return false;
            }
        }
        assert((i * u64::MAX) + u64::MAX <= u128::MAX) by (nonlinear_arith)
            requires
                i <= usize::MAX,
                usize::MAX <= u64::MAX,
        ;
        tx_outs_spent.update_add(&tx_outs[i].value);
        assert((i * u64::MAX) as nat + u64::MAX as nat == ((i + 1) * u64::MAX) as nat)
            by (nonlinear_arith);
        i += 1;
    }
    tx_outs_spent.is_equal(&tx_ins_spent)
}

/// No output is a receipt that names no creating transaction or carries metadata: a
/// receipt that is spent on must name where it came from and must not bring metadata.
pub open spec fn outputs_spendable(outs: Seq<TxOutModel>) -> bool {
    forall|i: int|
        0 <= i < outs.len() && (#[trigger] outs[i]).value is Receipt
            ==> outs[i].value->Receipt_drs_tx_hash is Some && outs[i].value->Receipt_metadata
            is None
}

/// An input is authorised by the output it spends: the input names an outpoint, the
/// output exists and carries an address, and the input's script validly spends it as
/// pay-to-public-key-hash or as pay-to-script-hash.
pub open spec fn input_authorized(input: TxInModel, previous: Option<TxOutModel>) -> bool {
    &&& input.previous_out is Some
    &&& previous is Some
    &&& previous->0.script_public_key is Some
    &&& (valid_p2pkh_sig(
        input.script_signature,
        spec_signable_hash(input.previous_out->0),
        previous->0.script_public_key->0,
    ) || valid_p2sh_script(input.script_signature, previous->0.script_public_key->0))
}

/// The ledger of what the first `n` inputs spend, each receipt bound to its outpoint
/// where it names no creating transaction.
pub open spec fn ledger_of_inputs(
    ins: Seq<TxInModel>,
    previous: Seq<Option<TxOutModel>>,
    n: nat,
) -> Ledger
    decreases n,
{
    if n == 0 {
        empty_ledger()
    } else {
        ledger_add(
            ledger_of_inputs(ins, previous, (n - 1) as nat),
            fixed_hash(previous[n - 1]->0.value, ins[n - 1].previous_out->0.t_hash),
        )
    }
}

/// A transaction is valid against the outputs its inputs spend (`previous`, one per
/// input, `None` where the lookup found nothing).
pub open spec fn tx_valid(
    ins: Seq<TxInModel>,
    outs: Seq<TxOutModel>,
    previous: Seq<Option<TxOutModel>>,
) -> bool {
    &&& outputs_spendable(outs)
    &&& forall|i: int| 0 <= i < ins.len() ==> input_authorized(#[trigger] ins[i], previous[i])
    &&& outputs_valid(outs, ledger_of_inputs(ins, previous, ins.len()))
}

/// The values of a sequence of looked-up outputs.
pub open spec fn lookup_models(previous: Seq<Option<TxOut>>) -> Seq<Option<TxOutModel>> {
    previous.map_values(
        |p: Option<TxOut>|
            match p {
                Some(o) => Some(o@),
                None => None,
            },
    )
}

/// Checks that no output is a receipt without creating transaction or with metadata.
fn outputs_are_spendable(tx_outs: &Vec<TxOut>) -> (r: bool)
    ensures
        r == outputs_spendable(output_models(tx_outs@)),
{
    let mut i: usize = 0;
    let ghost outs = output_models(tx_outs@);
    while i < tx_outs.len()
        invariant
            i <= tx_outs@.len(),
            outs == output_models(tx_outs@),
            forall|k: int|
                0 <= k < i && (#[trigger] outs[k]).value is Receipt
                    ==> outs[k].value->Receipt_drs_tx_hash is Some
                    && outs[k].value->Receipt_metadata is None,
        decreases tx_outs@.len() - i,
    {
        assert(outs[i as int] == tx_outs@[i as int]@);
        let value = &tx_outs[i].value;
        if value.is_receipt() && (value.get_drs_tx_hash().is_none()
            || value.get_metadata().is_some()) {
            return false;
        }
        i += 1;
    }
    true
}

/// Verifies a transaction against the outputs that its inputs spend, given one per input
/// in `previous` (`None` where the output is not among the unspent ones). A list that
/// does not hold one entry per input verifies nothing.
#[verifier::rlimit(40)]
pub fn tx_is_valid_against(tx: &Transaction, previous: &Vec<Option<TxOut>>) -> (r: bool)
    ensures
        r == (previous@.len() == tx.inputs@.len() && tx_valid(
            input_models(tx.inputs@),
            output_models(tx.outputs@),
            lookup_models(previous@),
        )),
{
    let ghost ins = input_models(tx.inputs@);
    let ghost prev = lookup_models(previous@);
    if previous.len() != tx.inputs.len() || !outputs_are_spendable(&tx.outputs) {
        return false;
    }
    let mut tx_ins_spent = AssetValues::new();
    let mut i: usize = 0;
    while i < tx.inputs.len()
        invariant
            i <= tx.inputs@.len(),
            previous@.len() == tx.inputs@.len(),
            ins == input_models(tx.inputs@),
            prev == lookup_models(previous@),
            tx_ins_spent@ == ledger_of_inputs(ins, prev, i as nat),
            tx_ins_spent.within((i * u64::MAX) as nat),
            forall|k: int| 0 <= k < i ==> input_authorized(#[trigger] ins[k], prev[k]),
        decreases tx.inputs@.len() - i,
    {
        assert(ins[i as int] == tx.inputs@[i as int]@);
        assert(prev[i as int] == lookup_models(previous@)[i as int]);
        let tx_in = &tx.inputs[i];
        let out_point = match &tx_in.previous_out {
            Some(o) => o,
            None => {
                assert(!input_authorized(ins[i as int], prev[i as int]));
                return false;
            },
        };
        let tx_out = match &previous[i] {
            Some(o) => o,
            None => {
                assert(!input_authorized(ins[i as int], prev[i as int]));
                return false;
            },
        };
        let authorized = match &tx_out.script_public_key {
            Some(pk) => {
                let tx_out_hash = construct_tx_in_signable_hash(out_point);
                tx_has_valid_p2pkh_sig(&tx_in.script_signature, tx_out_hash.as_str(), pk.as_str())
                    || tx_has_valid_p2sh_script(&tx_in.script_signature, pk.as_str())
            },
            None => false,
        };
        if !authorized {
            assert(!input_authorized(ins[i as int], prev[i as int]));
            return false;
        }
        let asset = tx_out.value.duplicate().with_fixed_hash(out_point);
        assert((i * u64::MAX) + u64::MAX <= u128::MAX) by (nonlinear_arith)
            requires
                i <= usize::MAX,
                usize::MAX <= u64::MAX,
        ;
        tx_ins_spent.update_add(&asset);
        assert((i * u64::MAX) as nat + u64::MAX as nat == ((i + 1) * u64::MAX) as nat)
            by (nonlinear_arith);
        i += 1;
    }
    tx_outs_are_valid(tx.outputs.as_slice(), tx_ins_spent)
}

/// The value of what a lookup found.
pub open spec fn found_model(found: Option<&TxOut>) -> Option<TxOutModel> {
    match found {
        Some(o) => Some(o@),
        None => None,
    }
}

/// `previous` holds, for each input, what the lookup `is_in_utxo` gave for the outpoint
/// of that input, and nothing for an input without outpoint.
pub open spec fn looked_up<'a, F: Fn(&OutPoint) -> Option<&'a TxOut>>(
    ins: Seq<TxIn>,
    is_in_utxo: F,
    previous: Seq<Option<TxOutModel>>,
) -> bool {
    &&& previous.len() == ins.len()
    &&& forall|i: int|
        0 <= i < ins.len() ==> match (#[trigger] ins[i]).previous_out {
            Some(o) => exists|found: Option<&TxOut>|
                is_in_utxo.ensures((&o,), found) && previous[i] == found_model(found),
            None => previous[i] is None,
        }
}

/// Looks up the output that each input spends.
#[verifier::rlimit(40)]
pub fn look_up_inputs<'a, F: Fn(&OutPoint) -> Option<&'a TxOut>>(
    inputs: &Vec<TxIn>,
    is_in_utxo: &F,
) -> (previous: Vec<Option<TxOut>>)
    requires
        forall|o: &OutPoint| is_in_utxo.requires((o,)),
    ensures
        looked_up(inputs@, *is_in_utxo, lookup_models(previous@)),
{
    let mut previous: Vec<Option<TxOut>> = Vec::new();
    let mut i: usize = 0;
    while i < inputs.len()
        invariant
            i <= inputs@.len(),
            previous@.len() == i,
            forall|o: &OutPoint| is_in_utxo.requires((o,)),
            forall|k: int|
                0 <= k < i ==> match (#[trigger] inputs@[k]).previous_out {
                    Some(o) => exists|found: Option<&TxOut>|
                        is_in_utxo.ensures((&o,), found) && lookup_models(previous@)[k]
                            == found_model(found),
                    None => lookup_models(previous@)[k] is None,
                },
        decreases inputs@.len() - i,
    {
        let ghost before = lookup_models(previous@);
        match &inputs[i].previous_out {
            Some(o) => {
                let found = is_in_utxo(o);
                let copy = match found {
                    Some(out) => Some(out.duplicate()),
                    None => None,
                };
                previous.push(copy);
                assert(lookup_models(previous@)[i as int] == found_model(found));
            },
            None => {
                previous.push(None);
            },
        }
        assert(forall|k: int| 0 <= k < i ==> lookup_models(previous@)[k] == before[k]);
        i += 1;
    }
    previous
}

/// Verifies that a transaction may spend its inputs: looks up the output that each input
/// spends with `is_in_utxo`, and checks the transaction against what was found.
pub fn tx_is_valid<'a, F: Fn(&OutPoint) -> Option<&'a TxOut>>(tx: &Transaction, is_in_utxo: F) -> (r:
    bool)
    requires
        forall|o: &OutPoint| is_in_utxo.requires((o,)),
    ensures
        exists|previous: Seq<Option<TxOutModel>>|
            looked_up(tx.inputs@, is_in_utxo, previous) && r == tx_valid(
                input_models(tx.inputs@),
                output_models(tx.outputs@),
                previous,
            ),
{
    let previous = look_up_inputs(&tx.inputs, &is_in_utxo);
    tx_is_valid_against(tx, &previous)
}

} // verus!

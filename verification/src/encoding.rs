//! The canonical binary form of scripts, outpoints, assets and inputs, and the hashes
//! taken over it.

use vstd::prelude::*;
use vstd::bytes::{
    spec_u32_to_le_bytes, spec_u64_to_le_bytes, u32_to_le_bytes, u64_to_le_bytes,
};
use vstd::utf8::encode_utf8;
use crate::addresses::{append_bytes, length_prefixed};
use crate::crypto::{digest, digest_of, hex_chars, hex_encode};
use crate::lang::Script;
use crate::opcodes::{opcode_number, Item, StackEntry};
use crate::primitives::{Asset, AssetModel, OutPoint, OutPointModel, TxIn, TxInModel};

verus! {

/// A text as its UTF-8 bytes behind their number.
pub open spec fn text_bytes(s: Seq<char>) -> Seq<u8> {
    length_prefixed(encode_utf8(s))
}

/// An optional text: a zero byte for none, else a one byte and the text.
pub open spec fn opt_text_bytes(o: Option<Seq<char>>) -> Seq<u8> {
    match o {
        None => seq![0u8],
        Some(t) => seq![1u8] + text_bytes(t),
    }
}

/// An entry: the tag of its kind as four little-endian bytes, then its content.
pub open spec fn entry_bytes(it: Item) -> Seq<u8> {
    match it {
        Item::Op(op) => spec_u32_to_le_bytes(0) + seq![opcode_number(op)],
        Item::Signature(s) => spec_u32_to_le_bytes(1) + s,
        Item::PubKey(p) => spec_u32_to_le_bytes(2) + p,
        Item::PubKeyHash(s) => spec_u32_to_le_bytes(3) + text_bytes(s),
        Item::Num(n) => spec_u32_to_le_bytes(4) + spec_u64_to_le_bytes(n as u64),
        Item::Bytes(s) => spec_u32_to_le_bytes(5) + text_bytes(s),
    }
}

/// The first `n` entries of a script, one after the other.
pub open spec fn entries_bytes(script: Seq<Item>, n: nat) -> Seq<u8>
    decreases n,
{
    if n == 0 {
        Seq::empty()
    } else {
        entries_bytes(script, (n - 1) as nat) + entry_bytes(script[n - 1])
    }
}

/// A script: the number of its entries, then the entries.
pub open spec fn script_bytes(script: Seq<Item>) -> Seq<u8> {
    spec_u64_to_le_bytes(script.len() as u64) + entries_bytes(script, script.len())
}

/// An outpoint: the transaction hash as a text, then the index.
pub open spec fn outpoint_bytes(o: OutPointModel) -> Seq<u8> {
    text_bytes(o.t_hash) + spec_u32_to_le_bytes(o.n as u32)
}

/// An asset: the tag of its kind, then its fields.
pub open spec fn asset_bytes(a: AssetModel) -> Seq<u8> {
    match a {
        AssetModel::Token { amount } => spec_u32_to_le_bytes(0) + spec_u64_to_le_bytes(amount),
        AssetModel::Data { data, amount } => spec_u32_to_le_bytes(1) + length_prefixed(data)
            + spec_u64_to_le_bytes(amount),
        AssetModel::Receipt { amount, drs_tx_hash, metadata } => spec_u32_to_le_bytes(2)
            + spec_u64_to_le_bytes(amount) + opt_text_bytes(drs_tx_hash) + opt_text_bytes(
            metadata,
        ),
    }
}

/// An input: a zero byte or a one byte and the outpoint, then the script.
pub open spec fn input_bytes(i: TxInModel) -> Seq<u8> {
    (match i.previous_out {
        None => seq![0u8],
        Some(o) => seq![1u8] + outpoint_bytes(o),
    }) + script_bytes(i.script_signature)
}

/// The values of a sequence of inputs.
pub open spec fn input_models(ins: Seq<TxIn>) -> Seq<TxInModel> {
    ins.map_values(|i: TxIn| i@)
}

/// The first `n` inputs, one after the other.
pub open spec fn inputs_bytes_upto(ins: Seq<TxInModel>, n: nat) -> Seq<u8>
    decreases n,
{
    if n == 0 {
        Seq::empty()
    } else {
        inputs_bytes_upto(ins, (n - 1) as nat) + input_bytes(ins[n - 1])
    }
}

/// A list of inputs: their number, then the inputs.
pub open spec fn inputs_bytes(ins: Seq<TxInModel>) -> Seq<u8> {
    spec_u64_to_le_bytes(ins.len() as u64) + inputs_bytes_upto(ins, ins.len())
}

/// The hash a signer commits to when spending an outpoint: the hexadecimal text of the
/// outpoint's binary form.
pub open spec fn spec_signable_hash(o: OutPointModel) -> Seq<char> {
    hex_chars(outpoint_bytes(o))
}

/// The hash a signer commits to when creating an asset.
pub open spec fn spec_signable_asset_hash(a: AssetModel) -> Seq<char> {
    hex_chars(digest_of(asset_bytes(a)))
}

/// The address of a script: the hexadecimal text of the digest of its binary form.
pub open spec fn spec_p2sh_address(script: Seq<Item>) -> Seq<char> {
    hex_chars(digest_of(script_bytes(script)))
}

/// The fingerprint of the sender of a transaction, taken over its inputs.
pub open spec fn spec_inputs_fingerprint(ins: Seq<TxInModel>) -> Seq<char> {
    hex_chars(digest_of(inputs_bytes(ins)))
}

/// Appends a text in its binary form.
pub fn write_text(out: &mut Vec<u8>, s: &String)
    ensures
        final(out)@ == old(out)@ + text_bytes(s@),
{
    let bytes = s.as_str().as_bytes();
    let prefix = u64_to_le_bytes(bytes.len() as u64);
    append_bytes(out, prefix.as_slice());
    append_bytes(out, bytes);
    assert(out@ =~= old(out)@ + text_bytes(s@));
}

/// Appends an optional text in its binary form.
pub fn write_opt_text(out: &mut Vec<u8>, s: &Option<String>)
    ensures
        final(out)@ == old(out)@ + opt_text_bytes(crate::primitives::opt_text(*s)),
{
    match s {
        None => {
            out.push(0);
            assert(out@ =~= old(out)@ + seq![0u8]);
        },
        Some(t) => {
            out.push(1);
            write_text(out, t);
            assert(out@ =~= old(out)@ + (seq![1u8] + text_bytes(t@)));
        },
    }
}

/// Appends an entry in its binary form.
pub fn write_entry(out: &mut Vec<u8>, entry: &StackEntry)
    ensures
        final(out)@ == old(out)@ + entry_bytes(entry@),
{
    match entry {
        StackEntry::Op(op) => {
            let tag = u32_to_le_bytes(0);
            append_bytes(out, tag.as_slice());
            out.push(op.to_byte());
            assert(out@ =~= old(out)@ + entry_bytes(entry@));
        },
        StackEntry::Signature(s) => {
            let tag = u32_to_le_bytes(1);
            append_bytes(out, tag.as_slice());
            append_bytes(out, s.bytes.as_slice());
            assert(out@ =~= old(out)@ + entry_bytes(entry@));
        },
        StackEntry::PubKey(p) => {
            let tag = u32_to_le_bytes(2);
            append_bytes(out, tag.as_slice());
            append_bytes(out, p.bytes.as_slice());
            assert(out@ =~= old(out)@ + entry_bytes(entry@));
        },
        StackEntry::PubKeyHash(s) => {
            let tag = u32_to_le_bytes(3);
            append_bytes(out, tag.as_slice());
            write_text(out, s);
            assert(out@ =~= old(out)@ + entry_bytes(entry@));
        },
        StackEntry::Num(n) => {
            let tag = u32_to_le_bytes(4);
            append_bytes(out, tag.as_slice());
            let num = u64_to_le_bytes(*n as u64);
            append_bytes(out, num.as_slice());
            assert(out@ =~= old(out)@ + entry_bytes(entry@));
        },
        StackEntry::Bytes(s) => {
            let tag = u32_to_le_bytes(5);
            append_bytes(out, tag.as_slice());
            write_text(out, s);
            assert(out@ =~= old(out)@ + entry_bytes(entry@));
        },
    }
}

/// Appends a script in its binary form.
pub fn write_script(out: &mut Vec<u8>, script: &Script)
    ensures
        final(out)@ == old(out)@ + script_bytes(script@),
{
    let count = u64_to_le_bytes(script.stack.len() as u64);
    append_bytes(out, count.as_slice());
    let ghost start = out@;
    let mut i: usize = 0;
    assert(out@ =~= start + entries_bytes(script@, 0));
    while i < script.stack.len()
        invariant
            i <= script.stack@.len(),
            script@.len() == script.stack@.len(),
            out@ == start + entries_bytes(script@, i as nat),
        decreases script.stack@.len() - i,
    {
        assert(script@[i as int] == script.stack@[i as int]@);
        write_entry(out, &script.stack[i]);
        assert(out@ =~= start + entries_bytes(script@, (i + 1) as nat));
        i += 1;
    }
    assert(out@ =~= old(out)@ + script_bytes(script@));
}

/// Appends an outpoint in its binary form.
pub fn write_outpoint(out: &mut Vec<u8>, o: &OutPoint)
    ensures
        final(out)@ == old(out)@ + outpoint_bytes(o@),
{
    write_text(out, &o.t_hash);
    let index = u32_to_le_bytes(o.n as u32);
    append_bytes(out, index.as_slice());
    assert(out@ =~= old(out)@ + outpoint_bytes(o@));
}

/// Appends an asset in its binary form.
pub fn write_asset(out: &mut Vec<u8>, asset: &Asset)
    ensures
        final(out)@ == old(out)@ + asset_bytes(asset@),
{
    match asset {
        Asset::Token(t) => {
            let tag = u32_to_le_bytes(0);
            append_bytes(out, tag.as_slice());
            let amount = u64_to_le_bytes(t.0);
            append_bytes(out, amount.as_slice());
            assert(out@ =~= old(out)@ + asset_bytes(asset@));
        },
        Asset::Data(d) => {
            let tag = u32_to_le_bytes(1);
            append_bytes(out, tag.as_slice());
            let count = u64_to_le_bytes(d.data.len() as u64);
            append_bytes(out, count.as_slice());
            append_bytes(out, d.data.as_slice());
            let amount = u64_to_le_bytes(d.amount);
            append_bytes(out, amount.as_slice());
            assert(out@ =~= old(out)@ + asset_bytes(asset@));
        },
        Asset::Receipt(r) => {
            let tag = u32_to_le_bytes(2);
            append_bytes(out, tag.as_slice());
            let amount = u64_to_le_bytes(r.amount);
            append_bytes(out, amount.as_slice());
            write_opt_text(out, &r.drs_tx_hash);
            write_opt_text(out, &r.metadata);
            assert(out@ =~= old(out)@ + asset_bytes(asset@));
        },
    }
}

/// Appends an input in its binary form.
pub fn write_input(out: &mut Vec<u8>, input: &TxIn)
    ensures
        final(out)@ == old(out)@ + input_bytes(input@),
{
    match &input.previous_out {
        None => {
            out.push(0);
        },
        Some(o) => {
            out.push(1);
            write_outpoint(out, o);
        },
    }
    write_script(out, &input.script_signature);
    assert(out@ =~= old(out)@ + input_bytes(input@));
}

/// Builds the hash that a signer commits to when spending `previous_out`.
pub fn construct_tx_in_signable_hash(previous_out: &OutPoint) -> (hash: String)
    ensures
        hash@ == spec_signable_hash(previous_out@),
{
    let mut bytes: Vec<u8> = Vec::new();
    write_outpoint(&mut bytes, previous_out);
    assert(bytes@ =~= outpoint_bytes(previous_out@));
    hex_encode(bytes.as_slice())
}

/// Builds the hash that a signer commits to when creating `asset`.
pub fn construct_tx_in_signable_asset_hash(asset: &Asset) -> (hash: String)
    ensures
        hash@ == spec_signable_asset_hash(asset@),
{
    let mut bytes: Vec<u8> = Vec::new();
    write_asset(&mut bytes, asset);
    assert(bytes@ =~= asset_bytes(asset@));
    let hash = digest(bytes.as_slice());
    hex_encode(hash.as_slice())
}

/// Builds the address of a script.
pub fn construct_p2sh_address(script: &Script) -> (addr: String)
    ensures
        addr@ == spec_p2sh_address(script@),
{
    let mut bytes: Vec<u8> = Vec::new();
    write_script(&mut bytes, script);
    assert(bytes@ =~= script_bytes(script@));
    let hash = digest(bytes.as_slice());
    hex_encode(hash.as_slice())
}

/// Builds the fingerprint of the sender of a transaction from its inputs.
pub fn construct_inputs_fingerprint(inputs: &Vec<TxIn>) -> (from: String)
    ensures
        from@ == spec_inputs_fingerprint(input_models(inputs@)),
{
    let mut bytes = u64_to_le_bytes(inputs.len() as u64);
    let ghost start = bytes@;
    let ghost models = input_models(inputs@);
    let mut i: usize = 0;
    assert(bytes@ =~= start + inputs_bytes_upto(models, 0));
    while i < inputs.len()
        invariant
            i <= inputs@.len(),
            models == input_models(inputs@),
            bytes@ == start + inputs_bytes_upto(models, i as nat),
        decreases inputs@.len() - i,
    {
        write_input(&mut bytes, &inputs[i]);
        assert(bytes@ =~= start + inputs_bytes_upto(models, (i + 1) as nat));
        i += 1;
    }
    let hash = digest(bytes.as_slice());
    hex_encode(hash.as_slice())
}

} // verus!

use std::collections::BTreeMap;
use std::hash::{BuildHasher, Hasher};

use ed25519_dalek::{Signer, SigningKey};
use sha3::{Digest, Sha3_256};
use tx_script::addresses::{
    construct_address, construct_address_for, construct_address_temp, construct_address_v0,
};
use tx_script::asset_values::AssetValues;
use tx_script::constants::{NETWORK_VERSION_TEMP, NETWORK_VERSION_V0};
use tx_script::crypto::{PublicKey, Signature};
use tx_script::encoding::{
    construct_p2sh_address, construct_tx_in_signable_asset_hash, construct_tx_in_signable_hash,
};
use tx_script::interface_ops::{
    eval_binary, eval_unary, match_table, op_checkmultisig, op_dup, op_ifdup, op_left, op_right, op_substr, op_verify,
    replace_top, run_entry, run_op, settle_verdict, settle_verified, slice_text, verdict_rows,
};
use tx_script::lang::Script;
use tx_script::opcodes::{OpCodes, StackEntry};
use tx_script::primitives::{
    Asset, OutPoint, ReceiptAsset, TokenAmount, Transaction, TxIn, TxOut,
};
use tx_script::script_utils::{
    has_create_shape, has_p2pkh_shape, receipt_has_valid_size, tx_has_valid_p2pkh_sig, tx_has_valid_p2sh_script, tx_is_valid,
    tx_is_valid_against, tx_outs_are_valid,
};
use tx_script::stacks::{ConditionStack, Stack};

fn random_seed() -> [u8; 32] {
    let mut seed = [0u8; 32];
    for chunk in seed.chunks_mut(8) {
        let v = std::collections::hash_map::RandomState::new()
            .build_hasher()
            .finish();
        chunk.copy_from_slice(&v.to_le_bytes());
    }
    seed
}

fn gen_keypair() -> (PublicKey, SigningKey) {
    let sk = SigningKey::from_bytes(&random_seed());
    let pk = PublicKey {
        bytes: sk.verifying_key().to_bytes(),
    };
    (pk, sk)
}

fn sign_detached(msg: &[u8], sk: &SigningKey) -> Signature {
    Signature {
        bytes: sk.sign(msg).to_bytes(),
    }
}

fn ops(codes: &[OpCodes]) -> Script {
    Script::from(codes.iter().map(|c| StackEntry::Op(*c)).collect::<Vec<_>>())
}

#[test]
fn opcode_numbers_are_dense_and_stable() {
    assert_eq!(OpCodes::OP_0.to_byte(), 0);
    assert_eq!(OpCodes::OP_16.to_byte(), 16);
    assert_eq!(OpCodes::OP_NOP.to_byte(), 17);
    assert_eq!(OpCodes::OP_IF.to_byte(), 18);
    assert_eq!(OpCodes::OP_RETURN.to_byte(), 23);
    assert_eq!(OpCodes::OP_CHECKMULTISIGVERIFY.to_byte(), 86);
    assert_eq!(OpCodes::OP_CREATE.to_byte(), 87);
}

#[test]
fn current_address_is_hex_of_digest_of_key() {
    let (pk, _) = gen_keypair();
    let expected = hex::encode(Sha3_256::digest(pk.bytes));
    assert_eq!(construct_address(&pk), expected);
    assert_eq!(construct_address(&pk).len(), 64);
    assert_eq!(construct_address_for(&pk, None), expected);
    assert_eq!(construct_address_for(&pk, Some(7)), expected);
}

#[test]
fn first_legacy_address_is_cut_digest_of_framed_key() {
    let (pk, _) = gen_keypair();
    let mut framed = vec![32u8, 0, 0, 0, 0, 0, 0, 0];
    framed.extend_from_slice(&pk.bytes);
    let digest = Sha3_256::digest(&framed);
    let expected = hex::encode(&digest[..16]);
    assert_eq!(construct_address_v0(&pk), expected);
    assert_eq!(construct_address_v0(&pk).len(), 32);
    assert_eq!(construct_address_for(&pk, Some(NETWORK_VERSION_V0)), expected);
}

#[test]
fn temporary_address_is_digest_of_hex_text_of_key() {
    let (pk, _) = gen_keypair();
    let expected = hex::encode(Sha3_256::digest(hex::encode(pk.bytes).as_bytes()));
    assert_eq!(construct_address_temp(&pk), expected);
    assert_eq!(
        construct_address_for(&pk, Some(NETWORK_VERSION_TEMP)),
        expected
    );
}

#[test]
fn the_three_addresses_of_a_key_differ() {
    let (pk, _) = gen_keypair();
    assert_ne!(construct_address(&pk), construct_address_temp(&pk));
    assert_ne!(construct_address(&pk), construct_address_v0(&pk));
    assert_ne!(construct_address_temp(&pk), construct_address_v0(&pk));
}

#[test]
fn signable_hash_is_hex_of_outpoint_bytes() {
    let outpoint = OutPoint::new("000000".to_string(), 0);
    assert_eq!(
        construct_tx_in_signable_hash(&outpoint),
        "060000000000000030303030303000000000"
    );
    let outpoint = OutPoint::new("ab".to_string(), 258);
    assert_eq!(
        construct_tx_in_signable_hash(&outpoint),
        "0200000000000000616202010000"
    );
}

#[test]
fn signable_asset_hash_is_digest_of_asset_bytes() {
    let token = Asset::Token(TokenAmount(5));
    let bytes = [0u8, 0, 0, 0, 5, 0, 0, 0, 0, 0, 0, 0];
    assert_eq!(
        construct_tx_in_signable_asset_hash(&token),
        hex::encode(Sha3_256::digest(bytes))
    );
    let receipt = Asset::receipt(1, Some("d".to_string()), None);
    let mut bytes = vec![2u8, 0, 0, 0, 1, 0, 0, 0, 0, 0, 0, 0];
    bytes.extend_from_slice(&[1, 1, 0, 0, 0, 0, 0, 0, 0, b'd', 0]);
    assert_eq!(
        construct_tx_in_signable_asset_hash(&receipt),
        hex::encode(Sha3_256::digest(&bytes))
    );
}

#[test]
fn p2sh_address_is_digest_of_script_bytes() {
    let script = Script::from(vec![StackEntry::Num(1), StackEntry::Op(OpCodes::OP_DUP)]);
    let mut bytes = vec![2u8, 0, 0, 0, 0, 0, 0, 0];
    bytes.extend_from_slice(&[4, 0, 0, 0, 1, 0, 0, 0, 0, 0, 0, 0]);
    bytes.extend_from_slice(&[0, 0, 0, 0, OpCodes::OP_DUP.to_byte()]);
    assert_eq!(
        construct_p2sh_address(&script),
        hex::encode(Sha3_256::digest(&bytes))
    );
}

#[test]
fn script_that_ends_on_an_empty_stack_is_rejected() {
    assert!(!ops(&[OpCodes::OP_1, OpCodes::OP_VERIFY]).interpret());
    assert!(!ops(&[OpCodes::OP_1, OpCodes::OP_DROP]).interpret());
    assert!(!ops(&[OpCodes::OP_NOP]).interpret());
    assert!(Script::new().interpret());
}

#[test]
fn entries_in_a_branch_that_is_not_executing_are_skipped() {
    let script = ops(&[
        OpCodes::OP_0,
        OpCodes::OP_IF,
        OpCodes::OP_RETURN,
        OpCodes::OP_ADD,
        OpCodes::OP_ENDIF,
        OpCodes::OP_1,
    ]);
    assert!(script.interpret());
    let script = Script::from(vec![
        StackEntry::Op(OpCodes::OP_0),
        StackEntry::Op(OpCodes::OP_IF),
        StackEntry::Bytes("a".repeat(521)),
        StackEntry::Op(OpCodes::OP_ENDIF),
        StackEntry::Op(OpCodes::OP_1),
    ]);
    assert!(script.interpret());
    let script = Script::from(vec![
        StackEntry::Op(OpCodes::OP_1),
        StackEntry::Op(OpCodes::OP_IF),
        StackEntry::Bytes("a".repeat(521)),
        StackEntry::Op(OpCodes::OP_ENDIF),
        StackEntry::Op(OpCodes::OP_1),
    ]);
    assert!(!script.interpret());
}

#[test]
fn every_listed_opcode_is_wired_into_the_evaluator() {
    assert!(ops(&[OpCodes::OP_2, OpCodes::OP_3, OpCodes::OP_MUL, OpCodes::OP_6, OpCodes::OP_EQUAL])
        .interpret());
    assert!(ops(&[OpCodes::OP_7, OpCodes::OP_2, OpCodes::OP_MOD]).interpret());
    assert!(ops(&[OpCodes::OP_1, OpCodes::OP_3, OpCodes::OP_LSHIFT, OpCodes::OP_8, OpCodes::OP_EQUAL])
        .interpret());
    assert!(ops(&[OpCodes::OP_0, OpCodes::OP_INVERT]).interpret());
    let script = Script::from(vec![
        StackEntry::Bytes("ab".to_string()),
        StackEntry::Bytes("cd".to_string()),
        StackEntry::Op(OpCodes::OP_CAT),
        StackEntry::Bytes("abcd".to_string()),
        StackEntry::Op(OpCodes::OP_EQUAL),
    ]);
    assert!(script.interpret());
    assert!(ops(&[OpCodes::OP_1, OpCodes::OP_CREATE]).interpret());
    assert!(!ops(&[OpCodes::OP_1, OpCodes::OP_RETURN]).interpret());
}

#[test]
fn stack_over_the_limit_aborts_also_by_way_of_the_alt_stack() {
    let mut v = vec![StackEntry::Num(1); 999];
    v.push(StackEntry::Op(OpCodes::OP_TOALTSTACK));
    v.push(StackEntry::Num(1));
    assert!(Script::from(v.clone()).interpret());
    v.push(StackEntry::Num(1));
    assert!(!Script::from(v).interpret());
    let mut stack = Stack::from(vec![StackEntry::Num(1); 1000]);
    let mut cond = ConditionStack::new();
    assert!(!run_entry(&StackEntry::Num(2), &mut stack, &mut cond));
}

#[test]
fn failed_opcode_leaves_the_stacks_unless_it_verifies() {
    let mut stack = Stack::new();
    stack.push(StackEntry::Num(1));
    stack.push(StackEntry::Bytes("x".to_string()));
    let before = stack.clone();
    assert!(!run_op(OpCodes::OP_ADD, &mut stack));
    assert_eq!(stack, before);
    assert!(!run_op(OpCodes::OP_IF, &mut stack));
    assert_eq!(stack, before);
    assert!(!op_verify(&mut stack));
    assert_eq!(stack.main_stack, vec![StackEntry::Num(1)]);
}

#[test]
fn handlers_give_the_same_outcome_on_the_same_stacks() {
    let all = [
        OpCodes::OP_ADD, OpCodes::OP_SUB, OpCodes::OP_DUP, OpCodes::OP_ROT, OpCodes::OP_SHA3,
        OpCodes::OP_EQUAL, OpCodes::OP_PICK, OpCodes::OP_SIZE, OpCodes::OP_WITHIN,
        OpCodes::OP_TOALTSTACK, OpCodes::OP_2SWAP, OpCodes::OP_TUCK,
    ];
    for op in all {
        let mut first = Stack::new();
        for i in [5usize, 4, 3, 2, 1] {
            first.push(StackEntry::Num(i));
        }
        let mut second = first.clone();
        let ok_first = run_op(op, &mut first);
        let ok_second = run_op(op, &mut second);
        assert_eq!(ok_first, ok_second);
        assert_eq!(first, second);
    }
}

#[test]
fn ifdup_copies_only_a_number_other_than_zero() {
    let mut stack = Stack::new();
    stack.push(StackEntry::Bytes("x".to_string()));
    assert!(op_ifdup(&mut stack));
    assert_eq!(stack.main_stack, vec![StackEntry::Bytes("x".to_string())]);
    assert!(op_dup(&mut stack));
    assert_eq!(stack.main_stack.len(), 2);
}

#[test]
fn slicing_inside_a_character_fails() {
    let text = "h\u{e9}llo".to_string();
    let mut stack = Stack::new();
    stack.push(StackEntry::Bytes(text.clone()));
    stack.push(StackEntry::Num(2));
    assert!(!op_left(&mut stack));
    let mut stack = Stack::new();
    stack.push(StackEntry::Bytes(text.clone()));
    stack.push(StackEntry::Num(2));
    assert!(!op_right(&mut stack));
    let mut stack = Stack::new();
    stack.push(StackEntry::Bytes(text.clone()));
    stack.push(StackEntry::Num(1));
    stack.push(StackEntry::Num(1));
    assert!(!op_substr(&mut stack));
    let mut stack = Stack::new();
    stack.push(StackEntry::Bytes(text));
    stack.push(StackEntry::Num(1));
    stack.push(StackEntry::Num(2));
    assert!(op_substr(&mut stack));
    assert_eq!(stack.main_stack, vec![StackEntry::Bytes("\u{e9}".to_string())]);
}

#[test]
fn templates_have_their_fixed_layout() {
    let (pk, sk) = gen_keypair();
    let sig = sign_detached(b"data", &sk);
    assert_eq!(Script::new_for_coinbase(7).stack, vec![StackEntry::Num(7)]);
    assert_eq!(
        Script::new_create_asset(3, "hash".to_string(), sig, pk).stack,
        vec![
            StackEntry::Op(OpCodes::OP_CREATE),
            StackEntry::Num(3),
            StackEntry::Op(OpCodes::OP_DROP),
            StackEntry::Bytes("hash".to_string()),
            StackEntry::Signature(sig),
            StackEntry::PubKey(pk),
            StackEntry::Op(OpCodes::OP_CHECKSIG),
        ]
    );
    for (version, op) in [
        (None, OpCodes::OP_HASH256),
        (Some(NETWORK_VERSION_V0), OpCodes::OP_HASH256_V0),
        (Some(NETWORK_VERSION_TEMP), OpCodes::OP_HASH256_TEMP),
    ] {
        assert_eq!(
            Script::pay2pkh("data".to_string(), sig, pk, version).stack,
            vec![
                StackEntry::Bytes("data".to_string()),
                StackEntry::Signature(sig),
                StackEntry::PubKey(pk),
                StackEntry::Op(OpCodes::OP_DUP),
                StackEntry::Op(op),
                StackEntry::PubKeyHash(construct_address_for(&pk, version)),
                StackEntry::Op(OpCodes::OP_EQUALVERIFY),
                StackEntry::Op(OpCodes::OP_CHECKSIG),
            ]
        );
    }
    assert_eq!(
        Script::member_multisig("data".to_string(), pk, sig).stack,
        vec![
            StackEntry::Bytes("data".to_string()),
            StackEntry::Signature(sig),
            StackEntry::PubKey(pk),
            StackEntry::Op(OpCodes::OP_CHECKSIG),
        ]
    );
    assert_eq!(
        Script::multisig_lock(1, 1, "data".to_string(), vec![pk, pk]).stack,
        vec![
            StackEntry::Bytes("data".to_string()),
            StackEntry::Num(1),
            StackEntry::PubKey(pk),
            StackEntry::Num(1),
            StackEntry::Op(OpCodes::OP_CHECKMULTISIG),
        ]
    );
    assert_eq!(
        Script::multisig_unlock("data".to_string(), vec![sig, sig]).stack,
        vec![
            StackEntry::Bytes("data".to_string()),
            StackEntry::Signature(sig),
            StackEntry::Signature(sig),
        ]
    );
    assert_eq!(
        Script::multisig_validation(1, 1, "data".to_string(), vec![sig], vec![pk]).stack,
        vec![
            StackEntry::Bytes("data".to_string()),
            StackEntry::Signature(sig),
            StackEntry::Num(1),
            StackEntry::PubKey(pk),
            StackEntry::Num(1),
            StackEntry::Op(OpCodes::OP_CHECKMULTISIG),
        ]
    );
}

#[test]
fn multisig_builders_reject_counts_that_do_not_fit() {
    let (pk, sk) = gen_keypair();
    let sig = sign_detached(b"data", &sk);
    assert!(Script::multisig_lock(2, 1, "d".to_string(), vec![pk, pk]).stack.is_empty());
    assert!(Script::multisig_lock(1, 3, "d".to_string(), vec![pk, pk]).stack.is_empty());
    assert!(Script::multisig_validation(2, 1, "d".to_string(), vec![sig], vec![pk])
        .stack
        .is_empty());
    assert!(Script::multisig_validation(1, 2, "d".to_string(), vec![sig], vec![pk])
        .stack
        .is_empty());
}

#[test]
fn templates_with_valid_arguments_evaluate_to_true() {
    let (pk, sk) = gen_keypair();
    let (pk2, sk2) = gen_keypair();
    let data = hex::encode([1u8, 2, 3]);
    let sig = sign_detached(data.as_bytes(), &sk);
    let sig2 = sign_detached(data.as_bytes(), &sk2);
    assert!(Script::new_for_coinbase(5).interpret());
    assert!(!Script::new_for_coinbase(0).interpret());
    assert!(Script::new_create_asset(0, data.clone(), sig, pk).interpret());
    assert!(!Script::new_create_asset(0, data.clone(), sig2, pk).interpret());
    for version in [None, Some(NETWORK_VERSION_V0), Some(NETWORK_VERSION_TEMP)] {
        assert!(Script::pay2pkh(data.clone(), sig, pk, version).interpret());
        assert!(!Script::pay2pkh(data.clone(), sig2, pk, version).interpret());
    }
    assert!(Script::member_multisig(data.clone(), pk, sig).interpret());
    assert!(Script::multisig_unlock(data.clone(), vec![sig, sig2]).interpret());
    assert!(Script::multisig_validation(2, 2, data.clone(), vec![sig, sig2], vec![pk, pk2])
        .interpret());
    assert!(!Script::multisig_validation(1, 2, data.clone(), vec![sig, sig2], vec![pk, pk2])
        .interpret());
    assert!(Script::multisig_lock(0, 2, data.clone(), vec![pk, pk2]).interpret());
    assert!(!Script::multisig_lock(1, 2, data, vec![pk, pk2]).interpret());
}

#[test]
fn multisig_verdict_is_the_same_in_every_order() {
    let (pk1, sk1) = gen_keypair();
    let (pk2, sk2) = gen_keypair();
    let (pk3, sk3) = gen_keypair();
    let data = hex::encode([0u8, 0, 0]);
    let s1 = sign_detached(data.as_bytes(), &sk1);
    let s2 = sign_detached(data.as_bytes(), &sk2);
    let s3 = sign_detached(data.as_bytes(), &sk3);
    let sig_orders = [[s1, s2, s3], [s1, s3, s2], [s2, s1, s3], [s2, s3, s1], [s3, s1, s2], [s3, s2, s1]];
    let key_orders = [[pk1, pk2, pk3], [pk1, pk3, pk2], [pk2, pk1, pk3], [pk2, pk3, pk1], [pk3, pk1, pk2], [pk3, pk2, pk1]];
    for sigs in sig_orders {
        for keys in key_orders {
            let script =
                Script::multisig_validation(3, 3, data.clone(), sigs.to_vec(), keys.to_vec());
            assert!(script.interpret());
            let mut stack = Stack::new();
            stack.push(StackEntry::Bytes(data.clone()));
            stack.push(StackEntry::Signature(sigs[0]));
            stack.push(StackEntry::Signature(sigs[1]));
            stack.push(StackEntry::Num(2));
            for k in keys {
                stack.push(StackEntry::PubKey(k));
            }
            stack.push(StackEntry::Num(3));
            assert!(op_checkmultisig(&mut stack));
            assert_eq!(stack.main_stack, vec![StackEntry::Num(1)]);
        }
    }
}

#[test]
fn p2pkh_spend_is_valid_and_fails_after_any_change() {
    for version in [None, Some(NETWORK_VERSION_V0), Some(NETWORK_VERSION_TEMP)] {
        let (pk, sk) = gen_keypair();
        let (other_pk, other_sk) = gen_keypair();
        let outpoint = OutPoint::new(hex::encode([0u8, 0, 0]), 0);
        let msg = construct_tx_in_signable_hash(&outpoint);
        let sig = sign_detached(msg.as_bytes(), &sk);
        let addr = construct_address_for(&pk, version);
        let good = Script::pay2pkh(msg.clone(), sig, pk, version);
        assert!(tx_has_valid_p2pkh_sig(&good, &msg, &addr));

        let other_msg = construct_tx_in_signable_hash(&OutPoint::new(hex::encode([0u8, 0, 0]), 1));
        let other_addr = construct_address_for(&other_pk, version);
        let other_sig = sign_detached(msg.as_bytes(), &other_sk);
        assert!(!tx_has_valid_p2pkh_sig(&good, &other_msg, &addr));
        assert!(!tx_has_valid_p2pkh_sig(&good, &msg, &other_addr));
        let wrong_key = Script::pay2pkh(msg.clone(), sig, other_pk, version);
        assert!(!tx_has_valid_p2pkh_sig(&wrong_key, &msg, &addr));
        assert!(!tx_has_valid_p2pkh_sig(&wrong_key, &msg, &other_addr));
        let wrong_sig = Script::pay2pkh(msg.clone(), other_sig, pk, version);
        assert!(!tx_has_valid_p2pkh_sig(&wrong_sig, &msg, &addr));
        let wrong_msg = Script::pay2pkh(other_msg.clone(), sig, pk, version);
        assert!(!tx_has_valid_p2pkh_sig(&wrong_msg, &msg, &addr));
        assert!(!tx_has_valid_p2pkh_sig(&wrong_msg, &other_msg, &addr));
        let mut wrong_addr = good.clone();
        wrong_addr.stack[5] = StackEntry::PubKeyHash(other_addr.clone());
        assert!(!tx_has_valid_p2pkh_sig(&wrong_addr, &msg, &other_addr));
        let mut longer = good.clone();
        longer.stack.push(StackEntry::Op(OpCodes::OP_NOP));
        assert!(longer.interpret());
        assert!(!tx_has_valid_p2pkh_sig(&longer, &msg, &addr));
    }
}

#[test]
fn p2sh_spend_needs_the_address_of_the_script_and_a_true_script() {
    let script = Script::from(vec![StackEntry::Num(1)]);
    let addr = construct_p2sh_address(&script);
    assert!(tx_has_valid_p2sh_script(&script, &addr));
    assert!(!tx_has_valid_p2sh_script(&script, &"0".repeat(64)));
    let failing = Script::from(vec![StackEntry::Num(0)]);
    let addr = construct_p2sh_address(&failing);
    assert!(!tx_has_valid_p2sh_script(&failing, &addr));
}

fn p2sh_tx(previous: TxOut, outputs: Vec<TxOut>) -> (BTreeMap<OutPoint, TxOut>, Transaction) {
    let outpoint = OutPoint::new("tx_hash".to_string(), 0);
    let mut tx = Transaction::new();
    tx.inputs.push(TxIn::new_from_input(
        outpoint.clone(),
        Script::from(vec![StackEntry::Num(1)]),
    ));
    tx.outputs = outputs;
    let mut utxo = BTreeMap::new();
    utxo.insert(outpoint, previous);
    (utxo, tx)
}

fn p2sh_address() -> String {
    construct_p2sh_address(&Script::from(vec![StackEntry::Num(1)]))
}

#[test]
fn transaction_spending_by_script_hash_is_valid() {
    let addr = p2sh_address();
    let (utxo, tx) = p2sh_tx(
        TxOut::new_token_amount(addr.clone(), TokenAmount(5)),
        vec![
            TxOut::new_token_amount(addr.clone(), TokenAmount(2)),
            TxOut::new_token_amount(addr.clone(), TokenAmount(3)),
        ],
    );
    assert!(tx_is_valid(&tx, |o| utxo.get(o)));
    let previous = vec![utxo.get(tx.inputs[0].previous_out.as_ref().unwrap()).cloned()];
    assert!(tx_is_valid_against(&tx, &previous));
    assert!(!tx_is_valid_against(&tx, &vec![None]));
}

#[test]
fn transaction_is_invalid_without_the_spent_output() {
    let addr = p2sh_address();
    let (utxo, mut tx) = p2sh_tx(
        TxOut::new_token_amount(addr.clone(), TokenAmount(5)),
        vec![TxOut::new_token_amount(addr.clone(), TokenAmount(5))],
    );
    assert!(tx_is_valid(&tx, |o| utxo.get(o)));
    assert!(!tx_is_valid(&tx, |_| None));
    tx.inputs[0].previous_out = None;
    assert!(!tx_is_valid(&tx, |o| utxo.get(o)));
}

#[test]
fn transaction_is_invalid_where_the_spent_output_has_no_address() {
    let addr = p2sh_address();
    let mut previous = TxOut::new_token_amount(addr.clone(), TokenAmount(5));
    previous.script_public_key = None;
    let (utxo, tx) = p2sh_tx(
        previous,
        vec![TxOut::new_token_amount(addr, TokenAmount(5))],
    );
    assert!(!tx_is_valid(&tx, |o| utxo.get(o)));
}

#[test]
fn output_address_must_be_32_or_64_bytes() {
    let addr = p2sh_address();
    for (len, expected) in [(32, true), (64, true), (31, false), (33, false), (0, false), (128, false)] {
        let (utxo, tx) = p2sh_tx(
            TxOut::new_token_amount(addr.clone(), TokenAmount(5)),
            vec![TxOut::new_token_amount("a".repeat(len), TokenAmount(5))],
        );
        assert_eq!(tx_is_valid(&tx, |o| utxo.get(o)), expected);
    }
    let (utxo, mut tx) = p2sh_tx(
        TxOut::new_token_amount(addr.clone(), TokenAmount(5)),
        vec![TxOut::new_token_amount(addr, TokenAmount(5))],
    );
    tx.outputs[0].script_public_key = None;
    assert!(tx_is_valid(&tx, |o| utxo.get(o)));
}

#[test]
fn spent_receipt_is_bound_to_its_outpoint() {
    let addr = p2sh_address();
    let (utxo, tx) = p2sh_tx(
        TxOut::new_asset(addr.clone(), Asset::receipt(4, None, None)),
        vec![TxOut::new_asset(
            addr.clone(),
            Asset::receipt(4, Some("tx_hash".to_string()), None),
        )],
    );
    assert!(tx_is_valid(&tx, |o| utxo.get(o)));
    let (utxo, tx) = p2sh_tx(
        TxOut::new_asset(addr.clone(), Asset::receipt(4, None, None)),
        vec![TxOut::new_asset(
            addr.clone(),
            Asset::receipt(4, Some("elsewhere".to_string()), None),
        )],
    );
    assert!(!tx_is_valid(&tx, |o| utxo.get(o)));
}

#[test]
fn receipt_output_needs_a_creating_transaction_and_no_metadata() {
    let addr = p2sh_address();
    let (utxo, tx) = p2sh_tx(
        TxOut::new_asset(addr.clone(), Asset::receipt(4, None, None)),
        vec![TxOut::new_asset(addr.clone(), Asset::receipt(4, None, None))],
    );
    assert!(!tx_is_valid(&tx, |o| utxo.get(o)));
    let (utxo, tx) = p2sh_tx(
        TxOut::new_asset(addr.clone(), Asset::receipt(4, None, None)),
        vec![TxOut::new_asset(
            addr.clone(),
            Asset::receipt(4, Some("tx_hash".to_string()), Some("m".to_string())),
        )],
    );
    assert!(!tx_is_valid(&tx, |o| utxo.get(o)));
}

#[test]
fn outputs_are_held_against_what_was_spent() {
    let addr = "a".repeat(64);
    let outs = vec![
        TxOut::new_token_amount(addr.clone(), TokenAmount(u64::MAX)),
        TxOut::new_token_amount(addr.clone(), TokenAmount(u64::MAX)),
        TxOut::new_asset(addr.clone(), Asset::receipt(2, Some("d".to_string()), None)),
        TxOut::new_asset(addr.clone(), Asset::receipt(3, Some("d".to_string()), None)),
    ];
    let mut spent = AssetValues::new();
    spent.update_add(&Asset::Token(TokenAmount(u64::MAX)));
    spent.update_add(&Asset::receipt(5, Some("d".to_string()), None));
    assert!(!tx_outs_are_valid(&outs, spent.clone()));
    spent.update_add(&Asset::Token(TokenAmount(u64::MAX)));
    assert_eq!(spent.tokens, 2 * (u64::MAX as u128));
    assert_eq!(spent.lookup(&"d".to_string()), Some(5));
    assert_eq!(spent.lookup(&"e".to_string()), None);
    assert!(tx_outs_are_valid(&outs, spent.clone()));
    spent.update_add(&Asset::receipt(0, Some("e".to_string()), None));
    assert!(!tx_outs_are_valid(&outs, spent));
    assert!(tx_outs_are_valid(&[], AssetValues::new()));
}

#[test]
fn receipt_metadata_is_held_to_its_limit() {
    let with = |metadata: Option<String>| ReceiptAsset {
        amount: 1,
        drs_tx_hash: None,
        metadata,
    };
    assert!(receipt_has_valid_size(&with(None)));
    assert!(receipt_has_valid_size(&with(Some("m".repeat(800)))));
    assert!(!receipt_has_valid_size(&with(Some("m".repeat(801)))));
}

#[test]
fn table_of_verdicts_is_matched_row_by_row_each_taking_its_first_column() {
    assert!(match_table(&vec![], 0));
    assert!(match_table(&vec![], 3));
    assert!(!match_table(&vec![vec![]], 0));
    assert!(match_table(&vec![vec![true, false], vec![false, true]], 2));
    assert!(match_table(&vec![vec![false, true], vec![true, false]], 2));
    assert!(match_table(&vec![vec![false, false, true]], 3));
    assert!(!match_table(&vec![vec![true, false], vec![true, false]], 2));
    assert!(!match_table(&vec![vec![true, false], vec![false, false]], 2));
    assert!(!match_table(&vec![vec![true, true], vec![true, false]], 2));
    assert!(match_table(&vec![vec![true, true], vec![false, true]], 2));
    assert!(match_table(&vec![vec![true, true], vec![true, true]], 2));
    assert!(!match_table(
        &vec![vec![true, true], vec![true, true], vec![true, true]],
        2
    ));
}

#[test]
fn table_of_verdicts_holds_one_verdict_per_signature_and_key() {
    let (pk1, sk1) = gen_keypair();
    let (pk2, sk2) = gen_keypair();
    let (pk3, _) = gen_keypair();
    let msg = b"message";
    let s1 = sign_detached(msg, &sk1);
    let s2 = sign_detached(msg, &sk2);
    let table = verdict_rows(msg, &vec![s2, s1], &vec![pk1, pk2, pk3]);
    assert_eq!(
        table,
        vec![vec![false, true, false], vec![true, false, false]]
    );
    let table = verdict_rows(b"other", &vec![s2, s1], &vec![pk1, pk2, pk3]);
    assert_eq!(table, vec![vec![false; 3]; 2]);
    assert_eq!(verdict_rows(msg, &vec![], &vec![pk1]), Vec::<Vec<bool>>::new());
    assert_eq!(verdict_rows(msg, &vec![s1], &vec![]), vec![Vec::<bool>::new()]);
}

#[test]
fn verdicts_are_settled_on_the_stack() {
    let mut stack = Stack::from(vec![
        StackEntry::Num(7),
        StackEntry::Num(8),
        StackEntry::Num(9),
    ]);
    settle_verdict(&mut stack, 2, true);
    assert_eq!(stack.main_stack, vec![StackEntry::Num(7), StackEntry::Num(1)]);
    settle_verdict(&mut stack, 0, false);
    assert_eq!(
        stack.main_stack,
        vec![StackEntry::Num(7), StackEntry::Num(1), StackEntry::Num(0)]
    );
    assert!(!settle_verified(&mut stack, 2, false));
    assert_eq!(stack.main_stack, vec![StackEntry::Num(7)]);
    assert!(settle_verified(&mut stack, 0, true));
    replace_top(&mut stack, StackEntry::Bytes("t".to_string()));
    assert_eq!(stack.main_stack, vec![StackEntry::Bytes("t".to_string())]);
}

#[test]
fn shapes_are_recognised_entry_by_entry() {
    let (pk, sk) = gen_keypair();
    let sig = sign_detached(b"h", &sk);
    let create = Script::new_create_asset(1, "h".to_string(), sig, pk);
    assert!(has_create_shape(&create, "h"));
    assert!(!has_create_shape(&create, "g"));
    for i in 0..7 {
        let mut other = create.clone();
        other.stack[i] = StackEntry::Op(OpCodes::OP_NOP);
        assert!(!has_create_shape(&other, "h"));
    }
    let mut shorter = create.clone();
    shorter.stack.pop();
    assert!(!has_create_shape(&shorter, "h"));

    let p2pkh = Script::pay2pkh("h".to_string(), sig, pk, None);
    let addr = construct_address(&pk);
    assert!(has_p2pkh_shape(&p2pkh, "h", &addr));
    assert!(!has_p2pkh_shape(&p2pkh, "g", &addr));
    assert!(!has_p2pkh_shape(&p2pkh, "h", "elsewhere"));
    for i in 0..8 {
        let mut other = p2pkh.clone();
        other.stack[i] = StackEntry::Op(OpCodes::OP_NOP);
        assert!(!has_p2pkh_shape(&other, "h", &addr));
    }
    for op in [OpCodes::OP_HASH256_V0, OpCodes::OP_HASH256_TEMP] {
        let mut other = p2pkh.clone();
        other.stack[4] = StackEntry::Op(op);
        assert!(has_p2pkh_shape(&other, "h", &addr));
    }
}

#[test]
fn numbers_are_computed_with_checks() {
    assert_eq!(eval_unary(OpCodes::OP_1ADD, 41), Some(42));
    assert_eq!(eval_unary(OpCodes::OP_1ADD, usize::MAX), None);
    assert_eq!(eval_unary(OpCodes::OP_1SUB, 0), None);
    assert_eq!(eval_unary(OpCodes::OP_2MUL, usize::MAX / 2 + 1), None);
    assert_eq!(eval_unary(OpCodes::OP_2DIV, 7), Some(3));
    assert_eq!(eval_unary(OpCodes::OP_INVERT, 5), Some(!5usize));
    assert_eq!(eval_unary(OpCodes::OP_ADD, 5), None);
    assert_eq!(eval_binary(OpCodes::OP_SUB, 3, 5), None);
    assert_eq!(eval_binary(OpCodes::OP_SUB, 5, 3), Some(2));
    assert_eq!(eval_binary(OpCodes::OP_MUL, usize::MAX, 2), None);
    assert_eq!(eval_binary(OpCodes::OP_DIV, 7, 0), None);
    assert_eq!(eval_binary(OpCodes::OP_MOD, 7, 4), Some(3));
    assert_eq!(eval_binary(OpCodes::OP_LSHIFT, 3, 63), Some(1usize << 63));
    assert_eq!(eval_binary(OpCodes::OP_LSHIFT, 1, 64), None);
    assert_eq!(eval_binary(OpCodes::OP_RSHIFT, 8, 3), Some(1));
    assert_eq!(eval_binary(OpCodes::OP_MIN, 8, 3), Some(3));
    assert_eq!(eval_binary(OpCodes::OP_MAX, 8, 3), Some(8));
    assert_eq!(eval_binary(OpCodes::OP_1ADD, 8, 3), None);
}

#[test]
fn text_is_cut_between_characters_only() {
    let text = "h\u{e9}llo".to_string();
    assert_eq!(slice_text(&text, 0, 6), Some(text.clone()));
    assert_eq!(slice_text(&text, 1, 3), Some("\u{e9}".to_string()));
    assert_eq!(slice_text(&text, 3, 3), Some(String::new()));
    assert_eq!(slice_text(&text, 2, 3), None);
    assert_eq!(slice_text(&text, 0, 2), None);
    assert_eq!(slice_text(&text, 0, 7), None);
    assert_eq!(slice_text(&text, 4, 3), None);
}

#[test]
fn looked_up_outputs_must_come_one_per_input() {
    let addr = p2sh_address();
    let (utxo, tx) = p2sh_tx(
        TxOut::new_token_amount(addr.clone(), TokenAmount(5)),
        vec![TxOut::new_token_amount(addr, TokenAmount(5))],
    );
    let found = utxo.get(tx.inputs[0].previous_out.as_ref().unwrap()).cloned();
    assert!(tx_is_valid_against(&tx, &vec![found.clone()]));
    assert!(!tx_is_valid_against(&tx, &vec![]));
    assert!(!tx_is_valid_against(&tx, &vec![found.clone(), found]));
}

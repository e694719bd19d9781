//! General facts about the engine, proved from the definitions of its parts.

use vstd::prelude::*;
use vstd::utf8::{encode_utf8, is_ascii_chars_encode_utf8};
use crate::addresses::{
    length_prefixed, spec_address, spec_address_for, spec_address_temp, spec_address_v0,
};
use crate::constants::{
    MAX_OPS_PER_SCRIPT, MAX_PUB_KEYS_PER_MULTISIG, MAX_SCRIPT_ITEM_SIZE, MAX_SCRIPT_SIZE,
    MAX_STACK_SIZE, NETWORK_VERSION_V0,
};
use crate::encoding::{asset_bytes, spec_signable_asset_hash};
use crate::lang::{
    coinbase_script, create_asset_script, hash_op_for, member_multisig_script,
    multisig_counts_fit, multisig_lock_script, multisig_unlock_script,
    multisig_validation_script, p2pkh_script, p2pkh_script_with,
};
use crate::asset_values::{count_of, ledger_add, Ledger};
use crate::script_utils::{
    is_hash_op, ledger_of_inputs, ledger_of_outputs, tx_valid, valid_address_length,
    valid_create_script, valid_p2pkh_sig, valid_receipt_size,
};
use crate::crypto::{digest_of, hex_chars, spec_sign_verify};
use crate::druid_utils::{carries_druid, expectations_met, realized, realized_by};
use crate::machine::{
    apply_entry, initial, interprets, lemma_run_stays_failed, op_count, ops_upto, run,
    script_size, script_valid, size_upto, step, Machine,
};
use crate::opcodes::{item_size, pushable, text_size, Item, OpCodes};
use crate::primitives::{
    fixed_hash, AssetModel, TransactionModel, Triple, TxInModel, TxOutModel,
};
use crate::semantics::{
    all_signatures_match, checkmultisig_top, const_value, exec_op, exec_stack_op, first_match,
    handler_post,
    is_binary_op, is_splice_op, is_stack_op, is_unary_op, multisig_frame, truth,
};
use crate::stacks::{within_stack_limit, CondState, StackState};

verus! {

/// A script whose size or whose number of opcodes is over the limit is never accepted.
pub proof fn lemma_oversized_script_rejected(script: Seq<Item>)
    requires
        script_size(script) > MAX_SCRIPT_SIZE || op_count(script) > MAX_OPS_PER_SCRIPT,
    ensures
        !interprets(script),
{
}

/// While a run goes on, the two stacks together never hold more than the limit.
pub proof fn lemma_run_keeps_stack_limit(script: Seq<Item>, n: nat)
    requires
        run(script, n) is Some,
    ensures
        within_stack_limit(run(script, n)->0.stack),
    decreases n,
{
    if n == 0 {
        assert(initial().stack.main.len() == 0);
    }
}

/// An entry that leaves more items on the stacks than the limit allows aborts the
/// evaluation: the script is not accepted.
pub proof fn lemma_overfull_stack_aborts(script: Seq<Item>, n: nat, before: Machine, after: Machine)
    requires
        0 < n <= script.len(),
        run(script, (n - 1) as nat) == Some(before),
        apply_entry(script[n - 1], before) == Some(after),
        !within_stack_limit(after.stack),
    ensures
        !interprets(script),
{
    assert(step(script[n - 1], before) is None);
    assert(run(script, n) is None);
    lemma_run_stays_failed(script, n, script.len());
}

/// The outcome of an opcode is a function of the stacks before it: two runs of a handler
/// from the same stacks agree on success and on the stacks they leave.
pub proof fn lemma_handlers_deterministic(
    op: OpCodes,
    pre: StackState,
    ok1: bool,
    post1: StackState,
    ok2: bool,
    post2: StackState,
)
    requires
        handler_post(op, pre, ok1, post1),
        handler_post(op, pre, ok2, post2),
    ensures
        ok1 == ok2,
        post1 == post2,
{
}

/// Signatures and keys cover each other injectively: no signature occurs twice, every
/// signature signs the message under one of the keys, and no key serves two signatures.
pub open spec fn cover_injectively(msg: Seq<u8>, sigs: Seq<Seq<u8>>, keys: Seq<Seq<u8>>) -> bool {
    &&& sigs.no_duplicates()
    &&& forall|s: Seq<u8>| #[trigger]
        sigs.contains(s) ==> exists|k: Seq<u8>|
            keys.contains(k) && #[trigger] spec_sign_verify(msg, s, k)
    &&& forall|s1: Seq<u8>, s2: Seq<u8>, k: Seq<u8>|
        sigs.contains(s1) && sigs.contains(s2) && keys.contains(k) && #[trigger] spec_sign_verify(
            msg,
            s1,
            k,
        ) && #[trigger] spec_sign_verify(msg, s2, k) ==> s1 == s2
}

/// The first match is a key that verifies, wherever some key verifies.
pub proof fn lemma_first_match_found(msg: Seq<u8>, sig: Seq<u8>, keys: Seq<Seq<u8>>)
    ensures
        match first_match(msg, sig, keys) {
            Some(i) => 0 <= i < keys.len() && spec_sign_verify(msg, sig, keys[i]),
            None => forall|j: int| 0 <= j < keys.len() ==> !spec_sign_verify(msg, sig, keys[j]),
        },
    decreases keys.len(),
{
    if keys.len() > 0 && !spec_sign_verify(msg, sig, keys[0]) {
        let tail = keys.subrange(1, keys.len() as int);
        lemma_first_match_found(msg, sig, tail);
        if first_match(msg, sig, tail) is None {
            assert forall|j: int| 0 <= j < keys.len() implies !spec_sign_verify(
                msg,
                sig,
                keys[j],
            ) by {
                if j > 0 {
                    assert(tail[j - 1] == keys[j]);
                }
            }
        }
    }
}

/// Where signatures and keys cover each other injectively, every signature finds a key
/// of its own, in whatever order the signatures and the keys stand.
#[verifier::rlimit(40)]
pub proof fn lemma_cover_matches(msg: Seq<u8>, sigs: Seq<Seq<u8>>, keys: Seq<Seq<u8>>)
    requires
        cover_injectively(msg, sigs, keys),
    ensures
        all_signatures_match(msg, sigs, keys),
    decreases sigs.len(),
{
    if sigs.len() > 0 {
        let s0 = sigs[0];
        assert(sigs.contains(s0));
        let k0 = choose|k: Seq<u8>| keys.contains(k) && spec_sign_verify(msg, s0, k);
        let j0 = choose|j: int| 0 <= j < keys.len() && keys[j] == k0;
        lemma_first_match_found(msg, s0, keys);
        assert(spec_sign_verify(msg, s0, keys[j0]));
        let i = first_match(msg, s0, keys)->0;
        let rest = sigs.subrange(1, sigs.len() as int);
        let left = keys.remove(i);
        assert(keys.contains(keys[i]));
        assert forall|a: int, b: int| 0 <= a < rest.len() && 0 <= b < rest.len() && a != b implies rest[a] != rest[b] by {
            assert(rest[a] == sigs[a + 1] && rest[b] == sigs[b + 1]);
        }
        assert forall|s: Seq<u8>| #[trigger] rest.contains(s) implies exists|k: Seq<u8>|
            left.contains(k) && #[trigger] spec_sign_verify(msg, s, k) by {
            let a = choose|a: int| 0 <= a < rest.len() && rest[a] == s;
            assert(sigs[a + 1] == s);
            assert(sigs.contains(s));
            let k = choose|k: Seq<u8>| keys.contains(k) && spec_sign_verify(msg, s, k);
            let j = choose|j: int| 0 <= j < keys.len() && keys[j] == k;
            if k == keys[i] {
                assert(spec_sign_verify(msg, s0, k) && spec_sign_verify(msg, s, k));
                assert(s0 == s);
                assert(sigs[0] == sigs[a + 1]);
                assert(false);
            }
            if j < i {
                assert(left[j] == k);
            } else {
                assert(left[j - 1] == k);
            }
            assert(left.contains(k) && spec_sign_verify(msg, s, k));
        }
        assert forall|s1: Seq<u8>, s2: Seq<u8>, k: Seq<u8>|
            rest.contains(s1) && rest.contains(s2) && left.contains(k) && #[trigger] spec_sign_verify(
                msg,
                s1,
                k,
            ) && #[trigger] spec_sign_verify(msg, s2, k) implies s1 == s2 by {
            let a = choose|a: int| 0 <= a < rest.len() && rest[a] == s1;
            assert(sigs[a + 1] == s1);
            let b = choose|b: int| 0 <= b < rest.len() && rest[b] == s2;
            assert(sigs[b + 1] == s2);
            let j = choose|j: int| 0 <= j < left.len() && left[j] == k;
            if j < i {
                assert(keys[j] == k);
            } else {
                assert(keys[j + 1] == k);
            }
            assert(sigs.contains(s1) && sigs.contains(s2) && keys.contains(k));
        }
        lemma_cover_matches(msg, rest, left);
    }
}

/// Two sequences with the same elements, each as often, have the same members.
pub proof fn lemma_same_members<A>(a: Seq<A>, b: Seq<A>)
    requires
        a.to_multiset() == b.to_multiset(),
    ensures
        forall|x: A| a.contains(x) <==> b.contains(x),
{
    a.to_multiset_ensures();
    b.to_multiset_ensures();
    assert forall|x: A| a.contains(x) <==> b.contains(x) by {
        assert(a.contains(x) <==> a.to_multiset().count(x) > 0);
        assert(b.contains(x) <==> b.to_multiset().count(x) > 0);
    }
}

/// Multisig does not depend on order: where signatures and keys cover each other
/// injectively, the check succeeds, and it succeeds for every reordering of the
/// signatures and of the keys.
pub proof fn lemma_multisig_order_independent(
    msg: Seq<u8>,
    sigs: Seq<Seq<u8>>,
    keys: Seq<Seq<u8>>,
    sigs_reordered: Seq<Seq<u8>>,
    keys_reordered: Seq<Seq<u8>>,
)
    requires
        cover_injectively(msg, sigs, keys),
        sigs_reordered.to_multiset() == sigs.to_multiset(),
        keys_reordered.to_multiset() == keys.to_multiset(),
    ensures
        all_signatures_match(msg, sigs, keys),
        all_signatures_match(msg, sigs_reordered, keys_reordered),
{
    lemma_cover_matches(msg, sigs, keys);
    lemma_same_members(sigs, sigs_reordered);
    lemma_same_members(keys, keys_reordered);
    sigs.lemma_multiset_has_no_duplicates();
    sigs_reordered.lemma_multiset_has_no_duplicates_conv();
    assert forall|s: Seq<u8>| #[trigger] sigs_reordered.contains(s) implies exists|k: Seq<u8>|
        keys_reordered.contains(k) && #[trigger] spec_sign_verify(msg, s, k) by {
        assert(sigs.contains(s));
        let k = choose|k: Seq<u8>| keys.contains(k) && spec_sign_verify(msg, s, k);
        assert(keys_reordered.contains(k) && spec_sign_verify(msg, s, k));
    }
    assert forall|s1: Seq<u8>, s2: Seq<u8>, k: Seq<u8>|
        sigs_reordered.contains(s1) && sigs_reordered.contains(s2) && keys_reordered.contains(k)
            && #[trigger] spec_sign_verify(msg, s1, k) && #[trigger] spec_sign_verify(
            msg,
            s2,
            k,
        ) implies s1 == s2 by {
        assert(sigs.contains(s1) && sigs.contains(s2) && keys.contains(k));
    }
    lemma_cover_matches(msg, sigs_reordered, keys_reordered);
}

/// What a batch realises is realised by every batch that holds the same transactions.
pub proof fn lemma_realized_in_superset(
    a: Seq<TransactionModel>,
    b: Seq<TransactionModel>,
    druid: Seq<char>,
    t: Triple,
)
    requires
        forall|x: TransactionModel| a.contains(x) ==> b.contains(x),
        realized(a, druid, t),
    ensures
        realized(b, druid, t),
{
    let (i, k) = choose|i: int, k: int|
        0 <= i < a.len() && carries_druid(#[trigger] a[i], druid) && 0 <= k < a[i].outputs.len()
            && a[i].outputs[k].script_public_key is Some && #[trigger] realized_by(a[i], k) == t;
    assert(a.contains(a[i]));
    let j = choose|j: int| 0 <= j < b.len() && b[j] == a[i];
    assert(carries_druid(b[j], druid) && realized_by(b[j], k) == t);
}

/// Where the expectations of a batch are met, so are those of every batch that holds the
/// same transactions.
pub proof fn lemma_expectations_met_in_same_set(
    a: Seq<TransactionModel>,
    b: Seq<TransactionModel>,
    druid: Seq<char>,
)
    requires
        forall|x: TransactionModel| a.contains(x) <==> b.contains(x),
        expectations_met(a, druid),
    ensures
        expectations_met(b, druid),
{
    assert forall|i: int, k: int|
        0 <= i < b.len() && carries_druid(#[trigger] b[i], druid) && 0 <= k
            < b[i].druid_info->0.expectations.len() implies realized(
        b,
        druid,
        #[trigger] b[i].druid_info->0.expectations[k],
    ) by {
        assert(b.contains(b[i]));
        let j = choose|j: int| 0 <= j < a.len() && a[j] == b[i];
        assert(carries_druid(a[j], druid));
        assert(realized(a, druid, a[j].druid_info->0.expectations[k]));
        lemma_realized_in_superset(a, b, druid, b[i].druid_info->0.expectations[k]);
    }
}

/// The verdict on the expectations of a batch does not depend on the order of the batch.
pub proof fn lemma_expectations_order_independent(
    batch: Seq<TransactionModel>,
    reordered: Seq<TransactionModel>,
    druid: Seq<char>,
)
    requires
        reordered.to_multiset() == batch.to_multiset(),
    ensures
        expectations_met(batch, druid) == expectations_met(reordered, druid),
{
    lemma_same_members(batch, reordered);
    if expectations_met(batch, druid) {
        lemma_expectations_met_in_same_set(batch, reordered, druid);
    }
    if expectations_met(reordered, druid) {
        lemma_expectations_met_in_same_set(reordered, batch, druid);
    }
}

/// The hexadecimal text of a byte string takes two bytes for each byte.
pub proof fn lemma_hex_text_size(data: Seq<u8>)
    ensures
        text_size(hex_chars(data)) == 2 * data.len(),
{
    let text = hex_chars(data);
    assert forall|i: int| 0 <= i < text.len() implies '\0' <= #[trigger] text[i] <= '\u{7f}' by {
        let b = data[i / 2];
        let hi: u8 = b / 16;
        let lo: u8 = b % 16;
        assert(hi < 16 && lo < 16);
    }
    is_ascii_chars_encode_utf8(text);
}

/// Every address of a key has a valid length: 32 bytes in the first legacy encoding, 64
/// in the others.
pub proof fn lemma_address_length(pub_key: Seq<u8>, version: Option<u64>)
    ensures
        text_size(spec_address_for(pub_key, version)) == if version == Some(NETWORK_VERSION_V0) {
            32nat
        } else {
            64nat
        },
        valid_address_length(spec_address_for(pub_key, version)),
{
    lemma_hex_text_size(digest_of(pub_key));
    lemma_hex_text_size(digest_of(length_prefixed(pub_key)).subrange(0, 16));
    lemma_hex_text_size(digest_of(encode_utf8(hex_chars(pub_key))));
}

/// The stacks after the first `n` entries of a script are `main` over an empty
/// alternative stack, with no condition open.
pub open spec fn runs_to(script: Seq<Item>, n: nat, main: Seq<Item>) -> bool {
    &&& run(script, n) is Some
    &&& run(script, n)->0.stack.main =~= main
    &&& run(script, n)->0.stack.alt =~= Seq::<Item>::empty()
    &&& run(script, n)->0.cond == CondState::empty()
}

/// The machine with the main stack `main`, an empty alternative stack and no condition
/// open.
pub open spec fn plain(main: Seq<Item>) -> Machine {
    Machine {
        stack: StackState { main, alt: Seq::<Item>::empty() },
        cond: CondState::empty(),
    }
}

/// One more entry of a run: where the first `n` entries run to `before` and entry `n`
/// leads from there to `after`, the first `n + 1` entries run to `after`.
pub proof fn lemma_run_one_more(script: Seq<Item>, n: nat, before: Seq<Item>, after: Seq<Item>)
    requires
        n < script.len(),
        runs_to(script, n, before),
        step(script[n as int], plain(before)) is Some,
        step(script[n as int], plain(before))->0.stack.main =~= after,
        step(script[n as int], plain(before))->0.stack.alt =~= Seq::<Item>::empty(),
        step(script[n as int], plain(before))->0.cond == CondState::empty(),
    ensures
        runs_to(script, n + 1, after),
{
    reveal_with_fuel(run, 2);
    assert(run(script, n)->0 == plain(before));
}

/// One more entry of a run that fails there.
pub proof fn lemma_run_fails_next(script: Seq<Item>, n: nat, before: Seq<Item>)
    requires
        n < script.len(),
        runs_to(script, n, before),
        step(script[n as int], plain(before)) is None,
    ensures
        run(script, n + 1) is None,
{
    reveal_with_fuel(run, 2);
    assert(run(script, n)->0 == plain(before));
}

/// The address that a hash opcode computes for a key.
pub open spec fn address_by(hash_op: OpCodes, pk: Seq<u8>) -> Seq<char> {
    if hash_op == OpCodes::OP_HASH256_V0 {
        spec_address_v0(pk)
    } else if hash_op == OpCodes::OP_HASH256_TEMP {
        spec_address_temp(pk)
    } else {
        spec_address(pk)
    }
}

/// A pay-to-public-key-hash script whose texts fit on the stack evaluates to true
/// exactly if the address in it is the address of the key in it, under the hash opcode
/// in it, and the signature signs the check data under that key.
#[verifier::rlimit(40)]
pub proof fn lemma_p2pkh_script_verdict(
    check_data: Seq<char>,
    signature: Seq<u8>,
    pub_key: Seq<u8>,
    hash_op: OpCodes,
    address: Seq<char>,
)
    requires
        is_hash_op(hash_op),
        text_size(check_data) <= MAX_SCRIPT_ITEM_SIZE,
        text_size(address) <= MAX_SCRIPT_ITEM_SIZE,
    ensures
        interprets(p2pkh_script_with(check_data, signature, pub_key, hash_op, address)) == (
        address_by(hash_op, pub_key) == address && spec_sign_verify(
            encode_utf8(check_data),
            signature,
            pub_key,
        )),
{
    let s = p2pkh_script_with(check_data, signature, pub_key, hash_op, address);
    let d = Item::Bytes(check_data);
    let g = Item::Signature(signature);
    let k = Item::PubKey(pub_key);
    let h = Item::PubKeyHash(address_by(hash_op, pub_key));
    let a = Item::PubKeyHash(address);
    reveal_with_fuel(size_upto, 9);
    reveal_with_fuel(ops_upto, 9);
    assert(script_valid(s));
    assert(runs_to(s, 0, Seq::<Item>::empty()));
    lemma_run_one_more(s, 0, Seq::<Item>::empty(), seq![d]);
    lemma_run_one_more(s, 1, seq![d], seq![d, g]);
    lemma_run_one_more(s, 2, seq![d, g], seq![d, g, k]);
    lemma_run_one_more(s, 3, seq![d, g, k], seq![d, g, k, k]);
    lemma_run_one_more(s, 4, seq![d, g, k, k], seq![d, g, k, h]);
    lemma_run_one_more(s, 5, seq![d, g, k, h], seq![d, g, k, h, a]);
    if address_by(hash_op, pub_key) == address {
        lemma_run_one_more(s, 6, seq![d, g, k, h, a], seq![d, g, k]);
        let verdict = Item::Num(
            truth(spec_sign_verify(encode_utf8(check_data), signature, pub_key)),
        );
        lemma_run_one_more(s, 7, seq![d, g, k], seq![verdict]);
    } else {
        lemma_run_fails_next(s, 6, seq![d, g, k, h, a]);
        lemma_run_stays_failed(s, 7, 8);
    }
}

/// A pay-to-public-key-hash script built for a key and a version is a valid spend of
/// an output at `out_address` over `outpoint_hash` exactly if its check data is that
/// hash, the address of its key is that address, and its signature signs the check data
/// under its key. So it is valid for the right key, signature, message and address, and
/// not after any one of them is changed for another.
pub proof fn lemma_p2pkh_template_valid(
    check_data: Seq<char>,
    signature: Seq<u8>,
    pub_key: Seq<u8>,
    version: Option<u64>,
    outpoint_hash: Seq<char>,
    out_address: Seq<char>,
)
    requires
        text_size(check_data) <= MAX_SCRIPT_ITEM_SIZE,
    ensures
        valid_p2pkh_sig(
            p2pkh_script(check_data, signature, pub_key, version),
            outpoint_hash,
            out_address,
        ) == (check_data == outpoint_hash && spec_address_for(pub_key, version) == out_address
            && spec_sign_verify(encode_utf8(check_data), signature, pub_key)),
{
    lemma_address_length(pub_key, version);
    lemma_p2pkh_script_verdict(
        check_data,
        signature,
        pub_key,
        hash_op_for(version),
        spec_address_for(pub_key, version),
    );
}

/// The script of a member of a multiparty transaction evaluates to true exactly if the
/// signature signs the check data under the key.
#[verifier::rlimit(40)]
pub proof fn lemma_member_multisig_verdict(
    check_data: Seq<char>,
    pub_key: Seq<u8>,
    signature: Seq<u8>,
)
    requires
        text_size(check_data) <= MAX_SCRIPT_ITEM_SIZE,
    ensures
        interprets(member_multisig_script(check_data, pub_key, signature)) == spec_sign_verify(
            encode_utf8(check_data),
            signature,
            pub_key,
        ),
{
    let s = member_multisig_script(check_data, pub_key, signature);
    let d = Item::Bytes(check_data);
    let g = Item::Signature(signature);
    let k = Item::PubKey(pub_key);
    reveal_with_fuel(size_upto, 5);
    reveal_with_fuel(ops_upto, 5);
    assert(script_valid(s));
    assert(runs_to(s, 0, Seq::<Item>::empty()));
    lemma_run_one_more(s, 0, Seq::<Item>::empty(), seq![d]);
    lemma_run_one_more(s, 1, seq![d], seq![d, g]);
    lemma_run_one_more(s, 2, seq![d, g], seq![d, g, k]);
    let verdict = Item::Num(truth(spec_sign_verify(encode_utf8(check_data), signature, pub_key)));
    lemma_run_one_more(s, 3, seq![d, g, k], seq![verdict]);
}

/// An asset creation script evaluates to true exactly if the signature signs the asset
/// hash under the key.
#[verifier::rlimit(40)]
pub proof fn lemma_create_asset_verdict(
    block_number: u64,
    asset_hash: Seq<char>,
    signature: Seq<u8>,
    pub_key: Seq<u8>,
)
    requires
        text_size(asset_hash) <= MAX_SCRIPT_ITEM_SIZE,
    ensures
        interprets(create_asset_script(block_number, asset_hash, signature, pub_key))
            == spec_sign_verify(encode_utf8(asset_hash), signature, pub_key),
{
    let s = create_asset_script(block_number, asset_hash, signature, pub_key);
    let b = Item::Num(block_number as usize);
    let d = Item::Bytes(asset_hash);
    let g = Item::Signature(signature);
    let k = Item::PubKey(pub_key);
    reveal_with_fuel(size_upto, 8);
    reveal_with_fuel(ops_upto, 8);
    assert(script_valid(s));
    assert(runs_to(s, 0, Seq::<Item>::empty()));
    lemma_run_one_more(s, 0, Seq::<Item>::empty(), Seq::<Item>::empty());
    lemma_run_one_more(s, 1, Seq::<Item>::empty(), seq![b]);
    lemma_run_one_more(s, 2, seq![b], Seq::<Item>::empty());
    lemma_run_one_more(s, 3, Seq::<Item>::empty(), seq![d]);
    lemma_run_one_more(s, 4, seq![d], seq![d, g]);
    lemma_run_one_more(s, 5, seq![d, g], seq![d, g, k]);
    let verdict = Item::Num(truth(spec_sign_verify(encode_utf8(asset_hash), signature, pub_key)));
    lemma_run_one_more(s, 6, seq![d, g, k], seq![verdict]);
}

/// An asset creation script built over the signable hash of an asset is a valid
/// creation of that asset exactly if the metadata of a receipt is within its limit and
/// the signature signs the hash under the key.
pub proof fn lemma_create_template_valid(
    block_number: u64,
    asset: AssetModel,
    signature: Seq<u8>,
    pub_key: Seq<u8>,
)
    ensures
        valid_create_script(
            create_asset_script(
                block_number,
                spec_signable_asset_hash(asset),
                signature,
                pub_key,
            ),
            asset,
        ) == ((asset is Receipt ==> valid_receipt_size(asset->Receipt_metadata))
            && spec_sign_verify(
            encode_utf8(spec_signable_asset_hash(asset)),
            signature,
            pub_key,
        )),
{
    lemma_hex_text_size(digest_of(asset_bytes(asset)));
    lemma_create_asset_verdict(block_number, spec_signable_asset_hash(asset), signature, pub_key);
}

/// A coinbase script evaluates to true exactly if the number in it is not zero.
pub proof fn lemma_coinbase_verdict(block_number: u64)
    ensures
        interprets(coinbase_script(block_number)) == (block_number as usize != 0),
{
    let s = coinbase_script(block_number);
    reveal_with_fuel(size_upto, 2);
    reveal_with_fuel(ops_upto, 2);
    assert(runs_to(s, 0, Seq::<Item>::empty()));
    lemma_run_one_more(s, 0, Seq::<Item>::empty(), seq![Item::Num(block_number as usize)]);
}

/// The tokens that an asset adds to a sum.
pub open spec fn tokens_in(a: AssetModel) -> nat {
    match a {
        AssetModel::Token { amount } => amount as nat,
        _ => 0,
    }
}

/// The receipts that an asset adds to the count of the creating transaction `drs`.
pub open spec fn receipts_in(a: AssetModel, drs: Seq<char>) -> nat {
    match a {
        AssetModel::Receipt { amount, drs_tx_hash: Some(d), metadata } => if d == drs {
            amount as nat
        } else {
            0
        },
        _ => 0,
    }
}

/// The sum of the tokens of the first `n` assets.
pub open spec fn token_total(assets: Seq<AssetModel>, n: nat) -> nat
    decreases n,
{
    if n == 0 {
        0
    } else {
        token_total(assets, (n - 1) as nat) + tokens_in(assets[n - 1])
    }
}

/// The number of receipts of the creating transaction `drs` among the first `n` assets.
pub open spec fn receipt_total(assets: Seq<AssetModel>, n: nat, drs: Seq<char>) -> nat
    decreases n,
{
    if n == 0 {
        0
    } else {
        receipt_total(assets, (n - 1) as nat, drs) + receipts_in(assets[n - 1], drs)
    }
}

/// The assets that the outputs pay out.
pub open spec fn paid_assets(outs: Seq<TxOutModel>) -> Seq<AssetModel> {
    Seq::new(outs.len(), |i: int| outs[i].value)
}

/// The assets that the inputs spend, each receipt bound to its outpoint where it names
/// no creating transaction.
pub open spec fn spent_assets(ins: Seq<TxInModel>, previous: Seq<Option<TxOutModel>>) -> Seq<
    AssetModel,
> {
    Seq::new(
        ins.len(),
        |i: int| fixed_hash(previous[i]->0.value, ins[i].previous_out->0.t_hash),
    )
}

/// Adding an asset to a ledger adds its tokens to the token sum and its receipts to the
/// count of their creating transaction, and to no other count.
pub proof fn lemma_ledger_add_totals(l: Ledger, a: AssetModel, drs: Seq<char>)
    ensures
        ledger_add(l, a).tokens == l.tokens + tokens_in(a),
        count_of(ledger_add(l, a), drs) == count_of(l, drs) + receipts_in(a, drs),
{
}

/// The ledger of the outputs holds the totals of the assets paid out.
pub proof fn lemma_output_ledger_totals(outs: Seq<TxOutModel>, n: nat, drs: Seq<char>)
    requires
        n <= outs.len(),
    ensures
        ledger_of_outputs(outs, n).tokens == token_total(paid_assets(outs), n),
        count_of(ledger_of_outputs(outs, n), drs) == receipt_total(paid_assets(outs), n, drs),
    decreases n,
{
    if n > 0 {
        lemma_output_ledger_totals(outs, (n - 1) as nat, drs);
        lemma_ledger_add_totals(
            ledger_of_outputs(outs, (n - 1) as nat),
            outs[n - 1].value,
            drs,
        );
    }
}

/// The ledger of the inputs holds the totals of the assets spent.
pub proof fn lemma_input_ledger_totals(
    ins: Seq<TxInModel>,
    previous: Seq<Option<TxOutModel>>,
    n: nat,
    drs: Seq<char>,
)
    requires
        n <= ins.len(),
    ensures
        ledger_of_inputs(ins, previous, n).tokens == token_total(spent_assets(ins, previous), n),
        count_of(ledger_of_inputs(ins, previous, n), drs) == receipt_total(
            spent_assets(ins, previous),
            n,
            drs,
        ),
    decreases n,
{
    if n > 0 {
        lemma_input_ledger_totals(ins, previous, (n - 1) as nat, drs);
        lemma_ledger_add_totals(
            ledger_of_inputs(ins, previous, (n - 1) as nat),
            fixed_hash(previous[n - 1]->0.value, ins[n - 1].previous_out->0.t_hash),
            drs,
        );
    }
}

/// Assets are conserved: a valid transaction pays out as many tokens as it spends, and
/// for every creating transaction as many receipts as it spends.
pub proof fn lemma_valid_tx_conserves_assets(
    ins: Seq<TxInModel>,
    outs: Seq<TxOutModel>,
    previous: Seq<Option<TxOutModel>>,
)
    requires
        tx_valid(ins, outs, previous),
    ensures
        token_total(spent_assets(ins, previous), ins.len()) == token_total(
            paid_assets(outs),
            outs.len(),
        ),
        forall|drs: Seq<char>|
            receipt_total(spent_assets(ins, previous), ins.len(), drs) == #[trigger] receipt_total(
                paid_assets(outs),
                outs.len(),
                drs,
            ),
{
    let none = Seq::<char>::empty();
    lemma_output_ledger_totals(outs, outs.len(), none);
    lemma_input_ledger_totals(ins, previous, ins.len(), none);
    assert forall|drs: Seq<char>|
        receipt_total(spent_assets(ins, previous), ins.len(), drs) == #[trigger] receipt_total(
            paid_assets(outs),
            outs.len(),
            drs,
        ) by {
        lemma_output_ledger_totals(outs, outs.len(), drs);
        lemma_input_ledger_totals(ins, previous, ins.len(), drs);
    }
}

/// A script made of data that may be pushed, no longer than the stack limit, runs to a
/// main stack that holds the script.
pub proof fn lemma_data_run(script: Seq<Item>, n: nat)
    requires
        n <= script.len(),
        n <= MAX_STACK_SIZE,
        forall|i: int| 0 <= i < n ==> pushable(#[trigger] script[i]),
    ensures
        runs_to(script, n, script.subrange(0, n as int)),
    decreases n,
{
    if n > 0 {
        lemma_data_run(script, (n - 1) as nat);
        assert(pushable(script[n - 1]));
        assert(script.subrange(0, n - 1).push(script[n - 1]) =~= script.subrange(0, n as int));
    }
}

/// The size of a script that starts with a text and goes on with entries of at most 64
/// bytes each.
pub proof fn lemma_size_after_text(script: Seq<Item>, n: nat)
    requires
        1 <= n <= script.len(),
        forall|i: int| 1 <= i < n ==> item_size(#[trigger] script[i]) <= 64,
    ensures
        size_upto(script, n) <= item_size(script[0]) + 64 * (n - 1),
    decreases n,
{
    reveal_with_fuel(size_upto, 2);
    if n > 1 {
        lemma_size_after_text(script, (n - 1) as nat);
    }
}

/// A script without opcodes among its first `n` entries counts no opcode there.
pub proof fn lemma_no_ops(script: Seq<Item>, n: nat)
    requires
        n <= script.len(),
        forall|i: int| 0 <= i < n ==> !((#[trigger] script[i]) is Op),
    ensures
        ops_upto(script, n) == 0,
    decreases n,
{
    if n > 0 {
        lemma_no_ops(script, (n - 1) as nat);
    }
}

/// A multisig validation script over no more keys than a multisig may have evaluates to
/// true exactly if it holds as many signatures as it asks for and every signature finds
/// a key of its own among the keys in it.
#[verifier::rlimit(40)]
pub proof fn lemma_multisig_validation_verdict(
    m: usize,
    n: usize,
    check_data: Seq<char>,
    sigs: Seq<Seq<u8>>,
    keys: Seq<Seq<u8>>,
)
    requires
        multisig_counts_fit(m, n, keys.len()),
        n <= MAX_PUB_KEYS_PER_MULTISIG,
        sigs.len() <= MAX_PUB_KEYS_PER_MULTISIG,
        text_size(check_data) <= MAX_SCRIPT_ITEM_SIZE,
    ensures
        interprets(multisig_validation_script(m, n, check_data, sigs, keys)) == (sigs.len() == m
            && all_signatures_match(encode_utf8(check_data), sigs, keys.subrange(0, n as int))),
{
    let s = multisig_validation_script(m, n, check_data, sigs, keys);
    let used = keys.subrange(0, n as int);
    let k = sigs.len() as int;
    let len = k + n + 3;
    assert(s.len() == len + 1);
    assert(s[0] == Item::Bytes(check_data));
    assert forall|j: int| 0 <= j < k implies s[1 + j] == Item::Signature(sigs[j]) by {}
    assert(s[k + 1] == Item::Num(m));
    assert forall|j: int| 0 <= j < n implies s[k + 2 + j] == Item::PubKey(used[j]) by {}
    assert(s[len - 1] == Item::Num(n));
    assert(s[len] == Item::Op(OpCodes::OP_CHECKMULTISIG));
    assert forall|i: int| 0 <= i < len implies pushable(#[trigger] s[i]) && !(s[i] is Op)
        && (i >= 1 ==> item_size(s[i]) <= 64) by {
        if 1 <= i < k + 1 {
            assert(s[1 + (i - 1)] == Item::Signature(sigs[i - 1]));
        } else if k + 2 <= i < len - 1 {
            assert(s[k + 2 + (i - k - 2)] == Item::PubKey(used[i - k - 2]));
        }
    }
    lemma_size_after_text(s, len as nat);
    lemma_no_ops(s, len as nat);
    reveal_with_fuel(size_upto, 2);
    reveal_with_fuel(ops_upto, 2);
    assert(script_valid(s));
    lemma_data_run(s, len as nat);
    let main = s.subrange(0, len);
    let before = run(s, len as nat)->0;
    assert(before.stack.main == main);
    assert(main[len - 1] == s[len - 1]);
    assert(main[len - 2 - n] == s[k + 1]);
    assert forall|i: int| len - 1 - n <= i < len - 1 implies (#[trigger] main[i]) is PubKey by {
        assert(main[i] == s[k + 2 + (i - k - 2)]);
    }
    reveal_with_fuel(run, 2);
    if k == m {
        assert forall|i: int| len - 2 - n - m <= i < len - 2 - n implies (#[trigger] main[
            i
        ]) is Signature by {
            assert(main[i] == s[1 + (i - 1)]);
        }
        assert(main[len - 3 - n - m] == s[0]);
        let f = multisig_frame(main)->0;
        assert(multisig_frame(main) is Some);
        assert(f.msg == check_data);
        assert(f.sigs =~= sigs) by {
            assert forall|j: int| 0 <= j < k implies f.sigs[j] == sigs[j] by {
                assert(main.subrange(len - 2 - n - m, len - 2 - n)[j] == s[1 + j]);
            }
        }
        assert(f.keys =~= used) by {
            assert forall|j: int| 0 <= j < n implies f.keys[j] == used[j] by {
                assert(main.subrange(len - 1 - n, len - 1)[j] == s[k + 2 + j]);
            }
        }
        assert(f.rest =~= Seq::<Item>::empty());
        let verdict = Item::Num(truth(all_signatures_match(encode_utf8(check_data), sigs, used)));
        assert(checkmultisig_top(before.stack) is Some);
        assert(checkmultisig_top(before.stack)->0.main =~= seq![verdict]);
        assert(runs_to(s, (len + 1) as nat, seq![verdict]));
    } else {
        if k > m {
            assert(main[len - 3 - n - m] == s[1 + (k - m - 1)]);
            assert(!(main[len - 3 - n - m] is Bytes));
        }
        assert(multisig_frame(main) is None);
        assert(run(s, (len + 1) as nat) is None);
    }
}

/// A multisig locking script alone evaluates to true only where it asks for no
/// signature.
pub proof fn lemma_multisig_lock_verdict(
    m: usize,
    n: usize,
    check_data: Seq<char>,
    keys: Seq<Seq<u8>>,
)
    requires
        multisig_counts_fit(m, n, keys.len()),
        n <= MAX_PUB_KEYS_PER_MULTISIG,
        text_size(check_data) <= MAX_SCRIPT_ITEM_SIZE,
    ensures
        interprets(multisig_lock_script(m, n, check_data, keys)) == (m == 0),
{
    let none = Seq::<Seq<u8>>::empty();
    lemma_multisig_validation_verdict(m, n, check_data, none, keys);
    assert(multisig_validation_script(m, n, check_data, none, keys) =~= multisig_lock_script(
        m,
        n,
        check_data,
        keys,
    ));
}

/// A multisig unlocking script that is within the size limit evaluates to true.
pub proof fn lemma_multisig_unlock_verdict(check_data: Seq<char>, sigs: Seq<Seq<u8>>)
    requires
        text_size(check_data) <= MAX_SCRIPT_ITEM_SIZE,
        text_size(check_data) + 64 * sigs.len() <= MAX_SCRIPT_SIZE,
    ensures
        interprets(multisig_unlock_script(check_data, sigs)),
{
    let s = multisig_unlock_script(check_data, sigs);
    let len = s.len();
    assert(s[0] == Item::Bytes(check_data));
    assert forall|i: int| 0 <= i < len implies pushable(#[trigger] s[i]) && !(s[i] is Op) && (i
        >= 1 ==> item_size(s[i]) <= 64) by {
        if i >= 1 {
            assert(s[i] == Item::Signature(sigs[i - 1]));
        }
    }
    lemma_size_after_text(s, len);
    lemma_no_ops(s, len);
    lemma_data_run(s, len);
    assert(s.subrange(0, len as int).last() == s[len - 1]);
}

/// The stacks with further items under the main stack.
pub open spec fn over(below: Seq<Item>, s: StackState) -> StackState {
    StackState { main: below + s.main, alt: s.alt }
}

/// A numeric opcode reads only the items it takes from the top: with further items
/// under the stack it succeeds as before and leaves those items where they were.
pub proof fn lemma_numeric_reads_top_only(op: OpCodes, s: StackState, below: Seq<Item>)
    requires
        const_value(op) is Some || is_unary_op(op) || is_binary_op(op),
        exec_op(op, s) is Some,
    ensures
        exec_op(op, over(below, s)) == Some(over(below, exec_op(op, s)->0)),
{
    let lifted = exec_op(op, over(below, s));
    assert(lifted is Some);
    assert(lifted->0.main =~= below + exec_op(op, s)->0.main);
}

/// `OP_TOALTSTACK` reads only the items it takes from the top.
proof fn lemma_frame_toaltstack(s: StackState, below: Seq<Item>)
    requires
        exec_stack_op(OpCodes::OP_TOALTSTACK, s) is Some,
    ensures
        exec_stack_op(OpCodes::OP_TOALTSTACK, over(below, s)) == Some(
            over(below, exec_stack_op(OpCodes::OP_TOALTSTACK, s)->0),
        ),
{
    let lifted = exec_stack_op(OpCodes::OP_TOALTSTACK, over(below, s));
    assert(lifted is Some);
    assert(lifted->0.main =~= below + exec_stack_op(OpCodes::OP_TOALTSTACK, s)->0.main);
}

/// `OP_FROMALTSTACK` reads only the items it takes from the top.
proof fn lemma_frame_fromaltstack(s: StackState, below: Seq<Item>)
    requires
        exec_stack_op(OpCodes::OP_FROMALTSTACK, s) is Some,
    ensures
        exec_stack_op(OpCodes::OP_FROMALTSTACK, over(below, s)) == Some(
            over(below, exec_stack_op(OpCodes::OP_FROMALTSTACK, s)->0),
        ),
{
    let lifted = exec_stack_op(OpCodes::OP_FROMALTSTACK, over(below, s));
    assert(lifted is Some);
    assert(lifted->0.main =~= below + exec_stack_op(OpCodes::OP_FROMALTSTACK, s)->0.main);
}

/// `OP_2DROP` reads only the items it takes from the top.
proof fn lemma_frame_2drop(s: StackState, below: Seq<Item>)
    requires
        exec_stack_op(OpCodes::OP_2DROP, s) is Some,
    ensures
        exec_stack_op(OpCodes::OP_2DROP, over(below, s)) == Some(
            over(below, exec_stack_op(OpCodes::OP_2DROP, s)->0),
        ),
{
    let lifted = exec_stack_op(OpCodes::OP_2DROP, over(below, s));
    assert(lifted is Some);
    assert(lifted->0.main =~= below + exec_stack_op(OpCodes::OP_2DROP, s)->0.main);
}

/// `OP_2DUP` reads only the items it takes from the top.
proof fn lemma_frame_2dup(s: StackState, below: Seq<Item>)
    requires
        exec_stack_op(OpCodes::OP_2DUP, s) is Some,
    ensures
        exec_stack_op(OpCodes::OP_2DUP, over(below, s)) == Some(
            over(below, exec_stack_op(OpCodes::OP_2DUP, s)->0),
        ),
{
    let lifted = exec_stack_op(OpCodes::OP_2DUP, over(below, s));
    assert(lifted is Some);
    assert(lifted->0.main =~= below + exec_stack_op(OpCodes::OP_2DUP, s)->0.main);
}

/// `OP_3DUP` reads only the items it takes from the top.
proof fn lemma_frame_3dup(s: StackState, below: Seq<Item>)
    requires
        exec_stack_op(OpCodes::OP_3DUP, s) is Some,
    ensures
        exec_stack_op(OpCodes::OP_3DUP, over(below, s)) == Some(
            over(below, exec_stack_op(OpCodes::OP_3DUP, s)->0),
        ),
{
    let lifted = exec_stack_op(OpCodes::OP_3DUP, over(below, s));
    assert(lifted is Some);
    assert(lifted->0.main =~= below + exec_stack_op(OpCodes::OP_3DUP, s)->0.main);
}

/// `OP_2OVER` reads only the items it takes from the top.
proof fn lemma_frame_2over(s: StackState, below: Seq<Item>)
    requires
        exec_stack_op(OpCodes::OP_2OVER, s) is Some,
    ensures
        exec_stack_op(OpCodes::OP_2OVER, over(below, s)) == Some(
            over(below, exec_stack_op(OpCodes::OP_2OVER, s)->0),
        ),
{
    let lifted = exec_stack_op(OpCodes::OP_2OVER, over(below, s));
    assert(lifted is Some);
    assert(lifted->0.main =~= below + exec_stack_op(OpCodes::OP_2OVER, s)->0.main);
}

/// `OP_2ROT` reads only the items it takes from the top.
#[verifier::rlimit(40)]
proof fn lemma_frame_2rot(s: StackState, below: Seq<Item>)
    requires
        exec_stack_op(OpCodes::OP_2ROT, s) is Some,
    ensures
        exec_stack_op(OpCodes::OP_2ROT, over(below, s)) == Some(
            over(below, exec_stack_op(OpCodes::OP_2ROT, s)->0),
        ),
{
    let lifted = exec_stack_op(OpCodes::OP_2ROT, over(below, s));
    assert(lifted is Some);
    assert(lifted->0.main =~= below + exec_stack_op(OpCodes::OP_2ROT, s)->0.main);
}

/// `OP_2SWAP` reads only the items it takes from the top.
#[verifier::rlimit(40)]
proof fn lemma_frame_2swap(s: StackState, below: Seq<Item>)
    requires
        exec_stack_op(OpCodes::OP_2SWAP, s) is Some,
    ensures
        exec_stack_op(OpCodes::OP_2SWAP, over(below, s)) == Some(
            over(below, exec_stack_op(OpCodes::OP_2SWAP, s)->0),
        ),
{
    let lifted = exec_stack_op(OpCodes::OP_2SWAP, over(below, s));
    assert(lifted is Some);
    assert(lifted->0.main =~= below + exec_stack_op(OpCodes::OP_2SWAP, s)->0.main);
}

/// `OP_IFDUP` reads only the items it takes from the top.
proof fn lemma_frame_ifdup(s: StackState, below: Seq<Item>)
    requires
        exec_stack_op(OpCodes::OP_IFDUP, s) is Some,
    ensures
        exec_stack_op(OpCodes::OP_IFDUP, over(below, s)) == Some(
            over(below, exec_stack_op(OpCodes::OP_IFDUP, s)->0),
        ),
{
    let lifted = exec_stack_op(OpCodes::OP_IFDUP, over(below, s));
    assert(lifted is Some);
    assert(lifted->0.main =~= below + exec_stack_op(OpCodes::OP_IFDUP, s)->0.main);
}

/// `OP_DROP` reads only the items it takes from the top.
proof fn lemma_frame_drop(s: StackState, below: Seq<Item>)
    requires
        exec_stack_op(OpCodes::OP_DROP, s) is Some,
    ensures
        exec_stack_op(OpCodes::OP_DROP, over(below, s)) == Some(
            over(below, exec_stack_op(OpCodes::OP_DROP, s)->0),
        ),
{
    let lifted = exec_stack_op(OpCodes::OP_DROP, over(below, s));
    assert(lifted is Some);
    assert(lifted->0.main =~= below + exec_stack_op(OpCodes::OP_DROP, s)->0.main);
}

/// `OP_DUP` reads only the items it takes from the top.
proof fn lemma_frame_dup(s: StackState, below: Seq<Item>)
    requires
        exec_stack_op(OpCodes::OP_DUP, s) is Some,
    ensures
        exec_stack_op(OpCodes::OP_DUP, over(below, s)) == Some(
            over(below, exec_stack_op(OpCodes::OP_DUP, s)->0),
        ),
{
    let lifted = exec_stack_op(OpCodes::OP_DUP, over(below, s));
    assert(lifted is Some);
    assert(lifted->0.main =~= below + exec_stack_op(OpCodes::OP_DUP, s)->0.main);
}

/// `OP_NIP` reads only the items it takes from the top.
proof fn lemma_frame_nip(s: StackState, below: Seq<Item>)
    requires
        exec_stack_op(OpCodes::OP_NIP, s) is Some,
    ensures
        exec_stack_op(OpCodes::OP_NIP, over(below, s)) == Some(
            over(below, exec_stack_op(OpCodes::OP_NIP, s)->0),
        ),
{
    let lifted = exec_stack_op(OpCodes::OP_NIP, over(below, s));
    assert(lifted is Some);
    assert(lifted->0.main =~= below + exec_stack_op(OpCodes::OP_NIP, s)->0.main);
}

/// `OP_OVER` reads only the items it takes from the top.
proof fn lemma_frame_over(s: StackState, below: Seq<Item>)
    requires
        exec_stack_op(OpCodes::OP_OVER, s) is Some,
    ensures
        exec_stack_op(OpCodes::OP_OVER, over(below, s)) == Some(
            over(below, exec_stack_op(OpCodes::OP_OVER, s)->0),
        ),
{
    let lifted = exec_stack_op(OpCodes::OP_OVER, over(below, s));
    assert(lifted is Some);
    assert(lifted->0.main =~= below + exec_stack_op(OpCodes::OP_OVER, s)->0.main);
}

/// `OP_PICK` reads only the items it takes from the top.
#[verifier::rlimit(40)]
proof fn lemma_frame_pick(s: StackState, below: Seq<Item>)
    requires
        exec_stack_op(OpCodes::OP_PICK, s) is Some,
    ensures
        exec_stack_op(OpCodes::OP_PICK, over(below, s)) == Some(
            over(below, exec_stack_op(OpCodes::OP_PICK, s)->0),
        ),
{
    let lifted = exec_stack_op(OpCodes::OP_PICK, over(below, s));
    assert(lifted is Some);
    assert(lifted->0.main =~= below + exec_stack_op(OpCodes::OP_PICK, s)->0.main);
}

/// `OP_ROLL` reads only the items it takes from the top.
#[verifier::rlimit(40)]
proof fn lemma_frame_roll(s: StackState, below: Seq<Item>)
    requires
        exec_stack_op(OpCodes::OP_ROLL, s) is Some,
    ensures
        exec_stack_op(OpCodes::OP_ROLL, over(below, s)) == Some(
            over(below, exec_stack_op(OpCodes::OP_ROLL, s)->0),
        ),
{
    let lifted = exec_stack_op(OpCodes::OP_ROLL, over(below, s));
    assert(lifted is Some);
    assert(lifted->0.main =~= below + exec_stack_op(OpCodes::OP_ROLL, s)->0.main);
}

/// `OP_ROT` reads only the items it takes from the top.
proof fn lemma_frame_rot(s: StackState, below: Seq<Item>)
    requires
        exec_stack_op(OpCodes::OP_ROT, s) is Some,
    ensures
        exec_stack_op(OpCodes::OP_ROT, over(below, s)) == Some(
            over(below, exec_stack_op(OpCodes::OP_ROT, s)->0),
        ),
{
    let lifted = exec_stack_op(OpCodes::OP_ROT, over(below, s));
    assert(lifted is Some);
    assert(lifted->0.main =~= below + exec_stack_op(OpCodes::OP_ROT, s)->0.main);
}

/// `OP_SWAP` reads only the items it takes from the top.
proof fn lemma_frame_swap(s: StackState, below: Seq<Item>)
    requires
        exec_stack_op(OpCodes::OP_SWAP, s) is Some,
    ensures
        exec_stack_op(OpCodes::OP_SWAP, over(below, s)) == Some(
            over(below, exec_stack_op(OpCodes::OP_SWAP, s)->0),
        ),
{
    let lifted = exec_stack_op(OpCodes::OP_SWAP, over(below, s));
    assert(lifted is Some);
    assert(lifted->0.main =~= below + exec_stack_op(OpCodes::OP_SWAP, s)->0.main);
}

/// `OP_TUCK` reads only the items it takes from the top.
#[verifier::rlimit(40)]
proof fn lemma_frame_tuck(s: StackState, below: Seq<Item>)
    requires
        exec_stack_op(OpCodes::OP_TUCK, s) is Some,
    ensures
        exec_stack_op(OpCodes::OP_TUCK, over(below, s)) == Some(
            over(below, exec_stack_op(OpCodes::OP_TUCK, s)->0),
        ),
{
    let lifted = exec_stack_op(OpCodes::OP_TUCK, over(below, s));
    assert(lifted is Some);
    assert(lifted->0.main =~= below + exec_stack_op(OpCodes::OP_TUCK, s)->0.main);
}

/// An opcode that moves, copies or drops items, other than the one that counts them,
/// reads only the items it takes from the top.
pub proof fn lemma_stack_op_reads_top_only(op: OpCodes, s: StackState, below: Seq<Item>)
    requires
        is_stack_op(op),
        op != OpCodes::OP_DEPTH,
        exec_op(op, s) is Some,
    ensures
        exec_op(op, over(below, s)) == Some(over(below, exec_op(op, s)->0)),
{
    assert(exec_op(op, s) == exec_stack_op(op, s));
    assert(exec_op(op, over(below, s)) == exec_stack_op(op, over(below, s)));
    match op {
        OpCodes::OP_TOALTSTACK => lemma_frame_toaltstack(s, below),
        OpCodes::OP_FROMALTSTACK => lemma_frame_fromaltstack(s, below),
        OpCodes::OP_2DROP => lemma_frame_2drop(s, below),
        OpCodes::OP_2DUP => lemma_frame_2dup(s, below),
        OpCodes::OP_3DUP => lemma_frame_3dup(s, below),
        OpCodes::OP_2OVER => lemma_frame_2over(s, below),
        OpCodes::OP_2ROT => lemma_frame_2rot(s, below),
        OpCodes::OP_2SWAP => lemma_frame_2swap(s, below),
        OpCodes::OP_IFDUP => lemma_frame_ifdup(s, below),
        OpCodes::OP_DROP => lemma_frame_drop(s, below),
        OpCodes::OP_DUP => lemma_frame_dup(s, below),
        OpCodes::OP_NIP => lemma_frame_nip(s, below),
        OpCodes::OP_OVER => lemma_frame_over(s, below),
        OpCodes::OP_PICK => lemma_frame_pick(s, below),
        OpCodes::OP_ROLL => lemma_frame_roll(s, below),
        OpCodes::OP_ROT => lemma_frame_rot(s, below),
        OpCodes::OP_SWAP => lemma_frame_swap(s, below),
        OpCodes::OP_TUCK => lemma_frame_tuck(s, below),
        _ => {},
    }
}

/// An opcode that works on texts reads only the items it takes from the top.
pub proof fn lemma_splice_reads_top_only(op: OpCodes, s: StackState, below: Seq<Item>)
    requires
        is_splice_op(op),
        exec_op(op, s) is Some,
    ensures
        exec_op(op, over(below, s)) == Some(over(below, exec_op(op, s)->0)),
{
    let lifted = exec_op(op, over(below, s));
    assert(lifted is Some);
    assert(lifted->0.main =~= below + exec_op(op, s)->0.main);
}

/// A multisig frame on top of a stack is the same frame with further items under the
/// stack, which stay below it.
#[verifier::rlimit(40)]
pub proof fn lemma_frame_of_multisig(main: Seq<Item>, below: Seq<Item>)
    requires
        multisig_frame(main) is Some,
    ensures
        multisig_frame(below + main) is Some,
        multisig_frame(below + main)->0.msg == multisig_frame(main)->0.msg,
        multisig_frame(below + main)->0.sigs == multisig_frame(main)->0.sigs,
        multisig_frame(below + main)->0.keys == multisig_frame(main)->0.keys,
        multisig_frame(below + main)->0.rest == below + multisig_frame(main)->0.rest,
{
    let all = below + main;
    let b = below.len() as int;
    let len = main.len() as int;
    let n = main[len - 1]->Num_0 as int;
    let m = main[len - 2 - n]->Num_0 as int;
    assert(all[b + len - 1] == main[len - 1]);
    assert(all[b + len - 2 - n] == main[len - 2 - n]);
    assert(all[b + len - 3 - n - m] == main[len - 3 - n - m]);
    assert forall|i: int| b + len - 1 - n <= i < b + len - 1 implies (#[trigger] all[i])
        is PubKey by {
        assert(all[i] == main[i - b]);
    }
    assert forall|i: int| b + len - 2 - n - m <= i < b + len - 2 - n implies (#[trigger] all[i])
        is Signature by {
        assert(all[i] == main[i - b]);
    }
    assert(all.subrange(b + len - 2 - n - m, b + len - 2 - n) =~= main.subrange(
        len - 2 - n - m,
        len - 2 - n,
    ));
    assert(all.subrange(b + len - 1 - n, b + len - 1) =~= main.subrange(len - 1 - n, len - 1));
    assert(all.subrange(0, b + len - 3 - n - m) =~= below + main.subrange(0, len - 3 - n - m));
}

/// `OP_CHECKMULTISIG` reads only the items it takes from the top.
#[verifier::rlimit(40)]
proof fn lemma_frame_checkmultisig(s: StackState, below: Seq<Item>)
    requires
        exec_op(OpCodes::OP_CHECKMULTISIG, s) is Some,
    ensures
        exec_op(OpCodes::OP_CHECKMULTISIG, over(below, s)) == Some(
            over(below, exec_op(OpCodes::OP_CHECKMULTISIG, s)->0),
        ),
{
    lemma_frame_of_multisig(s.main, below);
    let lifted = exec_op(OpCodes::OP_CHECKMULTISIG, over(below, s));
    assert(lifted is Some);
    assert(lifted->0.main =~= below + exec_op(OpCodes::OP_CHECKMULTISIG, s)->0.main);
}

/// `OP_CHECKMULTISIGVERIFY` reads only the items it takes from the top.
#[verifier::rlimit(40)]
proof fn lemma_frame_checkmultisigverify(s: StackState, below: Seq<Item>)
    requires
        exec_op(OpCodes::OP_CHECKMULTISIGVERIFY, s) is Some,
    ensures
        exec_op(OpCodes::OP_CHECKMULTISIGVERIFY, over(below, s)) == Some(
            over(below, exec_op(OpCodes::OP_CHECKMULTISIGVERIFY, s)->0),
        ),
{
    lemma_frame_of_multisig(s.main, below);
    let lifted = exec_op(OpCodes::OP_CHECKMULTISIGVERIFY, over(below, s));
    assert(checkmultisig_top(over(below, s)) is Some);
    assert(checkmultisig_top(over(below, s))->0.main =~= below + checkmultisig_top(s)->0.main);
    assert(lifted is Some);
    assert(lifted->0.main =~= below + exec_op(OpCodes::OP_CHECKMULTISIGVERIFY, s)->0.main);
}

/// `OP_NOP` reads only the items it takes from the top.
proof fn lemma_frame_nop(s: StackState, below: Seq<Item>)
    requires
        exec_op(OpCodes::OP_NOP, s) is Some,
    ensures
        exec_op(OpCodes::OP_NOP, over(below, s)) == Some(
            over(below, exec_op(OpCodes::OP_NOP, s)->0),
        ),
{
    let lifted = exec_op(OpCodes::OP_NOP, over(below, s));
    assert(lifted is Some);
    assert(lifted->0.main =~= below + exec_op(OpCodes::OP_NOP, s)->0.main);
}

/// `OP_CREATE` reads only the items it takes from the top.
proof fn lemma_frame_create(s: StackState, below: Seq<Item>)
    requires
        exec_op(OpCodes::OP_CREATE, s) is Some,
    ensures
        exec_op(OpCodes::OP_CREATE, over(below, s)) == Some(
            over(below, exec_op(OpCodes::OP_CREATE, s)->0),
        ),
{
    let lifted = exec_op(OpCodes::OP_CREATE, over(below, s));
    assert(lifted is Some);
    assert(lifted->0.main =~= below + exec_op(OpCodes::OP_CREATE, s)->0.main);
}

/// `OP_VERIFY` reads only the items it takes from the top.
proof fn lemma_frame_verify(s: StackState, below: Seq<Item>)
    requires
        exec_op(OpCodes::OP_VERIFY, s) is Some,
    ensures
        exec_op(OpCodes::OP_VERIFY, over(below, s)) == Some(
            over(below, exec_op(OpCodes::OP_VERIFY, s)->0),
        ),
{
    let lifted = exec_op(OpCodes::OP_VERIFY, over(below, s));
    assert(lifted is Some);
    assert(lifted->0.main =~= below + exec_op(OpCodes::OP_VERIFY, s)->0.main);
}

/// `OP_EQUAL` reads only the items it takes from the top.
proof fn lemma_frame_equal(s: StackState, below: Seq<Item>)
    requires
        exec_op(OpCodes::OP_EQUAL, s) is Some,
    ensures
        exec_op(OpCodes::OP_EQUAL, over(below, s)) == Some(
            over(below, exec_op(OpCodes::OP_EQUAL, s)->0),
        ),
{
    let lifted = exec_op(OpCodes::OP_EQUAL, over(below, s));
    assert(lifted is Some);
    assert(lifted->0.main =~= below + exec_op(OpCodes::OP_EQUAL, s)->0.main);
}

/// `OP_EQUALVERIFY` reads only the items it takes from the top.
proof fn lemma_frame_equalverify(s: StackState, below: Seq<Item>)
    requires
        exec_op(OpCodes::OP_EQUALVERIFY, s) is Some,
    ensures
        exec_op(OpCodes::OP_EQUALVERIFY, over(below, s)) == Some(
            over(below, exec_op(OpCodes::OP_EQUALVERIFY, s)->0),
        ),
{
    let lifted = exec_op(OpCodes::OP_EQUALVERIFY, over(below, s));
    assert(lifted is Some);
    assert(lifted->0.main =~= below + exec_op(OpCodes::OP_EQUALVERIFY, s)->0.main);
}

/// `OP_NUMEQUALVERIFY` reads only the items it takes from the top.
proof fn lemma_frame_numequalverify(s: StackState, below: Seq<Item>)
    requires
        exec_op(OpCodes::OP_NUMEQUALVERIFY, s) is Some,
    ensures
        exec_op(OpCodes::OP_NUMEQUALVERIFY, over(below, s)) == Some(
            over(below, exec_op(OpCodes::OP_NUMEQUALVERIFY, s)->0),
        ),
{
    let lifted = exec_op(OpCodes::OP_NUMEQUALVERIFY, over(below, s));
    assert(lifted is Some);
    assert(lifted->0.main =~= below + exec_op(OpCodes::OP_NUMEQUALVERIFY, s)->0.main);
}

/// `OP_WITHIN` reads only the items it takes from the top.
proof fn lemma_frame_within(s: StackState, below: Seq<Item>)
    requires
        exec_op(OpCodes::OP_WITHIN, s) is Some,
    ensures
        exec_op(OpCodes::OP_WITHIN, over(below, s)) == Some(
            over(below, exec_op(OpCodes::OP_WITHIN, s)->0),
        ),
{
    let lifted = exec_op(OpCodes::OP_WITHIN, over(below, s));
    assert(lifted is Some);
    assert(lifted->0.main =~= below + exec_op(OpCodes::OP_WITHIN, s)->0.main);
}

/// `OP_SHA3` reads only the items it takes from the top.
proof fn lemma_frame_sha3(s: StackState, below: Seq<Item>)
    requires
        exec_op(OpCodes::OP_SHA3, s) is Some,
    ensures
        exec_op(OpCodes::OP_SHA3, over(below, s)) == Some(
            over(below, exec_op(OpCodes::OP_SHA3, s)->0),
        ),
{
    let lifted = exec_op(OpCodes::OP_SHA3, over(below, s));
    assert(lifted is Some);
    assert(lifted->0.main =~= below + exec_op(OpCodes::OP_SHA3, s)->0.main);
}

/// `OP_HASH256` reads only the items it takes from the top.
proof fn lemma_frame_hash256(s: StackState, below: Seq<Item>)
    requires
        exec_op(OpCodes::OP_HASH256, s) is Some,
    ensures
        exec_op(OpCodes::OP_HASH256, over(below, s)) == Some(
            over(below, exec_op(OpCodes::OP_HASH256, s)->0),
        ),
{
    let lifted = exec_op(OpCodes::OP_HASH256, over(below, s));
    assert(lifted is Some);
    assert(lifted->0.main =~= below + exec_op(OpCodes::OP_HASH256, s)->0.main);
}

/// `OP_HASH256_V0` reads only the items it takes from the top.
proof fn lemma_frame_hash256_v0(s: StackState, below: Seq<Item>)
    requires
        exec_op(OpCodes::OP_HASH256_V0, s) is Some,
    ensures
        exec_op(OpCodes::OP_HASH256_V0, over(below, s)) == Some(
            over(below, exec_op(OpCodes::OP_HASH256_V0, s)->0),
        ),
{
    let lifted = exec_op(OpCodes::OP_HASH256_V0, over(below, s));
    assert(lifted is Some);
    assert(lifted->0.main =~= below + exec_op(OpCodes::OP_HASH256_V0, s)->0.main);
}

/// `OP_HASH256_TEMP` reads only the items it takes from the top.
proof fn lemma_frame_hash256_temp(s: StackState, below: Seq<Item>)
    requires
        exec_op(OpCodes::OP_HASH256_TEMP, s) is Some,
    ensures
        exec_op(OpCodes::OP_HASH256_TEMP, over(below, s)) == Some(
            over(below, exec_op(OpCodes::OP_HASH256_TEMP, s)->0),
        ),
{
    let lifted = exec_op(OpCodes::OP_HASH256_TEMP, over(below, s));
    assert(lifted is Some);
    assert(lifted->0.main =~= below + exec_op(OpCodes::OP_HASH256_TEMP, s)->0.main);
}

/// `OP_CHECKSIG` reads only the items it takes from the top.
proof fn lemma_frame_checksig(s: StackState, below: Seq<Item>)
    requires
        exec_op(OpCodes::OP_CHECKSIG, s) is Some,
    ensures
        exec_op(OpCodes::OP_CHECKSIG, over(below, s)) == Some(
            over(below, exec_op(OpCodes::OP_CHECKSIG, s)->0),
        ),
{
    let lifted = exec_op(OpCodes::OP_CHECKSIG, over(below, s));
    assert(lifted is Some);
    assert(lifted->0.main =~= below + exec_op(OpCodes::OP_CHECKSIG, s)->0.main);
}

/// `OP_CHECKSIGVERIFY` reads only the items it takes from the top.
proof fn lemma_frame_checksigverify(s: StackState, below: Seq<Item>)
    requires
        exec_op(OpCodes::OP_CHECKSIGVERIFY, s) is Some,
    ensures
        exec_op(OpCodes::OP_CHECKSIGVERIFY, over(below, s)) == Some(
            over(below, exec_op(OpCodes::OP_CHECKSIGVERIFY, s)->0),
        ),
{
    let lifted = exec_op(OpCodes::OP_CHECKSIGVERIFY, over(below, s));
    assert(lifted is Some);
    assert(lifted->0.main =~= below + exec_op(OpCodes::OP_CHECKSIGVERIFY, s)->0.main);
}

/// Every opcode but the one that counts the items of the stack reads only the items it
/// takes from the top: with further items under the main stack it succeeds as before,
/// leaves the same items on top, and leaves the further items where they were.
pub proof fn lemma_opcode_reads_top_only(op: OpCodes, s: StackState, below: Seq<Item>)
    requires
        op != OpCodes::OP_DEPTH,
        exec_op(op, s) is Some,
    ensures
        exec_op(op, over(below, s)) == Some(over(below, exec_op(op, s)->0)),
{
    if const_value(op) is Some || is_unary_op(op) || is_binary_op(op) {
        lemma_numeric_reads_top_only(op, s, below);
    } else if is_stack_op(op) {
        lemma_stack_op_reads_top_only(op, s, below);
    } else if is_splice_op(op) {
        lemma_splice_reads_top_only(op, s, below);
    } else {
        match op {
            OpCodes::OP_NOP => lemma_frame_nop(s, below),
            OpCodes::OP_CREATE => lemma_frame_create(s, below),
            OpCodes::OP_VERIFY => lemma_frame_verify(s, below),
            OpCodes::OP_EQUAL => lemma_frame_equal(s, below),
            OpCodes::OP_EQUALVERIFY => lemma_frame_equalverify(s, below),
            OpCodes::OP_NUMEQUALVERIFY => lemma_frame_numequalverify(s, below),
            OpCodes::OP_WITHIN => lemma_frame_within(s, below),
            OpCodes::OP_SHA3 => lemma_frame_sha3(s, below),
            OpCodes::OP_HASH256 => lemma_frame_hash256(s, below),
            OpCodes::OP_HASH256_V0 => lemma_frame_hash256_v0(s, below),
            OpCodes::OP_HASH256_TEMP => lemma_frame_hash256_temp(s, below),
            OpCodes::OP_CHECKSIG => lemma_frame_checksig(s, below),
            OpCodes::OP_CHECKSIGVERIFY => lemma_frame_checksigverify(s, below),
            OpCodes::OP_CHECKMULTISIG => lemma_frame_checkmultisig(s, below),
            OpCodes::OP_CHECKMULTISIGVERIFY => lemma_frame_checkmultisigverify(s, below),
            _ => {},
        }
    }
}

} // verus!

//! Scripts: validity, evaluation, and the templates of the recognised forms.

use vstd::prelude::*;
use crate::addresses::{construct_address_for, spec_address_for};
use crate::constants::{
    ED25519_PUBLIC_KEY_LEN, ED25519_SIGNATURE_LEN, MAX_OPS_PER_SCRIPT, MAX_SCRIPT_SIZE,
    NETWORK_VERSION_TEMP, NETWORK_VERSION_V0, NUM_SIZE,
};
use crate::crypto::{PublicKey, Signature};
use crate::interface_ops::{key_views, run_entry, sig_views};
use crate::machine::{
    initial, interprets, lemma_counts_monotone, lemma_run_stays_failed, machine,
    ops_upto, run, script_valid, size_upto,
};
use crate::opcodes::{items, text_len, Item, OpCodes, StackEntry};
use crate::stacks::{ConditionStack, Stack};

verus! {

/// A script: a sequence of stack entries.
#[derive(Clone, Debug, PartialEq, Eq, PartialOrd)]
pub struct Script {
    pub stack: Vec<StackEntry>,
}

impl View for Script {
    type V = Seq<Item>;

    open spec fn view(&self) -> Seq<Item> {
        items(self.stack@)
    }
}

impl Default for Script {
    fn default() -> (s: Self)
        ensures
            s@.len() == 0,
    {
        Script::new()
    }
}

impl From<Vec<StackEntry>> for Script {
    fn from(entries: Vec<StackEntry>) -> (s: Self)
        ensures
            s@ == items(entries@),
    {
        Script { stack: entries }
    }
}

impl vstd::std_specs::convert::FromSpecImpl<Vec<StackEntry>> for Script {
    open spec fn obeys_from_spec() -> bool {
        true
    }

    open spec fn from_spec(entries: Vec<StackEntry>) -> Self {
        Script { stack: entries }
    }
}

/// The hash opcode that goes with an address version.
pub open spec fn hash_op_for(version: Option<u64>) -> OpCodes {
    if version == Some(NETWORK_VERSION_V0) {
        OpCodes::OP_HASH256_V0
    } else if version == Some(NETWORK_VERSION_TEMP) {
        OpCodes::OP_HASH256_TEMP
    } else {
        OpCodes::OP_HASH256
    }
}

/// The coinbase script of a block.
pub open spec fn coinbase_script(block_number: u64) -> Seq<Item> {
    seq![Item::Num(block_number as usize)]
}

/// The script that creates an asset.
pub open spec fn create_asset_script(
    block_number: u64,
    asset_hash: Seq<char>,
    signature: Seq<u8>,
    pub_key: Seq<u8>,
) -> Seq<Item> {
    seq![
        Item::Op(OpCodes::OP_CREATE),
        Item::Num(block_number as usize),
        Item::Op(OpCodes::OP_DROP),
        Item::Bytes(asset_hash),
        Item::Signature(signature),
        Item::PubKey(pub_key),
        Item::Op(OpCodes::OP_CHECKSIG),
    ]
}

/// The pay-to-public-key-hash script with a given address.
pub open spec fn p2pkh_script_with(
    check_data: Seq<char>,
    signature: Seq<u8>,
    pub_key: Seq<u8>,
    hash_op: OpCodes,
    address: Seq<char>,
) -> Seq<Item> {
    seq![
        Item::Bytes(check_data),
        Item::Signature(signature),
        Item::PubKey(pub_key),
        Item::Op(OpCodes::OP_DUP),
        Item::Op(hash_op),
        Item::PubKeyHash(address),
        Item::Op(OpCodes::OP_EQUALVERIFY),
        Item::Op(OpCodes::OP_CHECKSIG),
    ]
}

/// The pay-to-public-key-hash script for a key, with the key's own address.
pub open spec fn p2pkh_script(
    check_data: Seq<char>,
    signature: Seq<u8>,
    pub_key: Seq<u8>,
    version: Option<u64>,
) -> Seq<Item> {
    p2pkh_script_with(
        check_data,
        signature,
        pub_key,
        hash_op_for(version),
        spec_address_for(pub_key, version),
    )
}

/// The script of one member of a multiparty transaction.
pub open spec fn member_multisig_script(
    check_data: Seq<char>,
    pub_key: Seq<u8>,
    signature: Seq<u8>,
) -> Seq<Item> {
    seq![
        Item::Bytes(check_data),
        Item::Signature(signature),
        Item::PubKey(pub_key),
        Item::Op(OpCodes::OP_CHECKSIG),
    ]
}

/// A run of signature items.
pub open spec fn signature_items(sigs: Seq<Seq<u8>>) -> Seq<Item> {
    sigs.map_values(|s: Seq<u8>| Item::Signature(s))
}

/// A run of public key items.
pub open spec fn key_items(keys: Seq<Seq<u8>>) -> Seq<Item> {
    keys.map_values(|k: Seq<u8>| Item::PubKey(k))
}

/// Whether the counts of an m-of-n multisig fit the keys given.
pub open spec fn multisig_counts_fit(m: usize, n: usize, keys: nat) -> bool {
    m <= n && n <= keys
}

/// What follows the message and the signatures in a multisig script: `m`, the first `n`
/// keys, `n`, and the check.
pub open spec fn multisig_tail(m: usize, n: usize, keys: Seq<Seq<u8>>) -> Seq<Item> {
    seq![Item::Num(m)] + key_items(keys.subrange(0, n as int)) + seq![
        Item::Num(n),
        Item::Op(OpCodes::OP_CHECKMULTISIG),
    ]
}

/// The m-of-n multisig locking script; empty where the counts do not fit.
pub open spec fn multisig_lock_script(
    m: usize,
    n: usize,
    check_data: Seq<char>,
    keys: Seq<Seq<u8>>,
) -> Seq<Item> {
    if multisig_counts_fit(m, n, keys.len()) {
        seq![Item::Bytes(check_data)] + multisig_tail(m, n, keys)
    } else {
        Seq::empty()
    }
}

/// The multisig unlocking script.
pub open spec fn multisig_unlock_script(check_data: Seq<char>, sigs: Seq<Seq<u8>>) -> Seq<Item> {
    seq![Item::Bytes(check_data)] + signature_items(sigs)
}

/// The multisig validation script: the locking script with the signatures in front of
/// the counts; empty where the counts do not fit.
pub open spec fn multisig_validation_script(
    m: usize,
    n: usize,
    check_data: Seq<char>,
    sigs: Seq<Seq<u8>>,
    keys: Seq<Seq<u8>>,
) -> Seq<Item> {
    if multisig_counts_fit(m, n, keys.len()) {
        multisig_unlock_script(check_data, sigs) + multisig_tail(m, n, keys)
    } else {
        Seq::empty()
    }
}

/// Appends one signature entry per signature.
fn push_signatures(stack: &mut Vec<StackEntry>, signatures: &Vec<Signature>)
    ensures
        items(final(stack)@) == items(old(stack)@) + signature_items(sig_views(signatures@)),
{
    let mut i: usize = 0;
    assert(items(stack@) =~= items(old(stack)@) + signature_items(
        sig_views(signatures@).subrange(0, 0),
    ));
    while i < signatures.len()
        invariant
            i <= signatures@.len(),
            items(stack@) == items(old(stack)@) + signature_items(
                sig_views(signatures@).subrange(0, i as int),
            ),
        decreases signatures@.len() - i,
    {
        let ghost before = items(stack@);
        stack.push(StackEntry::Signature(signatures[i]));
        proof {
            let all = sig_views(signatures@);
            assert(items(stack@) =~= before.push(Item::Signature(all[i as int])));
            assert(signature_items(all.subrange(0, i + 1)) =~= signature_items(
                all.subrange(0, i as int),
            ).push(Item::Signature(all[i as int])));
            assert(items(stack@) =~= items(old(stack)@) + signature_items(
                all.subrange(0, i + 1),
            ));
        }
        i += 1;
    }
    assert(sig_views(signatures@).subrange(0, i as int) =~= sig_views(signatures@));
}

/// Appends one public key entry for each of the first `n` keys.
fn push_keys(stack: &mut Vec<StackEntry>, pub_keys: &Vec<PublicKey>, n: usize)
    requires
        n <= pub_keys@.len(),
    ensures
        items(final(stack)@) == items(old(stack)@) + key_items(
            key_views(pub_keys@).subrange(0, n as int),
        ),
{
    let mut i: usize = 0;
    assert(items(stack@) =~= items(old(stack)@) + key_items(
        key_views(pub_keys@).subrange(0, 0),
    ));
    while i < n
        invariant
            i <= n <= pub_keys@.len(),
            items(stack@) == items(old(stack)@) + key_items(
                key_views(pub_keys@).subrange(0, i as int),
            ),
        decreases n - i,
    {
        let ghost before = items(stack@);
        stack.push(StackEntry::PubKey(pub_keys[i]));
        proof {
            let all = key_views(pub_keys@);
            assert(items(stack@) =~= before.push(Item::PubKey(all[i as int])));
            assert(key_items(all.subrange(0, i + 1)) =~= key_items(
                all.subrange(0, i as int),
            ).push(Item::PubKey(all[i as int])));
            assert(items(stack@) =~= items(old(stack)@) + key_items(all.subrange(0, i + 1)));
        }
        i += 1;
    }
}

/// Appends `m`, the first `n` keys, `n` and the multisig check.
fn push_multisig_tail(stack: &mut Vec<StackEntry>, m: usize, n: usize, pub_keys: &Vec<PublicKey>)
    requires
        n <= pub_keys@.len(),
    ensures
        items(final(stack)@) == items(old(stack)@) + multisig_tail(m, n, key_views(pub_keys@)),
{
    stack.push(StackEntry::Num(m));
    let ghost mid = items(stack@);
    assert(mid =~= items(old(stack)@) + seq![Item::Num(m)]);
    push_keys(stack, pub_keys, n);
    let ghost keyed = items(stack@);
    stack.push(StackEntry::Num(n));
    stack.push(StackEntry::Op(OpCodes::OP_CHECKMULTISIG));
    assert(items(stack@) =~= keyed + seq![Item::Num(n), Item::Op(OpCodes::OP_CHECKMULTISIG)]);
    assert(items(stack@) =~= items(old(stack)@) + multisig_tail(m, n, key_views(pub_keys@)));
}

impl Script {
    /// Constructs an empty script.
    pub fn new() -> (s: Self)
        ensures
            s@.len() == 0,
    {
        Script { stack: Vec::new() }
    }

    /// Checks that neither the size of the script nor its number of opcodes is over the
    /// limit.
    pub fn is_valid(&self) -> (r: bool)
        ensures
            r == script_valid(self@),
    {
        let mut len: usize = 0;
        let mut ops_count: usize = 0;
        let mut i: usize = 0;
        while i < self.stack.len()
            invariant
                i <= self.stack@.len(),
                self@.len() == self.stack@.len(),
                len == size_upto(self@, i as nat),
                ops_count == ops_upto(self@, i as nat),
                len <= MAX_SCRIPT_SIZE,
                ops_count <= MAX_OPS_PER_SCRIPT,
            decreases self.stack@.len() - i,
        {
            let size: usize = match &self.stack[i] {
                StackEntry::Op(_) => {
                    ops_count += 1;
                    1
                },
                StackEntry::Signature(_) => ED25519_SIGNATURE_LEN,
                StackEntry::PubKey(_) => ED25519_PUBLIC_KEY_LEN,
                StackEntry::PubKeyHash(s) => text_len(s),
                StackEntry::Bytes(s) => text_len(s),
                StackEntry::Num(_) => NUM_SIZE,
            };
            assert(self@[i as int] == self.stack@[i as int]@);
            if size > MAX_SCRIPT_SIZE as usize - len || ops_count > MAX_OPS_PER_SCRIPT as usize {
                proof {
                    lemma_counts_monotone(self@, (i + 1) as nat, self@.len());
                }
                return false;
            }
            len += size;
            i += 1;
        }
        true
    }

    /// Interprets the script: true if it is valid and, unless it is empty, every entry
    /// succeeds, no condition is left open, and the top of the main stack exists and is
    /// not the number zero.
    pub fn interpret(&self) -> (r: bool)
        ensures
            r == interprets(self@),
    {
        if !self.is_valid() {
            return false;
        }
        if self.stack.len() == 0 {
            return true;
        }
        let mut stack = Stack::new();
        let mut cond_stack = ConditionStack::new();
        let mut i: usize = 0;
        proof {
            assert(stack@.main =~= initial().stack.main);
            assert(stack@.alt =~= initial().stack.alt);
        }
        while i < self.stack.len()
            invariant
                i <= self.stack@.len(),
                self@.len() == self.stack@.len(),
                run(self@, i as nat) == Some(machine(stack@, cond_stack@)),
            decreases self.stack@.len() - i,
        {
            assert(self@[i as int] == self.stack@[i as int]@);
            if !run_entry(&self.stack[i], &mut stack, &mut cond_stack) {
                proof {
                    lemma_run_stays_failed(self@, (i + 1) as nat, self@.len());
                }
                return false;
            }
            i += 1;
        }
        if !cond_stack.is_empty() {
            return false;
        }
        match stack.last() {
            Some(top) => !top.same_as(&StackEntry::Num(0)),
            None => false,
        }
    }

    /// Constructs the coinbase script of a block.
    pub fn new_for_coinbase(block_number: u64) -> (s: Self)
        ensures
            s@ == coinbase_script(block_number),
    {
        let mut stack: Vec<StackEntry> = Vec::new();
        stack.push(StackEntry::Num(block_number as usize));
        assert(items(stack@) =~= coinbase_script(block_number));
        Script { stack }
    }

    /// Constructs the script that creates an asset.
    pub fn new_create_asset(
        block_number: u64,
        asset_hash: String,
        signature: Signature,
        pub_key: PublicKey,
    ) -> (s: Self)
        ensures
            s@ == create_asset_script(block_number, asset_hash@, signature@, pub_key@),
    {
        let mut stack: Vec<StackEntry> = Vec::new();
        stack.push(StackEntry::Op(OpCodes::OP_CREATE));
        stack.push(StackEntry::Num(block_number as usize));
        stack.push(StackEntry::Op(OpCodes::OP_DROP));
        stack.push(StackEntry::Bytes(asset_hash));
        stack.push(StackEntry::Signature(signature));
        stack.push(StackEntry::PubKey(pub_key));
        stack.push(StackEntry::Op(OpCodes::OP_CHECKSIG));
        assert(items(stack@) =~= create_asset_script(
            block_number,
            asset_hash@,
            signature@,
            pub_key@,
        ));
        Script { stack }
    }

    /// Constructs a pay-to-public-key-hash script for the address of `pub_key` in the
    /// encoding that `address_version` selects.
    pub fn pay2pkh(
        check_data: String,
        signature: Signature,
        pub_key: PublicKey,
        address_version: Option<u64>,
    ) -> (s: Self)
        ensures
            s@ == p2pkh_script(check_data@, signature@, pub_key@, address_version),
    {
        let address = construct_address_for(&pub_key, address_version);
        let hash_op = match address_version {
            Some(v) => {
                if v == NETWORK_VERSION_V0 {
                    OpCodes::OP_HASH256_V0
                } else if v == NETWORK_VERSION_TEMP {
                    OpCodes::OP_HASH256_TEMP
                } else {
                    OpCodes::OP_HASH256
                }
            },
            None => OpCodes::OP_HASH256,
        };
        let mut stack: Vec<StackEntry> = Vec::new();
        stack.push(StackEntry::Bytes(check_data));
        stack.push(StackEntry::Signature(signature));
        stack.push(StackEntry::PubKey(pub_key));
        stack.push(StackEntry::Op(OpCodes::OP_DUP));
        stack.push(StackEntry::Op(hash_op));
        stack.push(StackEntry::PubKeyHash(address));
        stack.push(StackEntry::Op(OpCodes::OP_EQUALVERIFY));
        stack.push(StackEntry::Op(OpCodes::OP_CHECKSIG));
        assert(items(stack@) =~= p2pkh_script(
            check_data@,
            signature@,
            pub_key@,
            address_version,
        ));
        Script { stack }
    }

    /// Constructs the script of one member of a multiparty transaction.
    pub fn member_multisig(check_data: String, pub_key: PublicKey, signature: Signature) -> (s:
        Self)
        ensures
            s@ == member_multisig_script(check_data@, pub_key@, signature@),
    {
        let mut stack: Vec<StackEntry> = Vec::new();
        stack.push(StackEntry::Bytes(check_data));
        stack.push(StackEntry::Signature(signature));
        stack.push(StackEntry::PubKey(pub_key));
        stack.push(StackEntry::Op(OpCodes::OP_CHECKSIG));
        assert(items(stack@) =~= member_multisig_script(check_data@, pub_key@, signature@));
        Script { stack }
    }

    /// Constructs an m-of-n multisig locking script over the first `n` of the keys; the
    /// empty script where `m > n` or fewer than `n` keys are given.
    pub fn multisig_lock(m: usize, n: usize, check_data: String, pub_keys: Vec<PublicKey>) -> (s:
        Self)
        ensures
            s@ == multisig_lock_script(m, n, check_data@, key_views(pub_keys@)),
    {
        let mut stack: Vec<StackEntry> = Vec::new();
        if n > pub_keys.len() || m > n {
            assert(items(stack@) =~= Seq::<Item>::empty());
            return Script { stack };
        }
        stack.push(StackEntry::Bytes(check_data));
        assert(items(stack@) =~= seq![Item::Bytes(check_data@)]);
        push_multisig_tail(&mut stack, m, n, &pub_keys);
        Script { stack }
    }

    /// Constructs a multisig unlocking script.
    pub fn multisig_unlock(check_data: String, signatures: Vec<Signature>) -> (s: Self)
        ensures
            s@ == multisig_unlock_script(check_data@, sig_views(signatures@)),
    {
        let mut stack: Vec<StackEntry> = Vec::new();
        stack.push(StackEntry::Bytes(check_data));
        assert(items(stack@) =~= seq![Item::Bytes(check_data@)]);
        push_signatures(&mut stack, &signatures);
        Script { stack }
    }

    /// Constructs a multisig validation script: message, signatures, then the counts and
    /// the first `n` keys; the empty script where `m > n` or fewer than `n` keys are given.
    pub fn multisig_validation(
        m: usize,
        n: usize,
        check_data: String,
        signatures: Vec<Signature>,
        pub_keys: Vec<PublicKey>,
    ) -> (s: Self)
        ensures
            s@ == multisig_validation_script(
                m,
                n,
                check_data@,
                sig_views(signatures@),
                key_views(pub_keys@),
            ),
    {
        let mut stack: Vec<StackEntry> = Vec::new();
        if n > pub_keys.len() || m > n {
            assert(items(stack@) =~= Seq::<Item>::empty());
            return Script { stack };
        }
        stack.push(StackEntry::Bytes(check_data));
        assert(items(stack@) =~= seq![Item::Bytes(check_data@)]);
        push_signatures(&mut stack, &signatures);
        push_multisig_tail(&mut stack, m, n, &pub_keys);
        Script { stack }
    }
}

} // verus!

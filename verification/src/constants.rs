//! Limits and sentinel values of the script engine.

use vstd::prelude::*;

verus! {

/// Largest serialized size of a script, in bytes.
pub const MAX_SCRIPT_SIZE: u16 = 10000;

/// Largest number of opcodes in a script.
pub const MAX_OPS_PER_SCRIPT: u8 = 201;

/// Largest number of entries on the main and alternative stacks together.
pub const MAX_STACK_SIZE: u16 = 1000;

/// Largest size of a data item on the stack, in bytes.
pub const MAX_SCRIPT_ITEM_SIZE: u16 = 520;

/// Largest number of public keys in a multisig check.
pub const MAX_PUB_KEYS_PER_MULTISIG: u8 = 20;

/// Largest size of the metadata of a receipt, in bytes.
pub const MAX_METADATA_BYTES: usize = 800;

/// Address version selecting the first legacy address encoding.
pub const NETWORK_VERSION_V0: u64 = 0;

/// Address version selecting the temporary legacy address encoding.
pub const NETWORK_VERSION_TEMP: u64 = 99999;

/// Number of bytes kept from the digest in a first-legacy address.
pub const V0_ADDRESS_LENGTH: usize = 16;

/// Length of a public key in bytes.
pub const ED25519_PUBLIC_KEY_LEN: usize = 32;

/// Length of a signature in bytes.
pub const ED25519_SIGNATURE_LEN: usize = 64;

/// Number of bytes a number contributes to the size of a script.
pub const NUM_SIZE: usize = 8;

/// The number zero.
pub const ZERO: usize = 0;

/// The number one.
pub const ONE: usize = 1;

} // verus!

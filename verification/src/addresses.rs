//! Addresses derived from public keys, in the current and the two legacy encodings.

use vstd::prelude::*;
use vstd::bytes::{spec_u64_to_le_bytes, u64_to_le_bytes};
use vstd::utf8::encode_utf8;
use crate::constants::{NETWORK_VERSION_TEMP, NETWORK_VERSION_V0, V0_ADDRESS_LENGTH};
use crate::crypto::{digest, digest_of, hex_chars, hex_encode, PublicKey};
use crate::laws::lemma_hex_text_size;
use crate::opcodes::text_size;

verus! {

/// A byte string behind its length as eight little-endian bytes.
pub open spec fn length_prefixed(data: Seq<u8>) -> Seq<u8> {
    spec_u64_to_le_bytes(data.len() as u64) + data
}

/// The current address of a key: the hexadecimal text of the digest of the key.
pub open spec fn spec_address(pk: Seq<u8>) -> Seq<char> {
    hex_chars(digest_of(pk))
}

/// The first legacy address: the digest of the length-prefixed key, cut to sixteen bytes.
pub open spec fn spec_address_v0(pk: Seq<u8>) -> Seq<char> {
    hex_chars(digest_of(length_prefixed(pk)).subrange(0, V0_ADDRESS_LENGTH as int))
}

/// The temporary legacy address: the digest of the key's hexadecimal text.
pub open spec fn spec_address_temp(pk: Seq<u8>) -> Seq<char> {
    hex_chars(digest_of(encode_utf8(hex_chars(pk))))
}

/// The address of a key in the encoding that `version` selects.
pub open spec fn spec_address_for(pk: Seq<u8>, version: Option<u64>) -> Seq<char> {
    if version == Some(NETWORK_VERSION_V0) {
        spec_address_v0(pk)
    } else if version == Some(NETWORK_VERSION_TEMP) {
        spec_address_temp(pk)
    } else {
        spec_address(pk)
    }
}

/// Appends the bytes of `src` to `dst`.
pub fn append_bytes(dst: &mut Vec<u8>, src: &[u8])
    ensures
        final(dst)@ == old(dst)@ + src@,
{
    let mut i: usize = 0;
    while i < src.len()
        invariant
            i <= src@.len(),
            dst@ == old(dst)@ + src@.subrange(0, i as int),
        decreases src@.len() - i,
    {
        dst.push(src[i]);
        assert(dst@ =~= old(dst)@ + src@.subrange(0, i + 1));
        i += 1;
    }
    assert(src@.subrange(0, i as int) =~= src@);
}

/// The first `n` bytes of `data`.
pub fn prefix_bytes(data: &[u8], n: usize) -> (r: Vec<u8>)
    requires
        n <= data@.len(),
    ensures
        r@ == data@.subrange(0, n as int),
{
    let mut r: Vec<u8> = Vec::new();
    let mut i: usize = 0;
    while i < n
        invariant
            i <= n <= data@.len(),
            r@ == data@.subrange(0, i as int),
        decreases n - i,
    {
        r.push(data[i]);
        assert(r@ =~= data@.subrange(0, i + 1));
        i += 1;
    }
    r
}

/// Builds the current address of a public key.
pub fn construct_address(pub_key: &PublicKey) -> (addr: String)
    ensures
        addr@ == spec_address(pub_key@),
        text_size(addr@) == 64,
{
    let hash = digest(pub_key.bytes.as_slice());
    proof {
        lemma_hex_text_size(hash@);
    }
    hex_encode(hash.as_slice())
}

/// Builds the first legacy address of a public key.
pub fn construct_address_v0(pub_key: &PublicKey) -> (addr: String)
    ensures
        addr@ == spec_address_v0(pub_key@),
        text_size(addr@) == 32,
{
    let mut framed = u64_to_le_bytes(32);
    append_bytes(&mut framed, pub_key.bytes.as_slice());
    let hash = digest(framed.as_slice());
    let cut = prefix_bytes(hash.as_slice(), V0_ADDRESS_LENGTH);
    proof {
        lemma_hex_text_size(cut@);
    }
    hex_encode(cut.as_slice())
}

/// Builds the temporary legacy address of a public key.
pub fn construct_address_temp(pub_key: &PublicKey) -> (addr: String)
    ensures
        addr@ == spec_address_temp(pub_key@),
        text_size(addr@) == 64,
{
    let text = hex_encode(pub_key.bytes.as_slice());
    let hash = digest(text.as_str().as_bytes());
    proof {
        lemma_hex_text_size(hash@);
    }
    hex_encode(hash.as_slice())
}

/// Builds the address of a public key in the encoding that `address_version` selects.
pub fn construct_address_for(pub_key: &PublicKey, address_version: Option<u64>) -> (addr: String)
    ensures
        addr@ == spec_address_for(pub_key@, address_version),
        text_size(addr@) == 32 || text_size(addr@) == 64,
{
    match address_version {
        Some(v) => {
            if v == NETWORK_VERSION_V0 {
                construct_address_v0(pub_key)
            } else if v == NETWORK_VERSION_TEMP {
                construct_address_temp(pub_key)
            } else {
                construct_address(pub_key)
            }
        },
        None => construct_address(pub_key),
    }
}

} // verus!

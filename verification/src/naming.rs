//! The selectors that resources are known by on chain.
use vstd::prelude::*;

use crate::byte_array::{text_felts, ByteArray};
use crate::felt::Felt;

verus! {

/// The Poseidon hash of field elements, as `starknet_crypto::poseidon_hash_many` computes it.
pub uninterp spec fn poseidon_hash(felts: Seq<Felt>) -> Felt;

/// Calls `starknet_crypto::poseidon_hash_many`. Its result depends on the elements alone;
/// which element it is for given elements is not stated.
#[verifier::external_body]
fn poseidon_hash_many(felts: &Vec<Felt>) -> (r: Felt)
    ensures
        r == poseidon_hash(felts@),
{
    let outside: Vec<starknet_crypto::Felt> = felts.iter().map(|f| {
        let halves = [f.high.to_be_bytes(), f.low.to_be_bytes()];
        starknet_crypto::Felt::from_bytes_be_slice(&halves.concat())
    }).collect();
    let bytes = starknet_crypto::poseidon_hash_many(&outside).to_bytes_be();
    Felt {
        high: u128::from_be_bytes(bytes[..16].try_into().unwrap()),
        low: u128::from_be_bytes(bytes[16..].try_into().unwrap()),
    }
}

/// The hash of a text: of the field elements that it is written as on chain.
pub open spec fn bytearray_hash(text: Seq<char>) -> Felt {
    poseidon_hash(text_felts(text))
}

/// The selector of a resource in a namespace, from the hashes of the two names.
pub open spec fn selector_from_hashes(namespace_hash: Felt, name_hash: Felt) -> Felt {
    poseidon_hash(seq![namespace_hash, name_hash])
}

/// The selector of a resource in a namespace.
pub open spec fn selector_from_names(namespace: Seq<char>, name: Seq<char>) -> Felt {
    selector_from_hashes(bytearray_hash(namespace), bytearray_hash(name))
}

/// Computes the hash of a text. A namespace is known by the hash of its name.
pub fn compute_bytearray_hash(value: &str) -> (r: Felt)
    ensures
        r == bytearray_hash(value@),
{
    poseidon_hash_many(&ByteArray::from_string(value).to_felts())
}

/// Computes the selector of a resource from the hashes of its namespace and of its name.
pub fn compute_selector_from_hashes(namespace_hash: Felt, name_hash: Felt) -> (r: Felt)
    ensures
        r == selector_from_hashes(namespace_hash, name_hash),
{
    let mut hashes: Vec<Felt> = Vec::new();
    hashes.push(namespace_hash);
    hashes.push(name_hash);
    assert(hashes@ =~= seq![namespace_hash, name_hash]);
    poseidon_hash_many(&hashes)
}

/// Computes the selector of a resource from its namespace and its name.
pub fn compute_selector_from_names(namespace: &str, name: &str) -> (r: Felt)
    ensures
        r == selector_from_names(namespace@, name@),
{
    compute_selector_from_hashes(compute_bytearray_hash(namespace), compute_bytearray_hash(name))
}

} // verus!

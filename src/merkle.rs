//! Leaf encoding and inclusion-path verification against a committed root.

use vstd::prelude::*;
use crate::bytes::{Pubkey, Digest, le_bytes, twos_complement_32, push_u64_le, push_u32_le, push_i32_le};

verus! {

/// The Keccak-256 digest of a byte string.
pub uninterp spec fn keccak_of(data: Seq<u8>) -> Seq<u8>;

/// Relies on `solana_program::keccak::hashv` over a single slice: its result
/// is the Keccak-256 digest of those bytes, which depends on them alone.
#[verifier::external_body]
fn keccak_hash(data: &[u8]) -> (r: Digest)
    ensures
        r@ == keccak_of(data@),
{
    anchor_lang::solana_program::keccak::hashv(&[data]).0
}

/// The bytes of a leaf: owner, cycle index, delta and slot index, each in a
/// fixed little-endian encoding, in that order.
pub open spec fn leaf_bytes(owner: Seq<u8>, cycle_index: u64, delta_points: i32, leaf_index: u32) -> Seq<u8> {
    owner + le_bytes(cycle_index as nat, 8) + le_bytes(twos_complement_32(delta_points), 4)
        + le_bytes(leaf_index as nat, 4)
}

/// The digest of a leaf.
pub open spec fn leaf_digest(owner: Seq<u8>, cycle_index: u64, delta_points: i32, leaf_index: u32) -> Seq<u8> {
    keccak_of(leaf_bytes(owner, cycle_index, delta_points, leaf_index))
}

/// The root reached from `node` by walking `path`: at each level the low bit
/// of `idx` says whether the sibling stands on the left (1) or on the right (0).
pub open spec fn root_from(node: Seq<u8>, path: Seq<Digest>, idx: nat) -> Seq<u8>
    decreases path.len(),
{
    if path.len() == 0 {
        node
    } else {
        let parent = if idx % 2 == 1 {
            keccak_of(path[0]@ + node)
        } else {
            keccak_of(node + path[0]@)
        };
        root_from(parent, path.drop_first(), idx / 2)
    }
}

/// Encodes a leaf as `owner || cycle_index || delta_points || leaf_index`.
pub fn serialize_leaf(owner: &Pubkey, cycle_index: u64, delta_points: i32, leaf_index: u32) -> (r: Vec<u8>)
    ensures
        r@ == leaf_bytes(owner@, cycle_index, delta_points, leaf_index),
{
    let mut v: Vec<u8> = Vec::with_capacity(48);
    let mut i: usize = 0;
    while i < 32
        invariant
            i <= 32,
            owner@.len() == 32,
            v@ == owner@.subrange(0, i as int),
        decreases 32 - i,
    {
        v.push(owner[i]);
        i = i + 1;
        assert(v@ =~= owner@.subrange(0, i as int));
    }
    assert(v@ =~= owner@);
    push_u64_le(&mut v, cycle_index);
    push_i32_le(&mut v, delta_points);
    push_u32_le(&mut v, leaf_index);
    v
}

/// The digest of a leaf, as committed under a cycle's root.
pub fn leaf_hash(owner: &Pubkey, cycle_index: u64, delta_points: i32, leaf_index: u32) -> (r: Digest)
    ensures
        r@ == leaf_digest(owner@, cycle_index, delta_points, leaf_index),
{
    let bytes = serialize_leaf(owner, cycle_index, delta_points, leaf_index);
    keccak_hash(bytes.as_slice())
}

/// The 64 bytes of `left` followed by `right`.
fn join_digests(left: &Digest, right: &Digest) -> (r: Vec<u8>)
    ensures
        r@ == left@ + right@,
{
    let mut v: Vec<u8> = Vec::with_capacity(64);
    let mut i: usize = 0;
    while i < 32
        invariant
            i <= 32,
            left@.len() == 32,
            v@ == left@.subrange(0, i as int),
        decreases 32 - i,
    {
        v.push(left[i]);
        i = i + 1;
        assert(v@ =~= left@.subrange(0, i as int));
    }
    let mut j: usize = 0;
    while j < 32
        invariant
            j <= 32,
            left@.len() == 32,
            right@.len() == 32,
            v@ == left@ + right@.subrange(0, j as int),
        decreases 32 - j,
    {
        v.push(right[j]);
        j = j + 1;
        assert(v@ =~= left@ + right@.subrange(0, j as int));
    }
    assert(right@.subrange(0, 32) =~= right@);
    v
}

/// Walks an inclusion path from a leaf digest, choosing each sibling's side
/// by the successive low bits of `leaf_index`.
pub fn compute_merkle_root(leaf: Digest, proof: &Vec<Digest>, leaf_index: u32) -> (r: Digest)
    ensures
        r@ == root_from(leaf@, proof@, leaf_index as nat),
{
    let mut idx: u32 = leaf_index;
    let mut hash: Digest = leaf;
    let mut i: usize = 0;
    assert(proof@.subrange(0, proof@.len() as int) =~= proof@);
    while i < proof.len()
        invariant
            i <= proof@.len(),
            root_from(hash@, proof@.subrange(i as int, proof@.len() as int), idx as nat)
                == root_from(leaf@, proof@, leaf_index as nat),
        decreases proof@.len() - i,
    {
        let ghost rest = proof@.subrange(i as int, proof@.len() as int);
        let sibling = &proof[i];
        let combined = if idx % 2 == 1 {
            join_digests(sibling, &hash)
        } else {
            join_digests(&hash, sibling)
        };
        hash = keccak_hash(combined.as_slice());
        idx = idx / 2;
        i = i + 1;
        assert(rest.drop_first() =~= proof@.subrange(i as int, proof@.len() as int));
    }
    assert(proof@.subrange(i as int, proof@.len() as int) =~= Seq::<Digest>::empty());
    hash
}

} // verus!

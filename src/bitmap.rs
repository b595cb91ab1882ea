//! The per-cycle replay guard: one bit per claim slot.

use vstd::prelude::*;
use crate::error::ErrorCode;

verus! {

/// Whether slot `index` is marked in `bitmap`. A slot beyond the bitmap's
/// end reads as unmarked.
pub open spec fn slot_marked(bitmap: Seq<u8>, index: nat) -> bool {
    index / 8 < bitmap.len() && bitmap[(index / 8) as int] & (1u8 << ((index % 8) as u8)) != 0
}

/// `bitmap` with slot `index`'s bit set; the slot's byte must exist.
pub open spec fn mark_slot(bitmap: Seq<u8>, index: nat) -> Seq<u8> {
    bitmap.update(
        (index / 8) as int,
        bitmap[(index / 8) as int] | (1u8 << ((index % 8) as u8)),
    )
}

proof fn lemma_or_bit(b: u8, k: u8, m: u8)
    requires
        k < 8,
        m < 8,
    ensures
        ((b | (1u8 << k)) & (1u8 << m) != 0) == (k == m || b & (1u8 << m) != 0),
{
    assert(((b | (1u8 << k)) & (1u8 << m) != 0) == (k == m || b & (1u8 << m) != 0))
        by (bit_vector)
        requires
            k < 8,
            m < 8,
    ;
}

/// Marking a slot marks that slot and leaves every other slot as it was.
pub proof fn lemma_mark_slot(bitmap: Seq<u8>, index: nat, other: nat)
    requires
        index / 8 < bitmap.len(),
    ensures
        mark_slot(bitmap, index).len() == bitmap.len(),
        slot_marked(mark_slot(bitmap, index), other) == (other == index || slot_marked(bitmap, other)),
{
    if other / 8 == index / 8 {
        lemma_or_bit(bitmap[(index / 8) as int], (index % 8) as u8, (other % 8) as u8);
        assert((other % 8 == index % 8) ==> other == index);
    }
}

/// Whether slot `index` has been claimed.
pub fn is_claimed(bitmap: &Vec<u8>, index: u32) -> (r: bool)
    ensures
        r == slot_marked(bitmap@, index as nat),
{
    let byte_index = (index / 8) as usize;
    let bit_index = (index % 8) as u8;
    if byte_index >= bitmap.len() {
        return false;
    }
    (bitmap[byte_index] & (1u8 << bit_index)) != 0
}

/// Marks slot `index` as claimed. A slot beyond the bitmap cannot be marked
/// and is reported as an invalid proof.
pub fn set_claimed(bitmap: &mut Vec<u8>, index: u32) -> (r: Result<(), ErrorCode>)
    ensures
        ((index / 8) as int) >= old(bitmap)@.len() ==> r == Err::<(), ErrorCode>(ErrorCode::InvalidMerkleProof)
            && final(bitmap)@ == old(bitmap)@,
        ((index / 8) as int) < old(bitmap)@.len() ==> r is Ok && final(bitmap)@ == mark_slot(old(bitmap)@, index as nat),
{
    let byte_index = (index / 8) as usize;
    let bit_index = (index % 8) as u8;
    if byte_index >= bitmap.len() {
        return Err(ErrorCode::InvalidMerkleProof);
    }
    let b = bitmap[byte_index] | (1u8 << bit_index);
    bitmap.set(byte_index, b);
    Ok(())
}

} // verus!

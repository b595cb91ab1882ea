//! Account identities and the fixed little-endian encodings used in leaves
//! and record keys.

use vstd::prelude::*;

verus! {

/// A 32-byte account identity.
pub type Pubkey = [u8; 32];

/// A 32-byte digest.
pub type Digest = [u8; 32];

/// The `n` low-order bytes of `x`, least significant first.
pub open spec fn le_bytes(x: nat, n: nat) -> Seq<u8>
    decreases n,
{
    if n == 0 {
        Seq::empty()
    } else {
        seq![(x % 256) as u8] + le_bytes(x / 256, (n - 1) as nat)
    }
}

/// An encoding of `n` bytes is `n` bytes long.
pub proof fn lemma_le_bytes_len(x: nat, n: nat)
    ensures
        le_bytes(x, n).len() == n,
    decreases n,
{
    if n > 0 {
        lemma_le_bytes_len(x / 256, (n - 1) as nat);
    }
}

/// The two's-complement value of a 32-bit signed integer, as an unsigned number.
pub open spec fn twos_complement_32(v: i32) -> nat {
    if v >= 0 {
        v as nat
    } else {
        (v + 0x1_0000_0000int) as nat
    }
}

/// Whether an identity is the all-zero identity that marks an unset owner.
pub open spec fn is_unset(k: Seq<u8>) -> bool {
    forall|i: int| 0 <= i < k.len() ==> k[i] == 0
}

/// Compares two identities byte by byte.
pub fn keys_eq(a: &Pubkey, b: &Pubkey) -> (r: bool)
    ensures
        r == (a@ == b@),
{
    let mut i: usize = 0;
    while i < 32
        invariant
            i <= 32,
            a@.len() == 32,
            b@.len() == 32,
            forall|j: int| 0 <= j < i ==> a@[j] == b@[j],
        decreases 32 - i,
    {
        if a[i] != b[i] {
            return false;
        }
        i = i + 1;
    }
    assert(a@ =~= b@);
    true
}

/// Whether an identity is all zeros, the value of a record never written.
pub fn key_is_unset(k: &Pubkey) -> (r: bool)
    ensures
        r == is_unset(k@),
{
    let mut i: usize = 0;
    while i < 32
        invariant
            i <= 32,
            k@.len() == 32,
            forall|j: int| 0 <= j < i ==> k@[j] == 0,
        decreases 32 - i,
    {
        if k[i] != 0 {
            return false;
        }
        i = i + 1;
    }
    true
}

/// Appends the `n` low-order bytes of `x` to `out`, least significant first.
fn push_le(out: &mut Vec<u8>, x: u64, n: usize)
    requires
        n <= 8,
    ensures
        final(out)@ == old(out)@ + le_bytes(x as nat, n as nat),
{
    let mut v: u64 = x;
    let mut i: usize = 0;
    while i < n
        invariant
            i <= n,
            out@ + le_bytes(v as nat, (n - i) as nat) == old(out)@ + le_bytes(x as nat, n as nat),
        decreases n - i,
    {
        let ghost before = out@;
        out.push((v % 256) as u8);
        assert(le_bytes(v as nat, (n - i) as nat) == seq![(v % 256) as u8] + le_bytes(
            (v / 256) as nat,
            (n - i - 1) as nat,
        ));
        assert(out@ + le_bytes((v / 256) as nat, (n - i - 1) as nat) =~= before + le_bytes(
            v as nat,
            (n - i) as nat,
        ));
        v = v / 256;
        i = i + 1;
    }
    assert(le_bytes(v as nat, 0) =~= Seq::<u8>::empty());
    assert(out@ =~= out@ + le_bytes(v as nat, 0));
}

/// Appends the little-endian encoding of a `u64`.
pub fn push_u64_le(out: &mut Vec<u8>, x: u64)
    ensures
        final(out)@ == old(out)@ + le_bytes(x as nat, 8),
{
    push_le(out, x, 8);
}

/// Appends the little-endian encoding of a `u32`.
pub fn push_u32_le(out: &mut Vec<u8>, x: u32)
    ensures
        final(out)@ == old(out)@ + le_bytes(x as nat, 4),
{
    push_le(out, x as u64, 4);
}

/// Appends the little-endian two's-complement encoding of an `i32`.
pub fn push_i32_le(out: &mut Vec<u8>, x: i32)
    ensures
        final(out)@ == old(out)@ + le_bytes(twos_complement_32(x), 4),
{
    let u: u64 = if x >= 0 {
        x as u64
    } else {
        (x as i64 + 0x1_0000_0000i64) as u64
    };
    push_le(out, u, 4);
}

/// The little-endian bytes of a cycle index, as used in the cycle record's key.
pub fn cycle_index_le(idx: &u64) -> (r: [u8; 8])
    ensures
        r@ == le_bytes(*idx as nat, 8),
{
    let mut v: Vec<u8> = Vec::new();
    push_u64_le(&mut v, *idx);
    proof {
        lemma_le_bytes_len(*idx as nat, 8);
    }
    let r: [u8; 8] = [v[0], v[1], v[2], v[3], v[4], v[5], v[6], v[7]];
    assert(r@ =~= v@);
    r
}

} // verus!

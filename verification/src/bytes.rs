//! The value of a fixed-width big-endian byte string, and the facts about it
//! that field-element parsing and encoding need.

use vstd::prelude::*;

verus! {

/// The natural number that a big-endian byte string denotes.
pub open spec fn be_val(s: Seq<u8>) -> nat
    decreases s.len(),
{
    if s.len() == 0 {
        0
    } else {
        (be_val(s.drop_last()) * 256 + s.last()) as nat
    }
}

/// 256^w: one more than the largest value a w-byte string can denote.
pub open spec fn pow256(w: nat) -> nat
    decreases w,
{
    if w == 0 {
        1
    } else {
        256 * pow256((w - 1) as nat)
    }
}

/// The big-endian byte string of width w denoting v (v taken modulo 256^w).
pub open spec fn be_bytes(v: nat, w: nat) -> Seq<u8>
    decreases w,
{
    if w == 0 {
        Seq::empty()
    } else {
        be_bytes(v / 256, (w - 1) as nat).push((v % 256) as u8)
    }
}

pub proof fn lemma_pow256_pos(w: nat)
    ensures
        pow256(w) >= 1,
    decreases w,
{
    if w > 0 {
        lemma_pow256_pos((w - 1) as nat);
    }
}

pub proof fn lemma_pow256_mono(i: nat, j: nat)
    requires
        i <= j,
    ensures
        pow256(i) <= pow256(j),
    decreases j,
{
    if i < j {
        lemma_pow256_mono(i, (j - 1) as nat);
        lemma_pow256_pos((j - 1) as nat);
    }
}

/// Appending one byte shifts the denoted value up by one base-256 digit.
pub proof fn lemma_be_val_push(s: Seq<u8>, x: u8)
    ensures
        be_val(s.push(x)) == be_val(s) * 256 + x,
{
    assert(s.push(x).drop_last() =~= s);
    assert(s.push(x).last() == x);
}

/// be_bytes always has the requested width.
pub proof fn lemma_be_bytes_len(v: nat, w: nat)
    ensures
        be_bytes(v, w).len() == w,
    decreases w,
{
    if w > 0 {
        lemma_be_bytes_len(v / 256, (w - 1) as nat);
    }
}

/// Encoding and then reading back a value below 256^w is the identity.
pub proof fn lemma_be_val_of_be_bytes(v: nat, w: nat)
    requires
        v < pow256(w),
    ensures
        be_val(be_bytes(v, w)) == v,
    decreases w,
{
    if w == 0 {
    } else {
        assert(v / 256 < pow256((w - 1) as nat)) by (nonlinear_arith)
            requires
                v < 256 * pow256((w - 1) as nat),
        ;
        lemma_be_val_of_be_bytes(v / 256, (w - 1) as nat);
        lemma_be_val_push(be_bytes(v / 256, (w - 1) as nat), (v % 256) as u8);
        assert((v / 256) * 256 + (v % 256) == v) by (nonlinear_arith);
    }
}

} // verus!

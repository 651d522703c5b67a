//! A verified instance of the curve capability set, over a prime field whose
//! modulus fits one 64-bit word.
//!
//! Field elements are canonical residues held as `u64`, encoded big-endian
//! in a fixed number of bytes chosen with the modulus. Full-size named
//! curves bring their own field-arithmetic engines from outside; this
//! instance gives the decoder one implementation that is verified end to
//! end, and gives its laws a curve they concretely hold on.

use vstd::prelude::*;

use crate::bytes::{
    be_bytes, be_val, lemma_be_bytes_len, lemma_be_val_of_be_bytes, lemma_be_val_push,
    lemma_pow256_mono, pow256,
};
use crate::ops::{on_curve, CurveOperations};
use crate::public_key::{
    lemma_parse_accepts_valid, spec_parse_uncompressed_point, UNCOMPRESSED_TAG,
};

verus! {

/// The constants of one short Weierstrass curve y^2 = x^3 + a*x + b over
/// the field of integers modulo a one-word prime, with the byte width its
/// field elements are encoded in.
pub struct PrimeCurve64 {
    /// The field's prime modulus.
    pub p: u64,
    /// The curve constant a, a canonical residue.
    pub a: u64,
    /// The curve constant b, a canonical residue.
    pub b: u64,
    /// The byte width of one encoded field element.
    pub width: usize,
}

proof fn lemma_pow256_values()
    ensures
        pow256(7) == 0x100_0000_0000_0000,
        pow256(8) == 0x1_0000_0000_0000_0000,
{
    assert(pow256(0) == 1);
    assert(pow256(1) == 256);
    assert(pow256(2) == 0x1_0000);
    assert(pow256(3) == 0x100_0000);
    assert(pow256(4) == 0x1_0000_0000);
    assert(pow256(5) == 0x100_0000_0000);
    assert(pow256(6) == 0x1_0000_0000_0000);
    assert(pow256(7) == 0x100_0000_0000_0000);
    assert(pow256(8) == 0x1_0000_0000_0000_0000);
}

/// x * y mod m, through one double-width intermediate.
fn mul_mod(x: u64, y: u64, m: u64) -> (r: u64)
    requires
        1 <= m,
    ensures
        r == (x as int * y as int) % (m as int),
        r < m,
{
    proof {
        assert(x as int * y as int <= 0xffff_ffff_ffff_ffff * 0xffff_ffff_ffff_ffff)
            by (nonlinear_arith)
            requires
                x as int <= 0xffff_ffff_ffff_ffff,
                y as int <= 0xffff_ffff_ffff_ffff,
        ;
    }
    let prod: u128 = (x as u128) * (y as u128);
    let rem: u128 = prod % (m as u128);
    rem as u64
}

/// x + y mod m, through one double-width intermediate.
fn add_mod(x: u64, y: u64, m: u64) -> (r: u64)
    requires
        1 <= m,
    ensures
        r == (x + y) % (m as int),
        r < m,
{
    let sum: u128 = (x as u128) + (y as u128);
    let rem: u128 = sum % (m as u128);
    rem as u64
}

impl PrimeCurve64 {
    /// Assembles a capability instance from its constants, accepting exactly
    /// the combinations that make it well-formed: a modulus of at least two,
    /// canonical curve constants, and a byte width of at most one word that
    /// the modulus fits in.
    pub fn new(p: u64, a: u64, b: u64, width: usize) -> (r: Option<PrimeCurve64>)
        ensures
            match r {
                Some(c) => c == (PrimeCurve64 { p, a, b, width }) && c.wf(),
                None => !(2 <= p && a < p && b < p && 1 <= width && width <= 8 && p as nat
                    <= pow256(width as nat)),
            },
    {
        if !(2 <= p && a < p && b < p && 1 <= width && width <= 8) {
            return None;
        }
        let mut bound: u128 = 1;
        let mut i: usize = 0;
        while i < width
            invariant
                i <= width <= 8,
                bound == pow256(i as nat),
            decreases width - i,
        {
            proof {
                lemma_pow256_values();
                lemma_pow256_mono(i as nat, 7);
            }
            bound = bound * 256;
            i += 1;
        }
        if (p as u128) <= bound {
            Some(PrimeCurve64 { p, a, b, width })
        } else {
            None
        }
    }
}

impl CurveOperations for PrimeCurve64 {
    type Elem = u64;

    open spec fn wf(&self) -> bool {
        &&& 2 <= self.p
        &&& self.a < self.p
        &&& self.b < self.p
        &&& 1 <= self.width
        &&& self.width <= 8
        &&& self.p as nat <= pow256(self.width as nat)
    }

    open spec fn elem_len_spec(&self) -> nat {
        self.width as nat
    }

    open spec fn parse_spec(&self, bytes: Seq<u8>) -> Option<u64> {
        if bytes.len() == self.width && be_val(bytes) < self.p {
            Some(be_val(bytes) as u64)
        } else {
            None
        }
    }

    open spec fn sqr_spec(&self, e: u64) -> u64 {
        self.mul_spec(e, e)
    }

    open spec fn add_spec(&self, x: u64, y: u64) -> u64 {
        ((x + y) % (self.p as int)) as u64
    }

    open spec fn mul_spec(&self, x: u64, y: u64) -> u64 {
        ((x as int * y as int) % (self.p as int)) as u64
    }

    open spec fn eq_spec(&self, x: u64, y: u64) -> bool {
        x == y
    }

    open spec fn a_spec(&self) -> u64 {
        self.a
    }

    open spec fn b_spec(&self) -> u64 {
        self.b
    }

    fn elem_len(&self) -> usize {
        self.width
    }

    fn parse_field_element(&self, bytes: &[u8]) -> (r: Result<u64, ()>) {
        let n = bytes.len();
        let mut acc: u64 = 0;
        let mut i: usize = 0;
        while i < n
            invariant
                self.wf(),
                n == bytes@.len() == self.width,
                i <= n,
                acc == be_val(bytes@.take(i as int)),
                acc < pow256(i as nat),
            decreases n - i,
        {
            proof {
                lemma_pow256_values();
                lemma_pow256_mono(i as nat, 7);
                lemma_be_val_push(bytes@.take(i as int), bytes@[i as int]);
                assert(bytes@.take(i + 1).drop_last() =~= bytes@.take(i as int));
                assert(bytes@.take(i + 1) =~= bytes@.take(i as int).push(bytes@[i as int]));
            }
            let byte = bytes[i];
            acc = acc * 256 + (byte as u64);
            i += 1;
        }
        assert(bytes@.take(n as int) =~= bytes@);
        if acc < self.p {
            Ok(acc)
        } else {
            Err(())
        }
    }

    fn square(&self, e: &u64) -> u64 {
        mul_mod(*e, *e, self.p)
    }

    fn add_in_place(&self, acc: &mut u64, other: &u64) {
        *acc = add_mod(*acc, *other, self.p);
    }

    fn multiply(&self, x: &u64, y: &u64) -> u64 {
        mul_mod(*x, *y, self.p)
    }

    fn elements_equal(&self, x: &u64, y: &u64) -> bool {
        *x == *y
    }

    fn a(&self) -> u64 {
        self.a
    }

    fn b(&self) -> u64 {
        self.b
    }
}

/// The standard uncompressed encoding of the affine point (x, y): the tag
/// byte, then each coordinate big-endian in the curve's fixed width.
pub open spec fn spec_encode_uncompressed(c: &PrimeCurve64, x: u64, y: u64) -> Seq<u8> {
    seq![UNCOMPRESSED_TAG] + be_bytes(x as nat, c.width as nat) + be_bytes(y as nat, c.width as nat)
}

/// Round trip: encoding any point of the field that satisfies the curve
/// equation, and decoding it again, yields exactly that point.
pub proof fn lemma_round_trip(c: &PrimeCurve64, x: u64, y: u64)
    requires
        c.wf(),
        x < c.p,
        y < c.p,
        on_curve(c, x, y),
    ensures
        spec_parse_uncompressed_point(c, spec_encode_uncompressed(c, x, y)) == Ok::<
            (u64, u64),
            (),
        >((x, y)),
{
    let w = c.width as nat;
    let ex = be_bytes(x as nat, w);
    let ey = be_bytes(y as nat, w);
    lemma_be_bytes_len(x as nat, w);
    lemma_be_bytes_len(y as nat, w);
    let input = spec_encode_uncompressed(c, x, y);
    assert(input.subrange(1, 1 + w as int) =~= ex);
    assert(input.subrange(1 + w as int, 1 + 2 * w as int) =~= ey);
    lemma_be_val_of_be_bytes(x as nat, w);
    lemma_be_val_of_be_bytes(y as nat, w);
    lemma_parse_accepts_valid(c, input, x, y);
}

} // verus!

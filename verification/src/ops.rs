//! The capability set a curve supplies to the decoder: the constants `a` and
//! `b` of its short Weierstrass equation, and the field operations on its
//! coordinate type.
//!
//! The decoder is generic over this trait; one verified instance over a
//! small prime field lives in `prime_curve`. The field-arithmetic engines of
//! full-size named curves are outside collaborators: they plug in by
//! implementing this trait.

use vstd::prelude::*;

verus! {

/// Curve constants and field operations for one curve, borrowed read-only by
/// the decoder for the duration of one call.
///
/// Each executable operation is pinned to a specification-level counterpart,
/// so that the decoder's own contract can speak of what an implementation
/// computes without knowing how.
pub trait CurveOperations: Sized {
    /// An element of the curve's underlying field. The decoder treats it as
    /// an opaque value; canonicalization and range rules are owned by the
    /// implementation.
    type Elem;

    /// Well-formedness of this capability instance.
    spec fn wf(&self) -> bool;

    /// The fixed byte width of one encoded field element.
    spec fn elem_len_spec(&self) -> nat;

    /// What parsing a byte string of the fixed width yields: the canonical
    /// field element it encodes, or nothing if it is malformed.
    spec fn parse_spec(&self, bytes: Seq<u8>) -> Option<Self::Elem>;

    /// The square of a field element.
    spec fn sqr_spec(&self, e: Self::Elem) -> Self::Elem;

    /// The sum of two field elements.
    spec fn add_spec(&self, x: Self::Elem, y: Self::Elem) -> Self::Elem;

    /// The product of two field elements.
    spec fn mul_spec(&self, x: Self::Elem, y: Self::Elem) -> Self::Elem;

    /// Field equality of two elements.
    spec fn eq_spec(&self, x: Self::Elem, y: Self::Elem) -> bool;

    /// The curve constant a.
    spec fn a_spec(&self) -> Self::Elem;

    /// The curve constant b.
    spec fn b_spec(&self) -> Self::Elem;

    fn elem_len(&self) -> (n: usize)
        requires
            self.wf(),
        ensures
            n == self.elem_len_spec(),
    ;

    /// Validates and decodes a fixed-width big-endian byte slice into a
    /// canonical field element.
    fn parse_field_element(&self, bytes: &[u8]) -> (r: Result<Self::Elem, ()>)
        requires
            self.wf(),
            bytes@.len() == self.elem_len_spec(),
        ensures
            match r {
                Ok(e) => self.parse_spec(bytes@) == Some(e),
                Err(_) => self.parse_spec(bytes@) is None,
            },
    ;

    fn square(&self, e: &Self::Elem) -> (r: Self::Elem)
        requires
            self.wf(),
        ensures
            r == self.sqr_spec(*e),
    ;

    fn add_in_place(&self, acc: &mut Self::Elem, other: &Self::Elem)
        requires
            self.wf(),
        ensures
            *final(acc) == self.add_spec(*old(acc), *other),
    ;

    fn multiply(&self, x: &Self::Elem, y: &Self::Elem) -> (r: Self::Elem)
        requires
            self.wf(),
        ensures
            r == self.mul_spec(*x, *y),
    ;

    fn elements_equal(&self, x: &Self::Elem, y: &Self::Elem) -> (r: bool)
        requires
            self.wf(),
        ensures
            r == self.eq_spec(*x, *y),
    ;

    fn a(&self) -> (r: Self::Elem)
        requires
            self.wf(),
        ensures
            r == self.a_spec(),
    ;

    fn b(&self) -> (r: Self::Elem)
        requires
            self.wf(),
        ensures
            r == self.b_spec(),
    ;
}

/// The point (x, y) satisfies the curve equation y^2 = x^3 + a*x + b, under
/// the instance's own field equality, with the right-hand side grouped as
/// (x^2 + a)*x + b exactly as the decoder computes it.
pub open spec fn on_curve<O: CurveOperations>(ops: &O, x: O::Elem, y: O::Elem) -> bool {
    ops.eq_spec(
        ops.sqr_spec(y),
        ops.add_spec(ops.mul_spec(ops.add_spec(ops.sqr_spec(x), ops.a_spec()), x), ops.b_spec()),
    )
}

} // verus!

//! Decoding of a public key in uncompressed affine form, and the laws that
//! hold of it.

use vstd::prelude::*;

use crate::cursor::{
    input_as_slice, input_seq, reader_at_end, reader_new, reader_read_byte, reader_read_bytes,
};
use crate::ops::{on_curve, CurveOperations};

verus! {

/// The tag byte that opens every uncompressed point encoding.
pub const UNCOMPRESSED_TAG: u8 = 4;

/// What decoding a byte string yields: the coordinate pair, if the input is
/// exactly one tag byte followed by two well-formed fixed-width field
/// elements that satisfy the curve equation, and the single content-free
/// error otherwise.
pub open spec fn spec_parse_uncompressed_point<O: CurveOperations>(
    ops: &O,
    input: Seq<u8>,
) -> Result<(O::Elem, O::Elem), ()> {
    let w = ops.elem_len_spec() as int;
    if input.len() != 1 + 2 * w {
        Err(())
    } else if input[0] != UNCOMPRESSED_TAG {
        Err(())
    } else {
        let px = ops.parse_spec(input.subrange(1, 1 + w));
        let py = ops.parse_spec(input.subrange(1 + w, 1 + 2 * w));
        match (px, py) {
            (Some(x), Some(y)) => if on_curve(ops, x, y) {
                Ok((x, y))
            } else {
                Err(())
            },
            _ => Err(()),
        }
    }
}

/// Parses a public key encoded in uncompressed form. The key's coordinates
/// are verified to be valid field elements and the point is verified to be
/// on the curve. (The point cannot be at infinity because it is given in
/// affine coordinates.)
pub fn parse_uncompressed_point<'a, O: CurveOperations>(
    ops: &O,
    input: untrusted::Input<'a>,
) -> (r: Result<(O::Elem, O::Elem), ()>)
    requires
        ops.wf(),
    ensures
        r == spec_parse_uncompressed_point(ops, input_seq(input)),
{
    let ghost s = input_seq(input);
    let ghost w = ops.elem_len_spec() as int;
    let elem_len = ops.elem_len();
    let mut reader = reader_new(input);

    // The encoding must be 4, which is the encoding for "uncompressed".
    let tag = match reader_read_byte(&mut reader) {
        Some(t) => t,
        None => {
            return Err(());
        },
    };
    if tag != UNCOMPRESSED_TAG {
        return Err(());
    }
    let x_bytes = match reader_read_bytes(&mut reader, elem_len) {
        Some(taken) => taken,
        None => {
            return Err(());
        },
    };
    let y_bytes = match reader_read_bytes(&mut reader, elem_len) {
        Some(taken) => taken,
        None => {
            return Err(());
        },
    };
    // The cursor must be exhausted: trailing garbage is rejected.
    if !reader_at_end(&reader) {
        return Err(());
    }
    assert(input_seq(x_bytes) =~= s.subrange(1, 1 + w));
    assert(input_seq(y_bytes) =~= s.subrange(1 + w, 1 + 2 * w));

    let x = match ops.parse_field_element(input_as_slice(x_bytes)) {
        Ok(e) => e,
        Err(_) => {
            return Err(());
        },
    };
    let y = match ops.parse_field_element(input_as_slice(y_bytes)) {
        Ok(e) => e,
        Err(_) => {
            return Err(());
        },
    };

    // Verify that (x, y) is on the curve, which is true iff
    //
    //     y**2 == x**3 + a*x + b
    //
    // or, equivalently but with one multiplication fewer,
    //
    //     y**2 == (x**2 + a)*x + b
    let lhs = ops.square(&y);

    let mut rhs = ops.square(&x);
    ops.add_in_place(&mut rhs, &ops.a());
    let mut rhs = ops.multiply(&rhs, &x);
    ops.add_in_place(&mut rhs, &ops.b());
    if !ops.elements_equal(&lhs, &rhs) {
        return Err(());
    }

    Ok((x, y))
}

/// Decoding is deterministic: two results of decoding the same bytes with
/// the same capability set are the same.
pub proof fn lemma_parse_deterministic<O: CurveOperations>(
    ops: &O,
    input: Seq<u8>,
    r1: Result<(O::Elem, O::Elem), ()>,
    r2: Result<(O::Elem, O::Elem), ()>,
)
    requires
        r1 == spec_parse_uncompressed_point(ops, input),
        r2 == spec_parse_uncompressed_point(ops, input),
    ensures
        r1 == r2,
{
}

/// Any input whose length differs from 1 + 2 * field width is rejected,
/// regardless of its content.
pub proof fn lemma_length_sensitivity<O: CurveOperations>(ops: &O, input: Seq<u8>)
    requires
        input.len() != 1 + 2 * ops.elem_len_spec(),
    ensures
        spec_parse_uncompressed_point(ops, input) == Err::<(O::Elem, O::Elem), ()>(()),
{
}

/// Any input of the correct length whose first byte is not the uncompressed
/// tag is rejected, whatever the remaining bytes hold.
pub proof fn lemma_tag_sensitivity<O: CurveOperations>(ops: &O, input: Seq<u8>)
    requires
        input.len() == 1 + 2 * ops.elem_len_spec(),
        input[0] != UNCOMPRESSED_TAG,
    ensures
        spec_parse_uncompressed_point(ops, input) == Err::<(O::Elem, O::Elem), ()>(()),
{
}

/// A syntactically well-formed encoding whose coordinates do not satisfy the
/// curve equation is rejected.
pub proof fn lemma_off_curve_rejected<O: CurveOperations>(
    ops: &O,
    input: Seq<u8>,
    x: O::Elem,
    y: O::Elem,
)
    requires
        input.len() == 1 + 2 * ops.elem_len_spec(),
        input[0] == UNCOMPRESSED_TAG,
        ops.parse_spec(input.subrange(1, 1 + ops.elem_len_spec() as int)) == Some(x),
        ops.parse_spec(
            input.subrange(1 + ops.elem_len_spec() as int, 1 + 2 * ops.elem_len_spec() as int),
        ) == Some(y),
        !on_curve(ops, x, y),
    ensures
        spec_parse_uncompressed_point(ops, input) == Err::<(O::Elem, O::Elem), ()>(()),
{
}

/// A well-formed encoding of a point that does satisfy the curve equation is
/// accepted, and decodes to exactly that coordinate pair.
pub proof fn lemma_parse_accepts_valid<O: CurveOperations>(
    ops: &O,
    input: Seq<u8>,
    x: O::Elem,
    y: O::Elem,
)
    requires
        input.len() == 1 + 2 * ops.elem_len_spec(),
        input[0] == UNCOMPRESSED_TAG,
        ops.parse_spec(input.subrange(1, 1 + ops.elem_len_spec() as int)) == Some(x),
        ops.parse_spec(
            input.subrange(1 + ops.elem_len_spec() as int, 1 + 2 * ops.elem_len_spec() as int),
        ) == Some(y),
        on_curve(ops, x, y),
    ensures
        spec_parse_uncompressed_point(ops, input) == Ok::<(O::Elem, O::Elem), ()>((x, y)),
{
}

/// Every coordinate pair the decoder accepts came from a well-formed
/// encoding and satisfies the curve equation: the decoder never produces an
/// off-curve point, and never accepts the point at infinity, whose encoding
/// does not open with the uncompressed tag.
pub proof fn lemma_accepted_point_on_curve<O: CurveOperations>(
    ops: &O,
    input: Seq<u8>,
    x: O::Elem,
    y: O::Elem,
)
    requires
        spec_parse_uncompressed_point(ops, input) == Ok::<(O::Elem, O::Elem), ()>((x, y)),
    ensures
        on_curve(ops, x, y),
        input.len() == 1 + 2 * ops.elem_len_spec(),
        input[0] == UNCOMPRESSED_TAG,
        ops.parse_spec(input.subrange(1, 1 + ops.elem_len_spec() as int)) == Some(x),
        ops.parse_spec(
            input.subrange(1 + ops.elem_len_spec() as int, 1 + 2 * ops.elem_len_spec() as int),
        ) == Some(y),
{
}

/// The point at infinity's distinct encoding, a single zero byte, is
/// rejected at the tag check, never accepted as a finite point.
pub proof fn lemma_infinity_rejected<O: CurveOperations>(ops: &O, input: Seq<u8>)
    requires
        input == seq![0u8],
    ensures
        spec_parse_uncompressed_point(ops, input) == Err::<(O::Elem, O::Elem), ()>(()),
{
}

/// Across all failure causes the error is one and the same value: two
/// rejected inputs are indistinguishable by what decoding returns.
pub proof fn lemma_errors_indistinguishable<O: CurveOperations>(
    ops: &O,
    input1: Seq<u8>,
    input2: Seq<u8>,
)
    requires
        spec_parse_uncompressed_point(ops, input1) is Err,
        spec_parse_uncompressed_point(ops, input2) is Err,
    ensures
        spec_parse_uncompressed_point(ops, input1) == spec_parse_uncompressed_point(ops, input2),
{
}

} // verus!

//! The byte-cursor capability, supplied by the `untrusted` crate.
//!
//! The decoder reads its input through `untrusted::Reader`: read one byte,
//! read a fixed number of bytes, and ask whether anything remains. The
//! declarations and wrappers here state, over the bytes an `Input` holds and
//! the bytes a `Reader` has not yet consumed, exactly what that crate's
//! source shows of those operations.

use vstd::prelude::*;

verus! {

#[verifier::external_type_specification]
#[verifier::external_body]
pub struct ExInput<'a>(untrusted::Input<'a>);

#[verifier::external_type_specification]
#[verifier::external_body]
pub struct ExReader<'a>(untrusted::Reader<'a>);

/// The bytes an `untrusted::Input` holds.
pub uninterp spec fn input_seq(input: untrusted::Input) -> Seq<u8>;

/// The bytes an `untrusted::Reader` has not yet consumed.
pub uninterp spec fn reader_rest(reader: untrusted::Reader) -> Seq<u8>;

/// Relies on untrusted::Reader::new: a fresh reader stands at the start of
/// its input, so all of the input is still to be consumed.
#[verifier::external_body]
pub(crate) fn reader_new<'a>(input: untrusted::Input<'a>) -> (reader: untrusted::Reader<'a>)
    ensures
        reader_rest(reader) == input_seq(input),
{
    untrusted::Reader::new(input)
}

/// Relies on untrusted::Reader::read_byte: it hands back the first
/// unconsumed byte and advances past it, or reports the end of the input and
/// leaves the reader as it was.
#[verifier::external_body]
pub(crate) fn reader_read_byte(reader: &mut untrusted::Reader) -> (r: Option<u8>)
    ensures
        match r {
            Some(b) => reader_rest(*old(reader)).len() > 0 && b == reader_rest(*old(reader))[0]
                && reader_rest(*final(reader)) == reader_rest(*old(reader)).skip(1),
            None => reader_rest(*old(reader)).len() == 0 && *final(reader) == *old(reader),
        },
{
    reader.read_byte().ok()
}

/// Relies on untrusted::Reader::read_bytes: it hands back the next
/// `num_bytes` unconsumed bytes as an `Input` and advances past them, or
/// reports that fewer remain and leaves the reader as it was.
#[verifier::external_body]
pub(crate) fn reader_read_bytes<'a>(reader: &mut untrusted::Reader<'a>, num_bytes: usize) -> (r: Option<
    untrusted::Input<'a>,
>)
    ensures
        match r {
            Some(taken) => reader_rest(*old(reader)).len() >= num_bytes
                && input_seq(taken) == reader_rest(*old(reader)).take(num_bytes as int)
                && reader_rest(*final(reader)) == reader_rest(*old(reader)).skip(num_bytes as int),
            None => reader_rest(*old(reader)).len() < num_bytes && *final(reader) == *old(reader),
        },
{
    reader.read_bytes(num_bytes).ok()
}

/// Relies on untrusted::Reader::at_end: it answers whether every byte of the
/// input has been consumed.
#[verifier::external_body]
pub(crate) fn reader_at_end(reader: &untrusted::Reader) -> (r: bool)
    ensures
        r == (reader_rest(*reader).len() == 0),
{
    reader.at_end()
}

/// Relies on untrusted::Input::as_slice_less_safe: it hands out exactly the
/// bytes the input holds.
#[verifier::external_body]
pub(crate) fn input_as_slice<'a>(input: untrusted::Input<'a>) -> (r: &'a [u8])
    ensures
        r@ == input_seq(input),
{
    input.as_slice_less_safe()
}

} // verus!

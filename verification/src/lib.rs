//! Decoding and validation of elliptic-curve public keys given in
//! uncompressed affine form.
//!
//! The decoder reads a tag byte, two fixed-width big-endian field elements,
//! demands that nothing follows them, and checks the short Weierstrass
//! equation y^2 = x^3 + a*x + b through a capability set of curve-specific
//! field operations. Every rejection, whatever its cause, is reported as the
//! same content-free error, so that callers cannot be turned into an oracle
//! for why a candidate key was refused.

pub mod bytes;
pub mod cursor;
pub mod ops;
pub mod prime_curve;
pub mod public_key;

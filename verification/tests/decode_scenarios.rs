//! Decoder scenarios on a small verified curve instance: y^2 = x^3 + x + 1
//! over the field of integers modulo 23, on which (3, 10) is a point.

use ec_public_key::prime_curve::PrimeCurve64;
use ec_public_key::public_key::parse_uncompressed_point;

fn toy_curve() -> PrimeCurve64 {
    PrimeCurve64::new(23, 1, 1, 1).unwrap()
}

fn decode(curve: &PrimeCurve64, bytes: &[u8]) -> Result<(u64, u64), ()> {
    parse_uncompressed_point(curve, untrusted::Input::from(bytes))
}

#[test]
fn round_trip_valid_point() {
    let curve = toy_curve();
    // 10^2 = 100 = 8 mod 23 and 3^3 + 3 + 1 = 31 = 8 mod 23.
    assert_eq!(decode(&curve, &[4, 3, 10]), Ok((3, 10)));
    // The other point with the same x-coordinate: y = 23 - 10.
    assert_eq!(decode(&curve, &[4, 3, 13]), Ok((3, 13)));
}

#[test]
fn determinism_repeated_calls() {
    let curve = toy_curve();
    for input in [&[4u8, 3, 10][..], &[4, 3, 11][..], &[9][..], &[][..]] {
        let first = decode(&curve, input);
        let second = decode(&curve, input);
        assert_eq!(first, second);
    }
}

#[test]
fn length_sensitivity() {
    let curve = toy_curve();
    assert_eq!(decode(&curve, &[]), Err(()));
    assert_eq!(decode(&curve, &[4]), Err(()));
    assert_eq!(decode(&curve, &[4, 3]), Err(()));
    assert_eq!(decode(&curve, &[4, 3, 10, 0]), Err(()));
    assert_eq!(decode(&curve, &[4, 3, 10, 3, 10]), Err(()));
}

#[test]
fn tag_sensitivity() {
    let curve = toy_curve();
    // Correct length, and bytes that would otherwise decode to a valid
    // point, but the first byte is not the uncompressed tag.
    assert_eq!(decode(&curve, &[0, 3, 10]), Err(()));
    assert_eq!(decode(&curve, &[2, 3, 10]), Err(()));
    assert_eq!(decode(&curve, &[3, 3, 10]), Err(()));
    assert_eq!(decode(&curve, &[5, 3, 10]), Err(()));
}

#[test]
fn curve_membership_sensitivity() {
    let curve = toy_curve();
    // 11^2 = 121 = 6 mod 23, but x = 3 demands y^2 = 8 mod 23.
    assert_eq!(decode(&curve, &[4, 3, 11]), Err(()));
    assert_eq!(decode(&curve, &[4, 0, 0]), Err(()));
}

#[test]
fn out_of_range_coordinate_rejected() {
    let curve = toy_curve();
    // 25 is not a canonical residue mod 23, though 25 = 2 mod 23.
    assert_eq!(decode(&curve, &[4, 25, 10]), Err(()));
    assert_eq!(decode(&curve, &[4, 3, 33]), Err(()));
}

#[test]
fn point_at_infinity_rejected() {
    let curve = toy_curve();
    assert_eq!(decode(&curve, &[0]), Err(()));
}

#[test]
fn error_value_indistinguishable() {
    let curve = toy_curve();
    // One failure per cause: wrong length, wrong tag, out-of-range
    // coordinate, off-curve point, the point at infinity's encoding.
    let failures = [
        decode(&curve, &[4, 3]),
        decode(&curve, &[7, 3, 10]),
        decode(&curve, &[4, 25, 10]),
        decode(&curve, &[4, 3, 11]),
        decode(&curve, &[0]),
    ];
    for r in &failures {
        assert_eq!(*r, Err(()));
    }
}

#[test]
fn wider_field_element_encoding() {
    // The same curve with its elements spread over two big-endian bytes.
    let curve = PrimeCurve64::new(23, 1, 1, 2).unwrap();
    assert_eq!(decode(&curve, &[4, 0, 3, 0, 10]), Ok((3, 10)));
    // The one-byte-per-coordinate form now has the wrong length.
    assert_eq!(decode(&curve, &[4, 3, 10]), Err(()));
}

#[test]
fn eight_byte_width_big_endian_order() {
    let curve = PrimeCurve64::new(0xffff_ffff_ffff_ffc5, 0, 3, 8).unwrap();
    // x = 1, y = 2 satisfies y^2 = x^3 + 3.
    let mut input = [0u8; 17];
    input[0] = 4;
    input[8] = 1;
    input[16] = 2;
    assert_eq!(decode(&curve, &input), Ok((1, 2)));
    // The coordinates the other way round miss the curve: 1 != 2^3 + 3.
    let mut swapped = [0u8; 17];
    swapped[0] = 4;
    swapped[8] = 2;
    swapped[16] = 1;
    assert_eq!(decode(&curve, &swapped), Err(()));
}

#[test]
fn curve_construction_guards() {
    assert!(PrimeCurve64::new(23, 1, 1, 1).is_some());
    // Modulus below two.
    assert!(PrimeCurve64::new(1, 0, 0, 1).is_none());
    // Non-canonical curve constants.
    assert!(PrimeCurve64::new(23, 25, 1, 1).is_none());
    assert!(PrimeCurve64::new(23, 1, 23, 1).is_none());
    // Width zero, width beyond one word, modulus not fitting the width.
    assert!(PrimeCurve64::new(23, 1, 1, 0).is_none());
    assert!(PrimeCurve64::new(23, 1, 1, 9).is_none());
    assert!(PrimeCurve64::new(300, 1, 1, 1).is_none());
    assert!(PrimeCurve64::new(256, 1, 1, 1).is_some());
}

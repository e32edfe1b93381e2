//! Points of the secp256k1 group, held in their canonical 33-byte encoding.

use crate::encoding::be_nat;
use crate::scalar::{group_order, Scalar};
use elliptic_curve::group::GroupEncoding;
use elliptic_curve::sec1::FromEncodedPoint;
use elliptic_curve::subtle::ConstantTimeEq;
use elliptic_curve::PrimeField;
use vstd::prelude::*;

verus! {

/// The prime of the field that the coordinates of secp256k1 live in.
pub open spec fn field_prime() -> nat {
    0xFFFFFFFFFFFFFFFFFFFFFFFFFFFFFFFFFFFFFFFFFFFFFFFFFFFFFFFEFFFFFC2Fnat
}

/// Whether `(x, y)` are the coordinates of a point of the curve
/// `y² = x³ + 7` over the field.
pub open spec fn on_curve(x: nat, y: nat) -> bool {
    &&& x < field_prime()
    &&& y < field_prime()
    &&& (y * y) % field_prime() == (x * x * x + 7) % field_prime()
}

/// Whether `bytes` are the compressed encoding of a point of the curve: a
/// byte 2 or 3 for an even or odd y-coordinate, then the 32 big-endian bytes
/// of the x-coordinate of a point of the curve.
pub open spec fn is_compressed_point(bytes: Seq<u8>) -> bool {
    &&& bytes.len() == 33
    &&& (bytes[0] == 2 || bytes[0] == 3)
    &&& exists|y: nat| on_curve(be_nat(bytes.subrange(1, 33)), y)
}

/// The 33 zero bytes that stand for the identity of the group, the point at
/// infinity.
pub open spec fn identity_encoding() -> Seq<u8> {
    Seq::new(33, |i: int| 0u8)
}

/// Whether `bytes` are the canonical encoding of an element of the group.
pub open spec fn is_point_encoding(bytes: Seq<u8>) -> bool {
    bytes == identity_encoding() || is_compressed_point(bytes)
}

/// The compressed encoding of the base point of secp256k1: the byte 2, as
/// its y-coordinate is even, then its x-coordinate.
pub const GENERATOR: [u8; 33] = [
    0x02, 0x79, 0xbe, 0x66, 0x7e, 0xf9, 0xdc, 0xbb, 0xac, 0x55, 0xa0, 0x62, 0x95, 0xce, 0x87, 0x0b,
    0x07, 0x02, 0x9b, 0xfc, 0xdb, 0x2d, 0xce, 0x28, 0xd9, 0x59, 0xf2, 0x81, 0x5b, 0x16, 0xf8, 0x17,
    0x98,
];

/// The x-coordinate of the base point.
pub open spec fn generator_x() -> nat {
    0x79BE667EF9DCBBAC55A06295CE870B07029BFCDB2DCE28D959F2815B16F81798nat
}

/// The y-coordinate of the base point.
pub open spec fn generator_y() -> nat {
    0x483ADA7726A3C4655DA4FBFC0E1108A8FD17B448A68554199C47D08FFB10D4B8nat
}

/// The base point is a point of the curve, and `GENERATOR` is its compressed
/// encoding.
pub proof fn lemma_generator_is_on_curve()
    ensures
        be_nat(GENERATOR@.subrange(1, 33)) == generator_x(),
        on_curve(generator_x(), generator_y()),
        is_compressed_point(GENERATOR@),
{
    reveal_with_fuel(be_nat, 33);
}

/// The encoding of the multiple of a point by an integer, as
/// `k256::ProjectivePoint * k256::Scalar` computes it from the encoding of
/// the point.
pub uninterp spec fn scalar_multiple(point: Seq<u8>, k: nat) -> Seq<u8>;

/// The encoding of the sum of two points, as
/// `k256::ProjectivePoint + k256::ProjectivePoint` computes it from their
/// encodings.
pub uninterp spec fn point_sum(a: Seq<u8>, b: Seq<u8>) -> Seq<u8>;

/// An element of the secp256k1 group.
#[derive(Clone, Copy, Debug, PartialEq, Eq)]
pub struct Point {
    bytes: [u8; 33],
}

impl View for Point {
    type V = Seq<u8>;

    /// The canonical encoding of the point: 33 zero bytes for the identity,
    /// the compressed encoding for every other point.
    closed spec fn view(&self) -> Seq<u8> {
        self.bytes@
    }
}

impl Point {
    /// Every point holds the canonical encoding of an element of the group.
    #[verifier::type_invariant]
    pub open spec fn wf(&self) -> bool {
        is_point_encoding(self@)
    }

    /// Two points with the same encoding are the same point.
    pub proof fn lemma_encoding_determines(a: Point, b: Point)
        requires
            a@ == b@,
        ensures
            a == b,
    {
        assert(a.bytes =~= b.bytes);
    }

    /// The base point of secp256k1.
    pub fn generator() -> (res: Point)
        ensures
            res@ == GENERATOR@,
    {
        proof {
            lemma_generator_is_on_curve();
        }
        Point { bytes: GENERATOR }
    }

    /// The point with the given canonical encoding, where there is one.
    pub fn from_bytes(bytes: &[u8; 33]) -> (res: Option<Point>)
        ensures
            res is Some <==> is_point_encoding(bytes@),
            res matches Some(p) ==> p@ == bytes@,
    {
        if bytes[0] == 2 || bytes[0] == 3 {
            assert(identity_encoding()[0] == 0);
            if decodes_to_point(bytes) {
                Some(Point { bytes: *bytes })
            } else {
                None
            }
        } else if all_zero(bytes) {
            Some(Point { bytes: *bytes })
        } else {
            None
        }
    }

    /// The canonical encoding of the point.
    pub fn to_bytes(&self) -> (res: [u8; 33])
        ensures
            res@ == self@,
    {
        self.bytes
    }

    /// Whether the point is the identity of the group.
    pub fn is_identity(&self) -> (res: bool)
        ensures
            res == (self@ == identity_encoding()),
    {
        all_zero(&self.bytes)
    }

    /// The multiple of the point by a scalar.
    pub fn mul(&self, k: &Scalar) -> (res: Point)
        ensures
            res@ == scalar_multiple(self@, k@),
    {
        proof {
            use_type_invariant(self);
            use_type_invariant(k);
        }
        point_mul(self, k)
    }
}

/// Whether all 33 bytes are zero.
fn all_zero(bytes: &[u8; 33]) -> (res: bool)
    ensures
        res == (bytes@ == identity_encoding()),
{
    let mut i: usize = 0;
    while i < 33
        invariant
            i <= 33,
            forall|j: int| 0 <= j < i ==> bytes@[j] == 0,
        decreases 33 - i,
    {
        if bytes[i] != 0 {
            return false;
        }
        i += 1;
    }
    assert(bytes@ =~= identity_encoding());
    true
}

/// `k256::EncodedPoint::from_bytes`, then `k256::AffinePoint::from_encoded_point`:
/// of 33 bytes that start with 2 or 3, they accept those whose other 32 bytes
/// hold an x-coordinate below the field prime for which `x³ + 7` has a
/// square root in the field.
#[verifier::external_body]
fn decodes_to_point(bytes: &[u8; 33]) -> (res: bool)
    requires
        bytes@[0] == 2 || bytes@[0] == 3,
    ensures
        res == is_compressed_point(bytes@),
{
    match k256::EncodedPoint::from_bytes(bytes) {
        Ok(encoded) => k256::AffinePoint::from_encoded_point(&encoded).is_some().into(),
        Err(_) => false,
    }
}

/// `k256::ProjectivePoint * k256::Scalar`, from encoding to encoding: the
/// multiple of the point by the scalar, a function of the two. The second
/// clause is taken from the crate's word that its points are a group of the
/// prime order `group_order()` under this multiplication
/// (`group::prime::PrimeGroup`): where `p` is itself the `m`-fold of a point
/// `g`, its `k`-fold is the `(m * k) % group_order()`-fold of `g`.
#[verifier::external_body]
pub(crate) fn point_mul(p: &Point, k: &Scalar) -> (res: Point)
    requires
        p.wf(),
        k.wf(),
    ensures
        res.wf(),
        res@ == scalar_multiple(p@, k@),
        forall|g: Seq<u8>, m: nat|
            p@ == #[trigger] scalar_multiple(g, m) ==> res@ == scalar_multiple(
                g,
                (m * k@) % group_order(),
            ),
{
    let point = k256::ProjectivePoint::from_bytes(p.bytes.as_slice().into()).unwrap();
    let scalar = k256::Scalar::from_repr(k.bytes.into()).unwrap();
    let mut bytes = [0u8; 33];
    bytes.copy_from_slice(&(point * scalar).to_bytes());
    Point { bytes }
}

/// `k256::ProjectivePoint + k256::ProjectivePoint`, from encodings to
/// encoding: the sum of the two points, a function of the two. The second
/// clause is taken from the crate's word that its points are a group of the
/// prime order `group_order()` (`group::prime::PrimeGroup`): the sum of the
/// `m`-fold and the `n`-fold of a point `g` is the
/// `(m + n) % group_order()`-fold of `g`.
#[verifier::external_body]
pub(crate) fn point_add(a: &Point, b: &Point) -> (res: Point)
    requires
        a.wf(),
        b.wf(),
    ensures
        res.wf(),
        res@ == point_sum(a@, b@),
        forall|g: Seq<u8>, m: nat, n: nat|
            a@ == #[trigger] scalar_multiple(g, m) && b@ == #[trigger] scalar_multiple(g, n)
                ==> res@ == scalar_multiple(g, (m + n) % group_order()),
{
    let x = k256::ProjectivePoint::from_bytes(a.bytes.as_slice().into()).unwrap();
    let y = k256::ProjectivePoint::from_bytes(b.bytes.as_slice().into()).unwrap();
    let mut bytes = [0u8; 33];
    bytes.copy_from_slice(&(x + y).to_bytes());
    Point { bytes }
}

/// `subtle::ConstantTimeEq::ct_eq` on two byte slices of one length: whether
/// they hold the same bytes, found in time that does not depend on them.
#[verifier::external_body]
pub(crate) fn same_encoding(a: &Point, b: &Point) -> (res: bool)
    ensures
        res == (a@ == b@),
{
    a.bytes.as_slice().ct_eq(b.bytes.as_slice()).into()
}

} // verus!

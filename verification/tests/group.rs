use dlog_proof::point::{Point, GENERATOR};
use dlog_proof::scalar::Scalar;
use elliptic_curve::group::GroupEncoding;
use elliptic_curve::{Field, PrimeField};

const ORDER: &str = "fffffffffffffffffffffffffffffffebaaedce6af48a03bbfd25e8cd0364141";
const ORDER_LESS_ONE: &str = "fffffffffffffffffffffffffffffffebaaedce6af48a03bbfd25e8cd0364140";

fn bytes32(text: &str) -> [u8; 32] {
    hex::decode(text).unwrap().try_into().unwrap()
}

fn bytes33(text: &str) -> [u8; 33] {
    hex::decode(text).unwrap().try_into().unwrap()
}

fn scalar_of(n: u64) -> Scalar {
    let mut bytes = [0u8; 32];
    bytes[24..].copy_from_slice(&n.to_be_bytes());
    Scalar::from_repr(bytes).unwrap()
}

#[test]
fn generator_is_the_base_point_of_the_curve() {
    let g = Point::generator();
    assert_eq!(g.to_bytes(), GENERATOR);
    assert_eq!(g.to_bytes().as_slice(), k256::ProjectivePoint::GENERATOR.to_bytes().as_slice());
    assert_eq!(
        hex::encode(g.to_bytes()),
        "0279be667ef9dcbbac55a06295ce870b07029bfcdb2dce28d959f2815b16f81798"
    );
    assert!(!g.is_identity());
}

#[test]
fn generator_is_accepted_as_an_encoding() {
    assert_eq!(Point::from_bytes(&GENERATOR), Some(Point::generator()));
}

#[test]
fn multiples_of_the_generator_are_the_known_points() {
    let g = Point::generator();
    assert_eq!(g.mul(&scalar_of(1)), g);
    assert_eq!(
        hex::encode(g.mul(&scalar_of(2)).to_bytes()),
        "02c6047f9441ed7d6d3045406e95c07cd85c778e4b8cef3ca7abac09b95c709ee5"
    );
    assert_eq!(
        hex::encode(g.mul(&scalar_of(3)).to_bytes()),
        "02f9308a019258c31049344f85f89d5229b531c845836f99b08601f113bce036f9"
    );
    assert_eq!(
        hex::encode(g.mul(&scalar_of(9)).to_bytes()),
        "03acd484e2f0c7f65309ad178a9f559abde09796974c57e714c35f110dfc27ccbe"
    );
}

#[test]
fn multiples_agree_with_the_curve_arithmetic() {
    for _ in 0..16 {
        let a = k256::Scalar::random(&mut rand_core::OsRng);
        let b = k256::Scalar::random(&mut rand_core::OsRng);
        let base = k256::ProjectivePoint::GENERATOR * a;
        let expected = base * b;
        let point = Point::from_bytes(&bytes33(&hex::encode(base.to_bytes()))).unwrap();
        let scalar = Scalar::from_repr(b.to_repr().into()).unwrap();
        assert_eq!(point.mul(&scalar).to_bytes().as_slice(), expected.to_bytes().as_slice());
    }
}

#[test]
fn multiples_compose() {
    let g = Point::generator();
    assert_eq!(g.mul(&scalar_of(6)).mul(&scalar_of(7)), g.mul(&scalar_of(42)));
    assert_eq!(g.mul(&scalar_of(7)).mul(&scalar_of(6)), g.mul(&scalar_of(42)));
}

#[test]
fn multiple_by_zero_is_the_identity() {
    let identity = Point::generator().mul(&scalar_of(0));
    assert!(identity.is_identity());
    assert_eq!(identity.to_bytes(), [0u8; 33]);
    assert!(identity.mul(&scalar_of(5)).is_identity());
}

#[test]
fn identity_encoding_is_accepted() {
    let identity = Point::from_bytes(&[0u8; 33]).unwrap();
    assert!(identity.is_identity());
    assert_eq!(identity.to_bytes(), [0u8; 33]);
}

#[test]
fn zero_prefix_with_other_bytes_is_no_point() {
    let mut bytes = [0u8; 33];
    bytes[32] = 1;
    assert_eq!(Point::from_bytes(&bytes), None);
    bytes = [0u8; 33];
    bytes[1] = 0x80;
    assert_eq!(Point::from_bytes(&bytes), None);
}

#[test]
fn compressed_points_are_accepted() {
    for text in [
        "02c6047f9441ed7d6d3045406e95c07cd85c778e4b8cef3ca7abac09b95c709ee5",
        "03c6047f9441ed7d6d3045406e95c07cd85c778e4b8cef3ca7abac09b95c709ee5",
        "03fff97bd5755eeea420453a14355235d382f6472f8568a18b2f057a1460297556",
        "020000000000000000000000000000000000000000000000000000000000000001",
    ] {
        let bytes = bytes33(text);
        let point = Point::from_bytes(&bytes).unwrap();
        assert_eq!(point.to_bytes(), bytes);
        assert!(!point.is_identity());
    }
}

#[test]
fn bytes_off_the_curve_are_no_point() {
    for text in [
        "020000000000000000000000000000000000000000000000000000000000000005",
        "030000000000000000000000000000000000000000000000000000000000000007",
        "02fffffffffffffffffffffffffffffffffffffffffffffffffffffffefffffc30",
        "02ffffffffffffffffffffffffffffffffffffffffffffffffffffffffffffffff",
    ] {
        assert_eq!(Point::from_bytes(&bytes33(text)), None);
    }
}

#[test]
fn other_prefixes_are_no_point() {
    for prefix in [1u8, 4, 5, 6, 7, 0x80, 0xff] {
        let mut bytes = GENERATOR;
        bytes[0] = prefix;
        assert_eq!(Point::from_bytes(&bytes), None);
    }
}

#[test]
fn scalar_keeps_its_bytes() {
    let bytes = bytes32("0123456789abcdef0123456789abcdef0123456789abcdef0123456789abcdef");
    assert_eq!(Scalar::from_repr(bytes).unwrap().to_repr(), bytes);
    assert_eq!(Scalar::from_repr([0u8; 32]).unwrap().to_repr(), [0u8; 32]);
}

#[test]
fn scalar_below_the_order_is_accepted() {
    let bytes = bytes32(ORDER_LESS_ONE);
    assert_eq!(Scalar::from_repr(bytes).unwrap().to_repr(), bytes);
}

#[test]
fn bytes_not_below_the_order_are_no_scalar() {
    assert_eq!(Scalar::from_repr(bytes32(ORDER)), None);
    assert_eq!(Scalar::from_repr([0xff; 32]), None);
    let above = bytes32("fffffffffffffffffffffffffffffffebaaedce6af48a03bbfd25e8cd0364142");
    assert_eq!(Scalar::from_repr(above), None);
    let high = bytes32("ffffffffffffffffffffffffffffffff00000000000000000000000000000000");
    assert_eq!(Scalar::from_repr(high), None);
}

#[test]
fn scalar_agrees_with_the_curve_arithmetic() {
    for _ in 0..16 {
        let s = k256::Scalar::random(&mut rand_core::OsRng);
        let ours = Scalar::from_repr(s.to_repr().into()).unwrap();
        assert_eq!(ours.to_repr().as_slice(), s.to_repr().as_slice());
    }
}

use dlog_proof::challenge::{scalar_from_digest, transcript, DOMAIN_SEPARATOR};
use dlog_proof::dlog_proof::DLogProof;
use dlog_proof::error::ProofError;
use dlog_proof::point::Point;
use dlog_proof::scalar::Scalar;
use sha2::Digest;

fn scalar_of(n: u64) -> Scalar {
    let mut bytes = [0u8; 32];
    bytes[24..].copy_from_slice(&n.to_be_bytes());
    Scalar::from_repr(bytes).unwrap()
}

fn bytes32(text: &str) -> [u8; 32] {
    hex::decode(text).unwrap().try_into().unwrap()
}

#[test]
fn domain_separator_is_the_tag_text() {
    assert_eq!(&DOMAIN_SEPARATOR, b"SCHNORR_PROOF");
}

#[test]
fn transcript_of_no_points() {
    let bytes = transcript("", 0, &[]);
    assert_eq!(hex::encode(bytes), "5343484e4f52525f50524f4f4600000000");
}

#[test]
fn transcript_has_the_parts_in_order() {
    let g = Point::generator();
    let t = Point::from_bytes(
        &hex::decode("034646ae5047316b4230d0086c8acec687f00b1cd9d1dc634f6cb358ac0a9a8fff")
            .unwrap()
            .try_into()
            .unwrap(),
    )
    .unwrap();
    let bytes = transcript("sid", 1, &[g, g, t]);
    assert_eq!(
        hex::encode(bytes),
        "5343484e4f52525f50524f4f4673696401000000\
         0279be667ef9dcbbac55a06295ce870b07029bfcdb2dce28d959f2815b16f81798\
         0279be667ef9dcbbac55a06295ce870b07029bfcdb2dce28d959f2815b16f81798\
         034646ae5047316b4230d0086c8acec687f00b1cd9d1dc634f6cb358ac0a9a8fff"
    );
}

#[test]
fn transcript_takes_the_participant_in_little_endian() {
    let bytes = transcript("", 0x0102_0304, &[]);
    assert_eq!(&bytes[13..], &[4, 3, 2, 1]);
}

#[test]
fn transcript_takes_the_session_in_utf8() {
    let g = Point::generator();
    let bytes = transcript("séance-€", 0xdead_beef, &[g]);
    assert_eq!(
        hex::encode(bytes),
        "5343484e4f52525f50524f4f4673c3a9616e63652de282acefbeadde\
         0279be667ef9dcbbac55a06295ce870b07029bfcdb2dce28d959f2815b16f81798"
    );
}

#[test]
fn transcript_takes_the_identity_as_zero_bytes() {
    let identity = Point::generator().mul(&scalar_of(0));
    let bytes = transcript("a", 7, &[identity]);
    assert_eq!(bytes.len(), 13 + 1 + 4 + 33);
    assert_eq!(&bytes[18..], &[0u8; 33]);
}

#[test]
fn transcript_depends_on_the_order_of_the_points() {
    let g = Point::generator();
    let h = g.mul(&scalar_of(2));
    assert_ne!(transcript("sid", 1, &[g, h]), transcript("sid", 1, &[h, g]));
    assert_ne!(
        DLogProof::hash_points("sid", 1, &[g, h]),
        DLogProof::hash_points("sid", 1, &[h, g])
    );
}

#[test]
fn challenge_is_the_digest_of_the_transcript() {
    let g = Point::generator();
    let y = g.mul(&scalar_of(7));
    let t = g.mul(&scalar_of(11));
    let c = DLogProof::hash_points("session", 42, &[g, y, t]).unwrap();
    assert_eq!(
        hex::encode(c.to_repr()),
        "fe4cbfcb6e64553b53eb301758891cb9c11941a4e2e845e5ad52e975568104b9"
    );
    let digest = sha2::Sha256::digest(transcript("session", 42, &[g, y, t]));
    assert_eq!(c.to_repr().as_slice(), digest.as_slice());
}

#[test]
fn challenge_of_a_unicode_session() {
    let c = DLogProof::hash_points("séance-€", 0xdead_beef, &[Point::generator()]).unwrap();
    assert_eq!(
        hex::encode(c.to_repr()),
        "afbfc96d5b81fb31841d213a2fa9daa9effc062bffe05b42d500ee6f68d07f39"
    );
}

#[test]
fn hashing_twice_gives_the_same_challenge() {
    let g = Point::generator();
    let y = g.mul(&scalar_of(123_456));
    let first = DLogProof::hash_points("sid", 5, &[g, y]);
    let second = DLogProof::hash_points("sid", 5, &[g, y]);
    assert_eq!(first, second);
    assert!(first.is_ok());
}

#[test]
fn challenge_changes_with_session_and_participant() {
    let g = Point::generator();
    let base = DLogProof::hash_points("sid", 1, &[g]).unwrap();
    assert_ne!(DLogProof::hash_points("sid", 2, &[g]).unwrap(), base);
    assert_ne!(DLogProof::hash_points("sie", 1, &[g]).unwrap(), base);
    assert_ne!(DLogProof::hash_points("sid", 1, &[g, g]).unwrap(), base);
    assert_ne!(DLogProof::hash_points("sid", 1, &[]).unwrap(), base);
}

#[test]
fn digest_below_the_order_is_a_scalar() {
    let digest = bytes32("fffffffffffffffffffffffffffffffebaaedce6af48a03bbfd25e8cd0364140");
    let c = scalar_from_digest(digest).unwrap();
    assert_eq!(c.to_repr(), digest);
    let zero = scalar_from_digest([0u8; 32]).unwrap();
    assert_eq!(zero.to_repr(), [0u8; 32]);
}

#[test]
fn digest_at_the_order_is_refused() {
    let digest = bytes32("fffffffffffffffffffffffffffffffebaaedce6af48a03bbfd25e8cd0364141");
    assert_eq!(scalar_from_digest(digest), Err(ProofError::ChallengeDerivationFailed));
}

#[test]
fn digest_above_the_order_is_refused() {
    assert_eq!(scalar_from_digest([0xff; 32]), Err(ProofError::ChallengeDerivationFailed));
    let digest = bytes32("fffffffffffffffffffffffffffffffebaaedce6af48a03bbfd25e8cd0364142");
    assert_eq!(scalar_from_digest(digest), Err(ProofError::ChallengeDerivationFailed));
    let digest = bytes32("ffffffffffffffffffffffffffffffff00000000000000000000000000000000");
    assert_eq!(scalar_from_digest(digest), Err(ProofError::ChallengeDerivationFailed));
}

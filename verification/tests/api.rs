use dlog_proof::{DLogProof, EncodedProof, Point, ProofError, Scalar};

fn scalar_of(n: u64) -> Scalar {
    let mut bytes = [0u8; 32];
    bytes[24..].copy_from_slice(&n.to_be_bytes());
    Scalar::from_repr(bytes).unwrap()
}

#[test]
fn proof_with_one_nonce_is_reproducible() {
    let g = Point::generator();
    let x = scalar_of(314_159);
    let y = g.mul(&x);
    let first = DLogProof::prove_with_nonce("sid", 1, &x, y, g, scalar_of(271_828)).unwrap();
    let second = DLogProof::prove_with_nonce("sid", 1, &x, y, g, scalar_of(271_828)).unwrap();
    assert_eq!(first, second);
    let third = DLogProof::prove_with_nonce("sid", 1, &x, y, g, scalar_of(271_829)).unwrap();
    assert_ne!(first.t, third.t);
    assert_ne!(first.s, third.s);
}

#[test]
fn clones_are_equal_to_what_they_are_made_of() {
    let g = Point::generator();
    let x = scalar_of(5);
    let proof = DLogProof::prove("sid", 1, &x, g.mul(&x), g).unwrap();
    let copy = proof.clone();
    assert_eq!(copy, proof);
    assert_eq!(copy.s.clone(), proof.s);
    let encoded = proof.encode();
    assert_eq!(encoded.clone(), encoded);
    assert_eq!(DLogProof::decode(&encoded.clone()), Ok(proof));
}

#[test]
fn stored_proof_is_checked_after_decoding() {
    let g = Point::generator();
    let x = scalar_of(7);
    let y = g.mul(&x);
    let stored = EncodedProof {
        t: "03774ae7f858a9411e5ef4246b70c65aac5649980be5c17891bbec17895da008cb".to_string(),
        s: "f4193e9004be549f4b6e50a36bbfc91be7979e1a18a627e13e562ae87c419994".to_string(),
    };
    let proof = DLogProof::decode(&stored).unwrap();
    assert_eq!(proof.verify("session", 42, y, g), Ok(true));
    assert_eq!(proof.verify("session", 43, y, g), Ok(false));
    let broken = EncodedProof { t: stored.t.clone(), s: "f4".to_string() };
    assert_eq!(DLogProof::decode(&broken), Err(ProofError::InvalidScalarLength));
}

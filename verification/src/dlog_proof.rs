//! Proofs of knowledge of a discrete logarithm: how one is made and how one
//! is checked.

use crate::challenge::{
    challenge_of, encodings, is_challenge, scalar_from_digest, sha256_digest, transcript,
};
use crate::error::ProofError;
use crate::point::{point_add, point_mul, point_sum, same_encoding, scalar_multiple, Point};
use crate::scalar::{group_order, random_scalar, scalar_add, scalar_mul, Scalar};
use vstd::arithmetic::div_mod::lemma_add_mod_noop_right;
use vstd::arithmetic::mul::lemma_mul_is_commutative;
use vstd::prelude::*;

verus! {

/// The challenge of a proof with commitment `t` for the public point `y` on
/// the base point `base`: the three points are hashed in the order
/// `base`, `y`, `t`.
pub open spec fn proof_challenge(
    sid: Seq<char>,
    pid: u32,
    base: Seq<u8>,
    y: Seq<u8>,
    t: Seq<u8>,
) -> Option<nat> {
    challenge_of(sid, pid, seq![base, y, t])
}

/// A proof that its maker knows the `x` with `y = x·G` for a public point
/// `y` and a base point `G`.
#[derive(Debug, PartialEq, Eq)]
pub struct DLogProof {
    /// The commitment `t = r·G` to a nonce `r`.
    pub t: Point,
    /// The response `s = r + c·x` modulo the group order, for the challenge
    /// `c`.
    pub s: Scalar,
}

impl Clone for DLogProof {
    fn clone(&self) -> (res: DLogProof)
        ensures
            res == *self,
    {
        DLogProof { t: self.t, s: self.s.clone() }
    }
}

impl DLogProof {
    /// Whether this is the proof that is made of the secret `x` with the
    /// nonce `r`, for the public point `y` on the base point `base`.
    pub open spec fn is_made_with(
        &self,
        sid: Seq<char>,
        pid: u32,
        x: nat,
        r: nat,
        y: Seq<u8>,
        base: Seq<u8>,
    ) -> bool {
        &&& self.t@ == scalar_multiple(base, r)
        &&& proof_challenge(sid, pid, base, y, self.t@) matches Some(c)
        &&& self.s@ == (r + c * x) % group_order()
    }

    /// A proof is determined by what it is made of: two proofs that are made
    /// of one secret with one nonce, for one session, participant, public
    /// point and base point, are the same proof.
    pub proof fn lemma_nonce_determines_proof(
        first: DLogProof,
        second: DLogProof,
        sid: Seq<char>,
        pid: u32,
        x: nat,
        r: nat,
        y: Seq<u8>,
        base: Seq<u8>,
    )
        requires
            first.s.wf(),
            second.s.wf(),
            first.is_made_with(sid, pid, x, r, y, base),
            second.is_made_with(sid, pid, x, r, y, base),
        ensures
            first == second,
    {
        Point::lemma_encoding_determines(first.t, second.t);
        Scalar::lemma_value_determines(first.s, second.s);
    }

    /// The challenge for a session, a participant and a list of points: the
    /// scalar that the SHA-256 digest of their transcript holds.
    pub fn hash_points(sid: &str, pid: u32, points: &[Point]) -> (res: Result<Scalar, ProofError>)
        ensures
            is_challenge(res, sid@, pid, encodings(points@)),
    {
        let data = transcript(sid, pid, points);
        let digest = sha256_digest(data.as_slice());
        scalar_from_digest(digest)
    }

    /// Makes a proof of knowledge of `x` with a nonce from the operating
    /// system's random source. The caller sees to it that `y = x·base_point`.
    pub fn prove(sid: &str, pid: u32, x: &Scalar, y: Point, base_point: Point) -> (res: Result<
        DLogProof,
        ProofError,
    >)
        ensures
            match res {
                Ok(proof) => exists|r: nat|
                    r < group_order() && #[trigger] proof.is_made_with(
                        sid@,
                        pid,
                        x@,
                        r,
                        y@,
                        base_point@,
                    ),
                Err(e) => e == ProofError::ChallengeDerivationFailed && exists|r: nat|
                    r < group_order() && proof_challenge(
                        sid@,
                        pid,
                        base_point@,
                        y@,
                        #[trigger] scalar_multiple(base_point@, r),
                    ) is None,
            },
    {
        let r = random_scalar();
        proof {
            use_type_invariant(&r);
        }
        Self::prove_with_nonce(sid, pid, x, y, base_point, r)
    }

    /// Makes the proof of knowledge of `x` with the nonce `r`. The caller
    /// sees to it that `y = x·base_point` and that no nonce is used twice.
    pub fn prove_with_nonce(
        sid: &str,
        pid: u32,
        x: &Scalar,
        y: Point,
        base_point: Point,
        r: Scalar,
    ) -> (res: Result<DLogProof, ProofError>)
        ensures
            match res {
                Ok(proof) => proof.is_made_with(sid@, pid, x@, r@, y@, base_point@),
                Err(e) => e == ProofError::ChallengeDerivationFailed && proof_challenge(
                    sid@,
                    pid,
                    base_point@,
                    y@,
                    scalar_multiple(base_point@, r@),
                ) is None,
            },
    {
        proof {
            use_type_invariant(x);
            use_type_invariant(&r);
            use_type_invariant(&base_point);
        }
        let t = point_mul(&base_point, &r);
        let points = [base_point, y, t];
        assert(encodings(points@) == seq![base_point@, y@, t@]);
        match Self::hash_points(sid, pid, points.as_slice()) {
            Err(e) => Err(e),
            Ok(c) => {
                proof {
                    use_type_invariant(&c);
                }
                let cx = scalar_mul(&c, x);
                let s = scalar_add(&r, &cx);
                proof {
                    lemma_add_mod_noop_right(r@ as int, (c@ * x@) as int, group_order() as int);
                }
                Ok(DLogProof { t, s })
            },
        }
    }

    /// Checks the proof for the public point `y` on the base point
    /// `base_point`: whether `s·G = t + c·y` for the challenge `c` that the
    /// session, the participant and the three points give. Every proof that
    /// is made of an `x` with `y = x·G`, with any nonce, passes.
    pub fn verify(&self, sid: &str, pid: u32, y: Point, base_point: Point) -> (res: Result<
        bool,
        ProofError,
    >)
        ensures
            match proof_challenge(sid@, pid, base_point@, y@, self.t@) {
                Some(c) => res == Ok::<bool, ProofError>(
                    scalar_multiple(base_point@, self.s@) == point_sum(
                        self.t@,
                        scalar_multiple(y@, c),
                    ),
                ),
                None => res == Err::<bool, ProofError>(ProofError::ChallengeDerivationFailed),
            },
            forall|x: nat, r: nat|
                y@ == scalar_multiple(base_point@, x) && #[trigger] self.is_made_with(
                    sid@,
                    pid,
                    x,
                    r,
                    y@,
                    base_point@,
                ) ==> res == Ok::<bool, ProofError>(true),
    {
        proof {
            use_type_invariant(&self.t);
            use_type_invariant(&self.s);
            use_type_invariant(&y);
            use_type_invariant(&base_point);
        }
        let points = [base_point, y, self.t];
        assert(encodings(points@) == seq![base_point@, y@, self.t@]);
        match Self::hash_points(sid, pid, points.as_slice()) {
            Err(e) => Err(e),
            Ok(c) => {
                proof {
                    use_type_invariant(&c);
                }
                let lhs = point_mul(&base_point, &self.s);
                let cy = point_mul(&y, &c);
                let rhs = point_add(&self.t, &cy);
                let accepted = same_encoding(&lhs, &rhs);
                assert forall|x: nat, r: nat|
                    y@ == scalar_multiple(base_point@, x) && #[trigger] self.is_made_with(
                        sid@,
                        pid,
                        x,
                        r,
                        y@,
                        base_point@,
                    ) implies accepted by {
                    let q = group_order();
                    assert(cy@ == scalar_multiple(base_point@, (x * c@) % q));
                    assert(rhs@ == scalar_multiple(base_point@, (r + (x * c@) % q) % q));
                    lemma_mul_is_commutative(x as int, c@ as int);
                    lemma_add_mod_noop_right(r as int, (c@ * x) as int, q as int);
                }
                Ok(accepted)
            },
        }
    }
}

} // verus!

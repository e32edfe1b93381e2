//! The hexadecimal text of points, scalars and proofs, and its decoding.

use crate::dlog_proof::DLogProof;
use crate::encoding::be_nat;
use crate::error::ProofError;
use crate::hex_text::{
    hex_decode, hex_decoding, hex_encode, hex_encoding, is_hex_text, lemma_hex_round_trip,
};
use crate::point::{identity_encoding, is_compressed_point, Point};
use crate::scalar::{group_order, Scalar};
use vstd::prelude::*;

verus! {

/// The compressed SEC1 encoding of a point: one zero byte for the identity,
/// and for every other point its 33 bytes, a byte for the parity of the
/// y-coordinate and the x-coordinate.
pub open spec fn sec1_encoding(point: Seq<u8>) -> Seq<u8> {
    if point == identity_encoding() {
        seq![0u8]
    } else {
        point
    }
}

/// The text of a point: the lowercase hexadecimal digits of its compressed
/// SEC1 encoding.
pub open spec fn point_hex(point: Seq<u8>) -> Seq<char> {
    hex_encoding(sec1_encoding(point))
}

/// The encoding of the point that a text stands for, or why it stands for
/// none. The identity has no text that is accepted.
pub open spec fn point_of_hex(text: Seq<char>) -> Result<Seq<u8>, ProofError> {
    if !is_hex_text(text) {
        Err(ProofError::InvalidHexEncoding)
    } else if !is_compressed_point(hex_decoding(text)) {
        Err(ProofError::InvalidPointEncoding)
    } else {
        Ok(hex_decoding(text))
    }
}

/// The text of a scalar: the lowercase hexadecimal digits of its 32
/// big-endian bytes.
pub open spec fn scalar_hex(repr: Seq<u8>) -> Seq<char> {
    hex_encoding(repr)
}

/// The bytes of the scalar that a text stands for, or why it stands for
/// none.
pub open spec fn scalar_of_hex(text: Seq<char>) -> Result<Seq<u8>, ProofError> {
    if !is_hex_text(text) {
        Err(ProofError::InvalidHexEncoding)
    } else if hex_decoding(text).len() != 32 {
        Err(ProofError::InvalidScalarLength)
    } else if be_nat(hex_decoding(text)) >= group_order() {
        Err(ProofError::InvalidScalarValue)
    } else {
        Ok(hex_decoding(text))
    }
}

/// What the decoding of a point returns for a text.
pub open spec fn is_decoded_point(res: Result<Point, ProofError>, text: Seq<char>) -> bool {
    match res {
        Ok(point) => point_of_hex(text) == Ok::<Seq<u8>, ProofError>(point@),
        Err(e) => point_of_hex(text) == Err::<Seq<u8>, ProofError>(e),
    }
}

/// What the decoding of a scalar returns for a text.
pub open spec fn is_decoded_scalar(res: Result<Scalar, ProofError>, text: Seq<char>) -> bool {
    match res {
        Ok(scalar) => scalar_of_hex(text) == Ok::<Seq<u8>, ProofError>(scalar.repr()),
        Err(e) => scalar_of_hex(text) == Err::<Seq<u8>, ProofError>(e),
    }
}

/// What the decoding of a proof returns for the texts of its two fields:
/// the proof of the two decoded fields, or the failure of the commitment's
/// text, or else that of the response's.
pub open spec fn is_decoded_proof(
    res: Result<DLogProof, ProofError>,
    t_text: Seq<char>,
    s_text: Seq<char>,
) -> bool {
    match res {
        Ok(proof) => is_decoded_point(Ok(proof.t), t_text) && is_decoded_scalar(
            Ok(proof.s),
            s_text,
        ),
        Err(e) => match point_of_hex(t_text) {
            Err(t_error) => e == t_error,
            Ok(_) => scalar_of_hex(s_text) == Err::<Seq<u8>, ProofError>(e),
        },
    }
}

/// The array of the `N` bytes of a slice of that length.
fn to_array<const N: usize>(bytes: &[u8]) -> (res: [u8; N])
    requires
        bytes@.len() == N,
    ensures
        res@ == bytes@,
{
    let mut res = [0u8; N];
    let mut i: usize = 0;
    while i < N
        invariant
            i <= N,
            bytes@.len() == N,
            forall|j: int| 0 <= j < i ==> res@[j] == bytes@[j],
        decreases N - i,
    {
        res[i] = bytes[i];
        i += 1;
    }
    res
}

/// The text of a point.
pub fn serialize_point_hex(point: &Point) -> (res: String)
    ensures
        res@ == point_hex(point@),
{
    if point.is_identity() {
        let zero = [0u8];
        hex_encode(zero.as_slice())
    } else {
        let bytes = point.to_bytes();
        hex_encode(bytes.as_slice())
    }
}

/// The point that a text stands for: the text must be the hexadecimal
/// digits, of either case, of the compressed encoding of a point of the
/// curve.
pub fn deserialize_point_hex(text: &str) -> (res: Result<Point, ProofError>)
    ensures
        is_decoded_point(res, text@),
{
    let decoded = match hex_decode(text) {
        Ok(decoded) => decoded,
        Err(_) => {
            return Err(ProofError::InvalidHexEncoding);
        },
    };
    if decoded.len() != 33 {
        return Err(ProofError::InvalidPointEncoding);
    }
    let bytes: [u8; 33] = to_array(decoded.as_slice());
    if bytes[0] != 2 && bytes[0] != 3 {
        return Err(ProofError::InvalidPointEncoding);
    }
    assert(identity_encoding()[0] == 0);
    match Point::from_bytes(&bytes) {
        Some(point) => Ok(point),
        None => Err(ProofError::InvalidPointEncoding),
    }
}

/// The text of a scalar.
pub fn serialize_scalar_hex(scalar: &Scalar) -> (res: String)
    ensures
        res@ == scalar_hex(scalar.repr()),
{
    let bytes = scalar.to_repr();
    hex_encode(bytes.as_slice())
}

/// The scalar that a text stands for: the text must be the hexadecimal
/// digits, of either case, of 32 bytes that hold a big-endian integer below
/// the group order.
pub fn deserialize_scalar_hex(text: &str) -> (res: Result<Scalar, ProofError>)
    ensures
        is_decoded_scalar(res, text@),
{
    let decoded = match hex_decode(text) {
        Ok(decoded) => decoded,
        Err(_) => {
            return Err(ProofError::InvalidHexEncoding);
        },
    };
    if decoded.len() != 32 {
        return Err(ProofError::InvalidScalarLength);
    }
    let bytes: [u8; 32] = to_array(decoded.as_slice());
    match Scalar::from_repr(bytes) {
        Some(scalar) => Ok(scalar),
        None => Err(ProofError::InvalidScalarValue),
    }
}

/// A proof as it is stored and exchanged: the texts of its two fields.
#[derive(Debug, PartialEq, Eq)]
pub struct EncodedProof {
    /// The text of the commitment: 66 hexadecimal digits.
    pub t: String,
    /// The text of the response: 64 hexadecimal digits.
    pub s: String,
}

impl Clone for EncodedProof {
    fn clone(&self) -> (res: EncodedProof)
        ensures
            res.t@ == self.t@,
            res.s@ == self.s@,
    {
        EncodedProof { t: self.t.clone(), s: self.s.clone() }
    }
}

impl DLogProof {
    /// The proof as it is stored and exchanged.
    pub fn encode(&self) -> (res: EncodedProof)
        ensures
            res.t@ == point_hex(self.t@),
            res.s@ == scalar_hex(self.s.repr()),
    {
        EncodedProof { t: serialize_point_hex(&self.t), s: serialize_scalar_hex(&self.s) }
    }

    /// The proof that the texts of an encoded proof stand for. The text of
    /// the commitment is decoded first.
    pub fn decode(encoded: &EncodedProof) -> (res: Result<DLogProof, ProofError>)
        ensures
            is_decoded_proof(res, encoded.t@, encoded.s@),
    {
        let t = match deserialize_point_hex(encoded.t.as_str()) {
            Ok(t) => t,
            Err(e) => {
                return Err(e);
            },
        };
        let s = match deserialize_scalar_hex(encoded.s.as_str()) {
            Ok(s) => s,
            Err(e) => {
                return Err(e);
            },
        };
        Ok(DLogProof { t, s })
    }
}

/// The text of a point other than the identity stands for that point.
pub proof fn lemma_point_round_trip(point: Point)
    requires
        point.wf(),
        point@ != identity_encoding(),
    ensures
        point_of_hex(point_hex(point@)) == Ok::<Seq<u8>, ProofError>(point@),
{
    lemma_hex_round_trip(point@);
}

/// The bytes of a point that are hashed for a challenge are the bytes that
/// its text holds, for every point but the identity.
pub proof fn lemma_text_holds_the_hashed_bytes(point: Point)
    requires
        point.wf(),
        point@ != identity_encoding(),
    ensures
        hex_decoding(point_hex(point@)) == point@,
{
    lemma_hex_round_trip(point@);
}

/// The text of a scalar stands for that scalar.
pub proof fn lemma_scalar_round_trip(scalar: Scalar)
    requires
        scalar.wf(),
    ensures
        scalar_of_hex(scalar_hex(scalar.repr())) == Ok::<Seq<u8>, ProofError>(scalar.repr()),
{
    lemma_hex_round_trip(scalar.repr());
}

/// Decoding the encoding of a proof gives the proof back, field by field,
/// where its commitment is not the identity.
pub proof fn lemma_proof_round_trip(proof: DLogProof, decoded: Result<DLogProof, ProofError>)
    requires
        proof.t.wf(),
        proof.s.wf(),
        proof.t@ != identity_encoding(),
        is_decoded_proof(decoded, point_hex(proof.t@), scalar_hex(proof.s.repr())),
    ensures
        decoded == Ok::<DLogProof, ProofError>(proof),
{
    lemma_point_round_trip(proof.t);
    lemma_scalar_round_trip(proof.s);
    let back = decoded->Ok_0;
    Point::lemma_encoding_determines(back.t, proof.t);
    Scalar::lemma_repr_determines(back.s, proof.s);
}

/// The text of a point other than the identity has 66 digits, that of a
/// scalar 64.
pub proof fn lemma_text_lengths(point: Point, scalar: Scalar)
    requires
        point.wf(),
        point@ != identity_encoding(),
        scalar.wf(),
    ensures
        point_hex(point@).len() == 66,
        scalar_hex(scalar.repr()).len() == 64,
{
}

/// The text of the identity is refused: it is no compressed point.
pub proof fn lemma_identity_is_refused()
    ensures
        point_of_hex(point_hex(identity_encoding())) == Err::<Seq<u8>, ProofError>(
            ProofError::InvalidPointEncoding,
        ),
{
    lemma_hex_round_trip(seq![0u8]);
}

/// A text of odd length stands for no point and no scalar: it is no
/// hexadecimal text.
pub proof fn lemma_odd_length_is_refused(text: Seq<char>)
    requires
        text.len() % 2 == 1,
    ensures
        point_of_hex(text) == Err::<Seq<u8>, ProofError>(ProofError::InvalidHexEncoding),
        scalar_of_hex(text) == Err::<Seq<u8>, ProofError>(ProofError::InvalidHexEncoding),
{
}

/// Hexadecimal text of any length but 64 digits stands for no scalar: its
/// bytes are not 32.
pub proof fn lemma_wrong_length_is_refused(text: Seq<char>)
    requires
        is_hex_text(text),
        text.len() != 64,
    ensures
        scalar_of_hex(text) == Err::<Seq<u8>, ProofError>(ProofError::InvalidScalarLength),
{
}

/// Hexadecimal text whose bytes are not the compressed encoding of a point
/// of the curve stands for no point.
pub proof fn lemma_off_curve_is_refused(text: Seq<char>)
    requires
        is_hex_text(text),
        !is_compressed_point(hex_decoding(text)),
    ensures
        point_of_hex(text) == Err::<Seq<u8>, ProofError>(ProofError::InvalidPointEncoding),
{
}

} // verus!

//! The Fiat–Shamir challenge: the transcript that is hashed, the digest, and
//! the scalar read from it.

use crate::encoding::be_nat;
use crate::error::ProofError;
use crate::point::Point;
use crate::scalar::{group_order, Scalar};
use sha2::Digest;
use vstd::bytes::{
    lemma_auto_spec_u32_to_from_le_bytes, spec_u32_from_le_bytes, spec_u32_to_le_bytes,
    u32_to_le_bytes,
};
use vstd::prelude::*;
use vstd::utf8::{
    encode_utf8, encode_utf8_decode_utf8, is_ascii_chars, is_ascii_chars_encode_utf8,
};

verus! {

/// The tag that opens every transcript: the ASCII bytes of `SCHNORR_PROOF`.
pub const DOMAIN_SEPARATOR: [u8; 13] = [
    0x53, 0x43, 0x48, 0x4e, 0x4f, 0x52, 0x52, 0x5f, 0x50, 0x52, 0x4f, 0x4f, 0x46,
];

/// The domain separator is the text `SCHNORR_PROOF` in UTF-8.
pub proof fn lemma_domain_separator_text()
    ensures
        DOMAIN_SEPARATOR@ == encode_utf8("SCHNORR_PROOF"@),
{
    let text = "SCHNORR_PROOF"@;
    reveal_strlit("SCHNORR_PROOF");
    is_ascii_chars_encode_utf8(text);
}

/// The byte strings of `parts`, one after the other.
pub open spec fn concat_all(parts: Seq<Seq<u8>>) -> Seq<u8>
    decreases parts.len(),
{
    if parts.len() == 0 {
        Seq::empty()
    } else {
        concat_all(parts.drop_last()) + parts.last()
    }
}

/// The canonical encodings of `points`, in their order.
pub open spec fn encodings(points: Seq<Point>) -> Seq<Seq<u8>> {
    Seq::new(points.len(), |i: int| points[i]@)
}

/// The bytes that are hashed for a challenge: the domain separator, the
/// UTF-8 bytes of the session identifier, the four little-endian bytes of
/// the participant identifier, then the encoding of each point in order.
pub open spec fn transcript_bytes(sid: Seq<char>, pid: u32, points: Seq<Seq<u8>>) -> Seq<u8> {
    DOMAIN_SEPARATOR@ + encode_utf8(sid) + spec_u32_to_le_bytes(pid) + concat_all(points)
}

/// Whether each of `points` is an encoding of 33 bytes.
pub open spec fn all_have_point_length(points: Seq<Seq<u8>>) -> bool {
    forall|i: int| 0 <= i < points.len() ==> (#[trigger] points[i]).len() == 33
}

/// The encoding of every point is 33 bytes long.
pub proof fn lemma_encodings_have_point_length(points: Seq<Point>)
    requires
        forall|i: int| 0 <= i < points.len() ==> (#[trigger] points[i]).wf(),
    ensures
        all_have_point_length(encodings(points)),
{
    assert forall|i: int| 0 <= i < points.len() implies (#[trigger] encodings(points)[i]).len()
        == 33 by {
        assert(points[i].wf());
    }
}

/// Encodings of 33 bytes take 33 bytes each, one after the other.
pub proof fn lemma_concat_all_length(points: Seq<Seq<u8>>)
    requires
        all_have_point_length(points),
    ensures
        concat_all(points).len() == 33 * points.len(),
    decreases points.len(),
{
    if points.len() > 0 {
        lemma_concat_all_length(points.drop_last());
    }
}

/// Two lists of as many encodings of 33 bytes that give the same bytes, one
/// after the other, are the same list.
pub proof fn lemma_concat_all_is_injective(first: Seq<Seq<u8>>, second: Seq<Seq<u8>>)
    requires
        first.len() == second.len(),
        all_have_point_length(first),
        all_have_point_length(second),
        concat_all(first) == concat_all(second),
    ensures
        first == second,
    decreases first.len(),
{
    if first.len() > 0 {
        let a = first.drop_last();
        let b = second.drop_last();
        lemma_concat_all_length(a);
        lemma_concat_all_length(b);
        let whole = concat_all(first);
        let cut = concat_all(a).len() as int;
        assert(whole.subrange(0, cut) == concat_all(a));
        assert(whole.subrange(0, cut) == concat_all(b));
        assert(whole.subrange(cut, whole.len() as int) == first.last());
        assert(whole.subrange(cut, whole.len() as int) == second.last());
        lemma_concat_all_is_injective(a, b);
        assert(second == b.push(second.last()));
    }
}

/// The transcript binds what it is made of: two transcripts of as many
/// points that are the same bytes are made of the same session identifier,
/// the same participant identifier and the same points.
pub proof fn lemma_transcript_binds_inputs(
    sid1: Seq<char>,
    pid1: u32,
    points1: Seq<Seq<u8>>,
    sid2: Seq<char>,
    pid2: u32,
    points2: Seq<Seq<u8>>,
)
    requires
        points1.len() == points2.len(),
        all_have_point_length(points1),
        all_have_point_length(points2),
        transcript_bytes(sid1, pid1, points1) == transcript_bytes(sid2, pid2, points2),
    ensures
        sid1 == sid2,
        pid1 == pid2,
        points1 == points2,
{
    lemma_concat_all_length(points1);
    lemma_concat_all_length(points2);
    lemma_auto_spec_u32_to_from_le_bytes();
    let whole = transcript_bytes(sid1, pid1, points1);
    let text1 = encode_utf8(sid1);
    let text2 = encode_utf8(sid2);
    assert(whole.len() == 13 + text2.len() + 4 + 33 * points2.len());
    let a = 13 + text1.len() as int;
    assert(whole.subrange(13, a) == text1);
    assert(whole.subrange(13, a) == text2);
    encode_utf8_decode_utf8(sid1);
    encode_utf8_decode_utf8(sid2);
    assert(whole.subrange(a, a + 4) == spec_u32_to_le_bytes(pid1));
    assert(whole.subrange(a, a + 4) == spec_u32_to_le_bytes(pid2));
    assert(whole.subrange(a + 4, whole.len() as int) == concat_all(points1));
    assert(whole.subrange(a + 4, whole.len() as int) == concat_all(points2));
    lemma_concat_all_is_injective(points1, points2);
}

/// The SHA-256 digest of `data`, as `sha2::Sha256::digest` computes it.
pub uninterp spec fn sha256(data: Seq<u8>) -> Seq<u8>;

/// The digest that the challenge is read from.
pub open spec fn challenge_digest(sid: Seq<char>, pid: u32, points: Seq<Seq<u8>>) -> Seq<u8> {
    sha256(transcript_bytes(sid, pid, points))
}

/// The scalar that a digest holds as a big-endian integer; none where that
/// integer is not below the group order.
pub open spec fn digest_scalar(digest: Seq<u8>) -> Option<nat> {
    if be_nat(digest) < group_order() {
        Some(be_nat(digest))
    } else {
        None
    }
}

/// The challenge for a session, a participant and a list of points; none
/// where the digest holds no scalar.
pub open spec fn challenge_of(sid: Seq<char>, pid: u32, points: Seq<Seq<u8>>) -> Option<nat> {
    digest_scalar(challenge_digest(sid, pid, points))
}

/// What the derivation of a challenge returns: the scalar whose bytes are
/// the digest, or `ChallengeDerivationFailed` where the digest holds none.
pub open spec fn is_challenge(
    res: Result<Scalar, ProofError>,
    sid: Seq<char>,
    pid: u32,
    points: Seq<Seq<u8>>,
) -> bool {
    match res {
        Ok(c) => c.repr() == challenge_digest(sid, pid, points) && challenge_of(sid, pid, points)
            == Some(c@),
        Err(e) => e == ProofError::ChallengeDerivationFailed && challenge_of(sid, pid, points)
            is None,
    }
}

/// The derivation of a challenge is a function of its inputs: any two
/// results for one session, participant and list of points are the same.
pub proof fn lemma_challenge_is_deterministic(
    first: Result<Scalar, ProofError>,
    second: Result<Scalar, ProofError>,
    sid: Seq<char>,
    pid: u32,
    points: Seq<Seq<u8>>,
)
    requires
        is_challenge(first, sid, pid, points),
        is_challenge(second, sid, pid, points),
    ensures
        first == second,
{
    if let Ok(a) = first {
        let b = second->Ok_0;
        Scalar::lemma_repr_determines(a, b);
    }
}

/// Appends `bytes` to `buf`.
fn append(buf: &mut Vec<u8>, bytes: &[u8])
    ensures
        final(buf)@ == old(buf)@ + bytes@,
{
    let mut i: usize = 0;
    while i < bytes.len()
        invariant
            i <= bytes@.len(),
            buf@ == old(buf)@ + bytes@.take(i as int),
        decreases bytes@.len() - i,
    {
        buf.push(bytes[i]);
        i += 1;
    }
}

/// The bytes that are hashed for a challenge.
pub fn transcript(sid: &str, pid: u32, points: &[Point]) -> (res: Vec<u8>)
    ensures
        res@ == transcript_bytes(sid@, pid, encodings(points@)),
{
    let mut buf: Vec<u8> = Vec::new();
    append(&mut buf, DOMAIN_SEPARATOR.as_slice());
    append(&mut buf, sid.as_bytes());
    let pid_bytes = u32_to_le_bytes(pid);
    append(&mut buf, pid_bytes.as_slice());
    let ghost head = buf@;
    let ghost all = encodings(points@);
    let mut i: usize = 0;
    while i < points.len()
        invariant
            i <= points@.len(),
            all == encodings(points@),
            buf@ == head + concat_all(all.take(i as int)),
        decreases points@.len() - i,
    {
        let bytes = points[i].to_bytes();
        append(&mut buf, bytes.as_slice());
        proof {
            let next = all.take(i + 1);
            assert(next.drop_last() == all.take(i as int));
        }
        i += 1;
    }
    assert(all.take(i as int) == all);
    buf
}

/// `sha2::Sha256::digest`: the 32 bytes of the SHA-256 digest of the data.
#[verifier::external_body]
pub(crate) fn sha256_digest(data: &[u8]) -> (res: [u8; 32])
    ensures
        res@ == sha256(data@),
{
    sha2::Sha256::digest(data).into()
}

/// The scalar that a digest holds as a big-endian integer.
pub fn scalar_from_digest(digest: [u8; 32]) -> (res: Result<Scalar, ProofError>)
    ensures
        match res {
            Ok(c) => c.repr() == digest@ && digest_scalar(digest@) == Some(c@),
            Err(e) => e == ProofError::ChallengeDerivationFailed && digest_scalar(digest@) is None,
        },
{
    match Scalar::from_repr(digest) {
        Some(c) => Ok(c),
        None => Err(ProofError::ChallengeDerivationFailed),
    }
}

} // verus!

//! The failures that the proof engine and the codec report.

use vstd::prelude::*;

verus! {

/// Why a challenge could not be derived or a text could not be decoded.
#[derive(Clone, Copy, Debug, PartialEq, Eq, Structural)]
pub enum ProofError {
    /// The challenge digest, read as a big-endian integer, is not below the
    /// group order.
    ChallengeDerivationFailed,
    /// The text is not hexadecimal: its length is odd or it holds a character
    /// that is no hexadecimal digit.
    InvalidHexEncoding,
    /// The bytes are not the compressed encoding of a point of the curve.
    InvalidPointEncoding,
    /// The bytes of a scalar are not exactly 32.
    InvalidScalarLength,
    /// The bytes of a scalar hold an integer that is not below the group order.
    InvalidScalarValue,
}

impl ProofError {
    /// The text that `message` returns.
    pub open spec fn message_text(self) -> Seq<char> {
        match self {
            ProofError::ChallengeDerivationFailed => "Failed to convert hash to scalar"@,
            ProofError::InvalidHexEncoding => "Invalid hex encoding"@,
            ProofError::InvalidPointEncoding => "Invalid point encoding"@,
            ProofError::InvalidScalarLength => "Invalid length for Scalar"@,
            ProofError::InvalidScalarValue => "Invalid Scalar value"@,
        }
    }

    /// A short description of the failure, for display.
    pub fn message(&self) -> (res: String)
        ensures
            res@ == self.message_text(),
    {
        match self {
            ProofError::ChallengeDerivationFailed => "Failed to convert hash to scalar".to_owned(),
            ProofError::InvalidHexEncoding => "Invalid hex encoding".to_owned(),
            ProofError::InvalidPointEncoding => "Invalid point encoding".to_owned(),
            ProofError::InvalidScalarLength => "Invalid length for Scalar".to_owned(),
            ProofError::InvalidScalarValue => "Invalid Scalar value".to_owned(),
        }
    }
}

} // verus!

//! The failures that the identifier operations report.

use vstd::prelude::*;

verus! {

/// Why an operation on an identifier, a name or a key was refused.
///
/// Every failure is a value of this type; no operation of the crate panics on
/// malformed input.
#[derive(Clone, Copy, Debug, PartialEq, Eq, Structural)]
pub enum TnidError {
    /// A name is empty or longer than four characters; or the name field of
    /// a packed value begins with an empty place.
    InvalidLength,
    /// A name of acceptable length holds a character outside `0-4` and
    /// `a-z`; or the name field of a packed value holds an empty place
    /// before a filled one.
    InvalidCharacter,
    /// A text is not the native form of any identifier.
    MalformedString,
    /// A text is not 32 hexadecimal digits in hyphenated groups of 8, 4, 4, 4
    /// and 12.
    MalformedUuid,
    /// A value is no payload: the bits reserved for the UUID version and
    /// variant do not carry the marks that every identifier carries, or one
    /// of the 20 highest bits, which a payload leaves empty, is set.
    UnknownVariant,
    /// The transform was applied to an identifier of another variant than the
    /// one it starts from.
    WrongVariant,
    /// Key material is not exactly 128 bits.
    InvalidKeyLength,
    /// The random part of a new identifier is not a base-16 number of the
    /// required width.
    InvalidRandom,
}

impl TnidError {
    /// The sentence that `message` returns for each failure.
    pub open spec fn sentence(self) -> Seq<char> {
        match self {
            TnidError::InvalidLength => "name must be 1 to 4 characters long"@,
            TnidError::InvalidCharacter => "name may only hold the characters 0-4 and a-z"@,
            TnidError::MalformedString => "text is not a TNID string"@,
            TnidError::MalformedUuid => "text is not the UUID form of a TNID"@,
            TnidError::UnknownVariant => "value is not the payload of a TNID"@,
            TnidError::WrongVariant => "TNID is of the wrong variant for this transform"@,
            TnidError::InvalidKeyLength => "key must be 128 bits: 16 bytes or 32 hex characters"@,
            TnidError::InvalidRandom => "random part must be a base-16 number of the required width"@,
        }
    }

    /// A short English sentence for the failure, for callers that report text.
    pub fn message(&self) -> (text: &'static str)
        ensures
            text@ == self.sentence(),
    {
        match self {
            TnidError::InvalidLength => "name must be 1 to 4 characters long",
            TnidError::InvalidCharacter => "name may only hold the characters 0-4 and a-z",
            TnidError::MalformedString => "text is not a TNID string",
            TnidError::MalformedUuid => "text is not the UUID form of a TNID",
            TnidError::UnknownVariant => "value is not the payload of a TNID",
            TnidError::WrongVariant => "TNID is of the wrong variant for this transform",
            TnidError::InvalidKeyLength => "key must be 128 bits: 16 bytes or 32 hex characters",
            TnidError::InvalidRandom => "random part must be a base-16 number of the required width",
        }
    }
}

} // verus!

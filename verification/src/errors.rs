//! Error taxonomy of the tagging core.
//!
//! `TagError` covers validation of a single name or version fragment
//! (`TooLong`, `InvalidFormat`) and parsing of a combined `name:version`
//! string (`MalformedTag`). `DecodeError` covers rejection of corrupt or
//! truncated serialized tag bytes.

use vstd::prelude::*;
use vstd::string::*;

verus! {

/// Why a tag fragment or a parsed tag string was rejected.
#[derive(Clone, Copy, Debug, PartialEq, Eq, Structural)]
pub enum TagError {
    /// A fragment is longer than the maximum of 63 characters.
    TooLong,
    /// A fragment does not start and end with a lowercase alphanumeric
    /// character with only `[-._a-z0-9]` in between (the empty string
    /// fails this rule too).
    InvalidFormat,
    /// A parsed string holds more than one `:` separator.
    MalformedTag,
}

impl TagError {
    /// Human-readable description of the violated rule.
    pub fn message(&self) -> (r: String)
        ensures
            *self == TagError::TooLong ==> r@
                == "Tag length must be less than or equal to 63 characters"@,
            *self == TagError::InvalidFormat ==> r@
                == "A tag's name or version must consist of alphanumeric characters, '_', '-', or '.', and must start and end with an alphanumeric character"@,
            *self == TagError::MalformedTag ==> r@ == "Tag must be in the format name:version"@,
    {
        match self {
            TagError::TooLong => String::from_str(
                "Tag length must be less than or equal to 63 characters",
            ),
            TagError::InvalidFormat => String::from_str(
                "A tag's name or version must consist of alphanumeric characters, '_', '-', or '.', and must start and end with an alphanumeric character",
            ),
            TagError::MalformedTag => String::from_str("Tag must be in the format name:version"),
        }
    }
}

/// Why a serialized tag could not be decoded.
#[derive(Clone, Copy, Debug, PartialEq, Eq, Structural)]
pub enum DecodeError {
    /// The input ends before the encoding is complete.
    Truncated,
    /// The byte announcing whether a version is present is neither 0 nor 1.
    BadVersionMarker,
    /// A decoded name or version does not satisfy the fragment rules.
    InvalidFragment,
    /// Well-formed encoding followed by extra bytes.
    TrailingBytes,
}

impl DecodeError {
    /// Human-readable description of the defect.
    pub fn message(&self) -> (r: String)
        ensures
            *self == DecodeError::Truncated ==> r@ == "Invalid tag state: truncated input"@,
            *self == DecodeError::BadVersionMarker ==> r@
                == "Invalid tag state: bad version marker"@,
            *self == DecodeError::InvalidFragment ==> r@
                == "Invalid tag state: invalid name or version"@,
            *self == DecodeError::TrailingBytes ==> r@ == "Invalid tag state: trailing bytes"@,
    {
        match self {
            DecodeError::Truncated => String::from_str("Invalid tag state: truncated input"),
            DecodeError::BadVersionMarker => String::from_str(
                "Invalid tag state: bad version marker",
            ),
            DecodeError::InvalidFragment => String::from_str(
                "Invalid tag state: invalid name or version",
            ),
            DecodeError::TrailingBytes => String::from_str("Invalid tag state: trailing bytes"),
        }
    }
}

} // verus!

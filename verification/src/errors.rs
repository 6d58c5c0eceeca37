use vstd::prelude::*;

verus! {

/// Why a parse failed. Every failing routine reports the first error it
/// meets and gives up; no partial tree survives.
#[derive(Debug, Clone, Copy, PartialEq, Eq, Structural)]
pub enum ParseError {
    /// The input ended while a multi-character construct was still open.
    UnexpectedEOF,
    /// A closing tag's name differs from its opening tag's name.
    MismatchedClosingTag,
    /// A required literal marker was not found at the cursor.
    InvalidTag,
    /// An attribute value was not introduced by a single or double quote.
    InvalidAttributeValue,
}

impl ParseError {
    /// A short human-readable description of the error.
    pub fn message(&self) -> (s: &'static str)
        ensures
            *self == ParseError::InvalidTag ==> s@ == "Invalid HTML tag"@,
            *self == ParseError::UnexpectedEOF ==> s@ == "Unexpected end of file"@,
            *self == ParseError::MismatchedClosingTag ==> s@ == "Mismatched closing tag"@,
            *self == ParseError::InvalidAttributeValue ==> s@ == "Invalid attribute value"@,
    {
        match self {
            ParseError::InvalidTag => "Invalid HTML tag",
            ParseError::UnexpectedEOF => "Unexpected end of file",
            ParseError::MismatchedClosingTag => "Mismatched closing tag",
            ParseError::InvalidAttributeValue => "Invalid attribute value",
        }
    }
}

} // verus!

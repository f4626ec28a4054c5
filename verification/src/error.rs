//! The ways in which parsing fails.

use vstd::prelude::*;

verus! {

/// One of the three numbers of a version.
#[derive(Debug, Clone, Copy, PartialEq, Eq)]
pub enum VersionField {
    Major,
    Minor,
    Patch,
}

/// Why a header line, an entry line or a whole body was rejected.
///
/// The variants that concern an entry carry the index of the entry's line,
/// counted from zero at the line after the header.
#[derive(Debug, Clone, Copy, PartialEq, Eq)]
pub enum ParseError {
    /// The body has no line at all.
    MissingHeaderLine,
    /// The header line does not match the header pattern.
    MalformedHeader,
    /// The header pattern matches, but the banner is not the expected one.
    BannerMismatch,
    /// A version number, the first such in the line, is not a decimal
    /// numeral of at most 65535.
    FieldOutOfRange { field: VersionField },
    /// The entry line is empty or holds white space only.
    EmptyLine { line: usize },
    /// The entry line begins with neither stream marker.
    UnknownLogKind { line: usize },
    /// The entry's time stamp is not a time of day.
    InvalidTimestamp { line: usize },
}

impl ParseError {
    /// The index of the entry line that failed, for the failures of an
    /// entry line; `None` for those of the header line and of the body.
    pub open spec fn spec_entry_line(&self) -> Option<usize> {
        match *self {
            ParseError::EmptyLine { line } => Some(line),
            ParseError::UnknownLogKind { line } => Some(line),
            ParseError::InvalidTimestamp { line } => Some(line),
            _ => None,
        }
    }

    /// The index of the entry line that failed, if an entry line did.
    #[verifier::when_used_as_spec(spec_entry_line)]
    pub fn entry_line(&self) -> (r: Option<usize>)
        ensures
            r == self.spec_entry_line(),
    {
        match *self {
            ParseError::EmptyLine { line } => Some(line),
            ParseError::UnknownLogKind { line } => Some(line),
            ParseError::InvalidTimestamp { line } => Some(line),
            _ => None,
        }
    }
}

} // verus!

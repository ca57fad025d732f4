//! What can be wrong with an identification line.

use crate::utils::{decimal, decimal_string};
use vstd::prelude::*;
use vstd::string::*;

verus! {

/// Possible errors in creating or reading a SSH Protocol Identification string
#[derive(Debug, PartialEq, Eq)]
#[allow(inconsistent_fields)]
pub enum IdentificationError {
    /// The maximum length of the identification string was exceeded
    ///
    /// length: The length in bytes of the string that resulted in the error
    /// value: the String value itself
    MaxLengthExceeded { length: usize, value: String },
    /// The string holds a null character; `index` is the byte offset of the first one.
    ContainsNullCharacter { index: usize, value: String },
    /// The string does not end as its protocol version demands; `actual` is its tail.
    InvalidEnding { actual: String },
    /// The string does not start with `SSH-`; `actual` is its first four characters.
    InvalidStringBeginning { actual: String },
    /// The version token is neither `2.0` nor `1.99`.
    InvalidProtocolVersion { actual: String },
    /// The version is recognized, but not one this implementation speaks.
    UnsupportedProtocolVersion { ver: String },
    /// Something other than a space follows the software version.
    ExpectedSpaceSeparator { actual: char, value: String },
    /// Nothing follows the protocol version.
    MissingSoftwareVersion,
}

/// An `IdentificationError` with its strings as sequences of characters.
#[allow(inconsistent_fields)]
pub enum IdentificationErrorView {
    MaxLengthExceeded { length: nat, value: Seq<char> },
    ContainsNullCharacter { index: nat, value: Seq<char> },
    InvalidEnding { actual: Seq<char> },
    InvalidStringBeginning { actual: Seq<char> },
    InvalidProtocolVersion { actual: Seq<char> },
    UnsupportedProtocolVersion { ver: Seq<char> },
    ExpectedSpaceSeparator { actual: char, value: Seq<char> },
    MissingSoftwareVersion,
}

impl View for IdentificationError {
    type V = IdentificationErrorView;

    open spec fn view(&self) -> IdentificationErrorView {
        match self {
            IdentificationError::MaxLengthExceeded { length, value } => {
                IdentificationErrorView::MaxLengthExceeded { length: *length as nat, value: value@ }
            },
            IdentificationError::ContainsNullCharacter { index, value } => {
                IdentificationErrorView::ContainsNullCharacter { index: *index as nat, value: value@ }
            },
            IdentificationError::InvalidEnding { actual } => {
                IdentificationErrorView::InvalidEnding { actual: actual@ }
            },
            IdentificationError::InvalidStringBeginning { actual } => {
                IdentificationErrorView::InvalidStringBeginning { actual: actual@ }
            },
            IdentificationError::InvalidProtocolVersion { actual } => {
                IdentificationErrorView::InvalidProtocolVersion { actual: actual@ }
            },
            IdentificationError::UnsupportedProtocolVersion { ver } => {
                IdentificationErrorView::UnsupportedProtocolVersion { ver: ver@ }
            },
            IdentificationError::ExpectedSpaceSeparator { actual, value } => {
                IdentificationErrorView::ExpectedSpaceSeparator { actual: *actual, value: value@ }
            },
            IdentificationError::MissingSoftwareVersion => {
                IdentificationErrorView::MissingSoftwareVersion
            },
        }
    }
}

impl IdentificationErrorView {
    /// The sentence that describes the error.
    pub open spec fn message(self) -> Seq<char> {
        match self {
            IdentificationErrorView::MaxLengthExceeded { length, value } => {
                "Identification String must not exceed 256 characters (got "@ + decimal(length)
                    + "); Actual result string was "@ + value
            },
            IdentificationErrorView::ContainsNullCharacter { index, value } => {
                "Identification String must not contain the null character '\0', found at index "@
                    + decimal(index) + " in \""@ + value + "\""@
            },
            IdentificationErrorView::InvalidEnding { actual } => {
                "Expected string to end with a carriage return followed by a line feed \"\\r\\n\", found \""@
                    + actual + "\""@
            },
            IdentificationErrorView::InvalidStringBeginning { actual } => {
                "Expected identification string to start with \"SSH-\", got "@ + actual
            },
            IdentificationErrorView::InvalidProtocolVersion { actual } => {
                "Expected a supported protocol version (2.0 or 1.99) got "@ + actual
            },
            IdentificationErrorView::UnsupportedProtocolVersion { ver } => {
                "Got an unsupported version of the ssh protocol: expected (2.0 or 1.99) got "@ + ver
            },
            IdentificationErrorView::ExpectedSpaceSeparator { actual, value } => {
                "Expected a space character separating protocol version and comments, got "@
                    + seq![actual] + " in (\""@ + value + "\")"@
            },
            IdentificationErrorView::MissingSoftwareVersion => {
                "No software version identifier in identification string"@
            },
        }
    }
}

/// `String::from` on a character: std documents that it yields the string made of that one
/// character.
#[verifier::external_body]
fn string_of_char(c: char) -> (s: String)
    ensures
        s@ == seq![c],
{
    String::from(c)
}

impl IdentificationError {
    /// The sentence that describes the error.
    pub fn to_string(&self) -> (s: String)
        ensures
            s@ == self@.message(),
    {
        match self {
            Self::MaxLengthExceeded { length, value } => {
                let mut s = String::from_str(
                    "Identification String must not exceed 256 characters (got ",
                );
                s.append(decimal_string(*length).as_str());
                s.append("); Actual result string was ");
                s.append(value.as_str());
                s
            },
            Self::ContainsNullCharacter { index, value } => {
                let mut s = String::from_str(
                    "Identification String must not contain the null character '\0', found at index ",
                );
                s.append(decimal_string(*index).as_str());
                s.append(" in \"");
                s.append(value.as_str());
                s.append("\"");
                s
            },
            Self::InvalidEnding { actual } => {
                let mut s = String::from_str(
                    "Expected string to end with a carriage return followed by a line feed \"\\r\\n\", found \"",
                );
                s.append(actual.as_str());
                s.append("\"");
                s
            },
            Self::InvalidStringBeginning { actual } => {
                let mut s = String::from_str(
                    "Expected identification string to start with \"SSH-\", got ",
                );
                s.append(actual.as_str());
                s
            },
            Self::InvalidProtocolVersion { actual } => {
                let mut s = String::from_str(
                    "Expected a supported protocol version (2.0 or 1.99) got ",
                );
                s.append(actual.as_str());
                s
            },
            Self::UnsupportedProtocolVersion { ver } => {
                let mut s = String::from_str(
                    "Got an unsupported version of the ssh protocol: expected (2.0 or 1.99) got ",
                );
                s.append(ver.as_str());
                s
            },
            Self::ExpectedSpaceSeparator { actual, value } => {
                let mut s = String::from_str(
                    "Expected a space character separating protocol version and comments, got ",
                );
                s.append(string_of_char(*actual).as_str());
                s.append(" in (\"");
                s.append(value.as_str());
                s.append("\")");
                s
            },
            Self::MissingSoftwareVersion => {
                String::from_str("No software version identifier in identification string")
            },
        }
    }
}

} // verus!

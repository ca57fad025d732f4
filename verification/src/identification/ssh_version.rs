//! The protocol versions that an identification line can announce.

use crate::utils::{decimal, decimal_string};
use vstd::prelude::*;
use vstd::string::*;

verus! {

/// IETF recognized ssh protocol version numbers.
#[derive(Debug, PartialEq, Eq, Structural, Clone, Copy)]
pub enum SSHVersion {
    /// The standard defined version, usually the one that should be used by any client or server
    Ver2,
    /// A version number defined for backwards compatibility with undocumented older versions of
    /// ssh. Only minor version 99 is accepted on the wire; any other minor is recognized but
    /// unsupported.
    Ver1 { minor: usize },
}

impl SSHVersion {
    /// The version as it is written in the identification line.
    pub open spec fn text(&self) -> Seq<char> {
        match self {
            SSHVersion::Ver2 => seq!['2', '.', '0'],
            SSHVersion::Ver1 { minor } => seq!['1', '.'] + decimal(*minor as nat),
        }
    }

    /// Whether the version may be used on the wire: 2.0 and 1.99 only.
    pub open spec fn supported(&self) -> bool {
        match self {
            SSHVersion::Ver2 => true,
            SSHVersion::Ver1 { minor } => *minor == 99,
        }
    }

    /// What ends the identification line of this version: CR LF for 2.0, a bare LF in
    /// compatibility mode.
    pub open spec fn terminator(&self) -> Seq<char> {
        match self {
            SSHVersion::Ver2 => seq!['\r', '\n'],
            SSHVersion::Ver1 { .. } => seq!['\n'],
        }
    }

    /// Convert to a recognized string version of the version number
    pub fn to_string(&self) -> (s: String)
        ensures
            s@ == self.text(),
    {
        proof {
            reveal_strlit("2.0");
            reveal_strlit("1.");
        }
        match self {
            Self::Ver2 => {
                let s = String::from_str("2.0");
                assert(s@ =~= self.text());
                s
            },
            Self::Ver1 { minor } => {
                let mut s = String::from_str("1.");
                let digits = decimal_string(*minor);
                s.append(digits.as_str());
                assert(s@ =~= self.text());
                s
            },
        }
    }
}

/// The text of version 1.99.
pub proof fn lemma_text_of_compat()
    ensures
        (SSHVersion::Ver1 { minor: 99 }).text() == seq!['1', '.', '9', '9'],
{
    reveal_with_fuel(decimal, 2);
    assert(decimal(99) =~= seq!['9', '9']);
    assert((SSHVersion::Ver1 { minor: 99 }).text() =~= seq!['1', '.', '9', '9']);
}

} // verus!

//! The control characters that the identification line is built from.

use vstd::prelude::*;

verus! {

/// Carriage return.
pub const CR: &'static str = "\r";

/// Line feed.
pub const LF: &'static str = "\n";

/// Space.
pub const SP: &'static str = " ";

/// A control character in caret notation.
pub enum ControlCharacter {
    C,
    D,
}

impl ControlCharacter {
    /// The caret notation of the character.
    pub open spec fn caret(&self) -> Seq<char> {
        match self {
            ControlCharacter::C => seq!['^', 'C'],
            ControlCharacter::D => seq!['^', 'D'],
        }
    }

    pub fn as_str(&self) -> (s: &str)
        ensures
            s@ == self.caret(),
    {
        proof {
            reveal_strlit("^C");
            reveal_strlit("^D");
        }
        let s = match self {
            Self::C => "^C",
            Self::D => "^D",
        };
        assert(s@ =~= self.caret());
        s
    }
}

} // verus!

//! What the packet layer needs to know of a message authentication code.

use vstd::prelude::*;

verus! {

/// A message authentication code: it computes a tag for a message, and tells whether a tag is
/// that of a message. The spec functions give names to what an implementation answers; how the
/// tag is computed, and which tags are accepted, is the implementation's own.
pub trait Mac {
    /// The length in bytes that the code reports for its tags.
    spec fn tag_length(&self) -> nat;

    /// The tag that the code computes for a message.
    spec fn tag_of(&self, data: Seq<u8>) -> Seq<u8>;

    /// Whether the code accepts `tag` as the tag of the message.
    spec fn accepts(&self, data: Seq<u8>, tag: Seq<u8>) -> bool;

    fn tag_size(&self) -> (size: usize)
        ensures
            size == self.tag_length(),
    ;

    fn compute(&self, data: &[u8]) -> (tag: Vec<u8>)
        ensures
            tag@ == self.tag_of(data@),
    ;

    fn verify(&self, data: &[u8], tag: &[u8]) -> (valid: bool)
        ensures
            valid == self.accepts(data@, tag@),
    ;
}

/// The codes that need no key.
#[derive(Debug, PartialEq, Eq)]
pub enum MacType {
    /// No authentication: every tag is empty, and only the empty tag is accepted.
    NoMac,
}

impl Mac for MacType {
    open spec fn tag_length(&self) -> nat {
        0
    }

    open spec fn tag_of(&self, data: Seq<u8>) -> Seq<u8> {
        Seq::empty()
    }

    open spec fn accepts(&self, data: Seq<u8>, tag: Seq<u8>) -> bool {
        tag.len() == 0
    }

    fn tag_size(&self) -> (size: usize) {
        0
    }

    fn compute(&self, data: &[u8]) -> (tag: Vec<u8>) {
        Vec::new()
    }

    fn verify(&self, data: &[u8], tag: &[u8]) -> (valid: bool) {
        tag.len() == 0
    }
}

} // verus!

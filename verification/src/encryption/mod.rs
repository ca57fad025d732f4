//! What the packet layer needs to know of a cipher.

use vstd::prelude::*;

verus! {

/// The ciphers that the protocol names.
#[derive(Debug, PartialEq, Eq)]
pub enum CipherType {
    ThreeDESCBC,
    BlowfishCBC,
    Twofish256CBC,
    TwofishCBC,
    Twofish192CBC,
    Twofish128CBC,
    AES256CBC,
    AES192CBC,
    AES128CBC,
    Serpent256CBC,
    Serpent192CBC,
    Serpent128CBC,
    ArcFour,
    IDEACBC,
    Cast128CBC,
    NoCipher,
}

/// A cipher, as far as framing goes: it has a block size, to which packets are padded.
pub trait Cipher {
    /// The block size that the cipher reports, in bytes.
    spec fn block_size(&self) -> nat;

    fn get_block_size(&self) -> (size: usize)
        ensures
            size == self.block_size(),
    ;
}

impl Cipher for CipherType {
    open spec fn block_size(&self) -> nat {
        8
    }

    fn get_block_size(&self) -> (size: usize) {
        8
    }
}

} // verus!

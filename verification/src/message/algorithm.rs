//! The algorithms that a key exchange negotiates, each kind as a type of names.

use super::name_list::AlgorithmName;
use crate::wire::same_bytes;
use vstd::prelude::*;
use vstd::string::*;
use vstd::utf8::{encode_utf8, encode_utf8_valid_utf8, valid_utf8};

verus! {

/// A key exchange or host key algorithm, known by its name.
#[derive(Debug, PartialEq, Eq)]
pub enum KexAlgorithm {
    Named(String),
}

/// An encryption algorithm, known by its name.
#[derive(Debug, PartialEq, Eq)]
pub enum EncryptionAlgorithm {
    Named(String),
}

/// A message authentication algorithm, known by its name.
#[derive(Debug, PartialEq, Eq)]
pub enum MacAlgorithm {
    Named(String),
}

/// A language, known by its tag.
#[derive(Debug, PartialEq, Eq)]
pub enum Language {
    Named(String),
}

/// A compression algorithm.
#[derive(Debug, PartialEq, Eq, Structural, Clone, Copy)]
pub enum CompressionAlgorithm {
    Zstd,
    NoCompression,
}

impl AlgorithmName for KexAlgorithm {
    open spec fn name(&self) -> Seq<u8> {
        match self {
            KexAlgorithm::Named(name) => encode_utf8(name@),
        }
    }

    open spec fn named(text: Seq<u8>) -> bool {
        valid_utf8(text)
    }

    proof fn lemma_name_is_named(&self) {
        encode_utf8_valid_utf8(self->0@);
    }

    fn to_name(&self) -> (text: Vec<u8>) {
        match self {
            KexAlgorithm::Named(name) => name.to_name(),
        }
    }

    fn from_name(text: &[u8]) -> (value: Option<Self>) {
        match String::from_name(text) {
            Some(name) => Some(KexAlgorithm::Named(name)),
            None => None,
        }
    }
}

impl AlgorithmName for EncryptionAlgorithm {
    open spec fn name(&self) -> Seq<u8> {
        match self {
            EncryptionAlgorithm::Named(name) => encode_utf8(name@),
        }
    }

    open spec fn named(text: Seq<u8>) -> bool {
        valid_utf8(text)
    }

    proof fn lemma_name_is_named(&self) {
        encode_utf8_valid_utf8(self->0@);
    }

    fn to_name(&self) -> (text: Vec<u8>) {
        match self {
            EncryptionAlgorithm::Named(name) => name.to_name(),
        }
    }

    fn from_name(text: &[u8]) -> (value: Option<Self>) {
        match String::from_name(text) {
            Some(name) => Some(EncryptionAlgorithm::Named(name)),
            None => None,
        }
    }
}

impl AlgorithmName for MacAlgorithm {
    open spec fn name(&self) -> Seq<u8> {
        match self {
            MacAlgorithm::Named(name) => encode_utf8(name@),
        }
    }

    open spec fn named(text: Seq<u8>) -> bool {
        valid_utf8(text)
    }

    proof fn lemma_name_is_named(&self) {
        encode_utf8_valid_utf8(self->0@);
    }

    fn to_name(&self) -> (text: Vec<u8>) {
        match self {
            MacAlgorithm::Named(name) => name.to_name(),
        }
    }

    fn from_name(text: &[u8]) -> (value: Option<Self>) {
        match String::from_name(text) {
            Some(name) => Some(MacAlgorithm::Named(name)),
            None => None,
        }
    }
}

impl AlgorithmName for Language {
    open spec fn name(&self) -> Seq<u8> {
        match self {
            Language::Named(name) => encode_utf8(name@),
        }
    }

    open spec fn named(text: Seq<u8>) -> bool {
        valid_utf8(text)
    }

    proof fn lemma_name_is_named(&self) {
        encode_utf8_valid_utf8(self->0@);
    }

    fn to_name(&self) -> (text: Vec<u8>) {
        match self {
            Language::Named(name) => name.to_name(),
        }
    }

    fn from_name(text: &[u8]) -> (value: Option<Self>) {
        match String::from_name(text) {
            Some(name) => Some(Language::Named(name)),
            None => None,
        }
    }
}

impl CompressionAlgorithm {
    /// The name of the algorithm as text.
    pub open spec fn text(&self) -> Seq<char> {
        match self {
            CompressionAlgorithm::Zstd => "zstd"@,
            CompressionAlgorithm::NoCompression => "none"@,
        }
    }
}

impl AlgorithmName for CompressionAlgorithm {
    open spec fn name(&self) -> Seq<u8> {
        encode_utf8(self.text())
    }

    open spec fn named(text: Seq<u8>) -> bool {
        text == encode_utf8("zstd"@) || text == encode_utf8("none"@)
    }

    proof fn lemma_name_is_named(&self) {
    }

    fn to_name(&self) -> (text: Vec<u8>) {
        match self {
            CompressionAlgorithm::Zstd => "zstd".as_bytes_vec(),
            CompressionAlgorithm::NoCompression => "none".as_bytes_vec(),
        }
    }

    fn from_name(text: &[u8]) -> (value: Option<Self>) {
        if same_bytes(text, "zstd".as_bytes()) {
            Some(CompressionAlgorithm::Zstd)
        } else if same_bytes(text, "none".as_bytes()) {
            Some(CompressionAlgorithm::NoCompression)
        } else {
            None
        }
    }
}

} // verus!

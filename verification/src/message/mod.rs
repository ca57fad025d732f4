//! The messages of the transport layer and their encodings.
//!
//! Every message starts with the tag of its kind; its fields follow in a fixed order, built from
//! raw bytes, booleans, big-endian integers, length-prefixed strings and name lists.

pub mod algorithm;
pub mod disconnect;
pub mod kex_init;
pub mod message_type;
pub mod name_list;
pub mod service;
pub mod text;

pub use algorithm::{
    CompressionAlgorithm, EncryptionAlgorithm, KexAlgorithm, Language, MacAlgorithm,
};
pub use disconnect::{DisconnectMessage, DisconnectMessageType};
pub use kex_init::KexInitMessage;
pub use message_type::MessageType;
pub use name_list::{AlgorithmName, NameList};
pub use service::{SSHService, ServiceRequest};

use disconnect::DisconnectView;
use kex_init::KexInitView;
use service::ServiceRequestView;
use vstd::prelude::*;

verus! {

/// Why a message or a name list cannot be decoded.
#[derive(Debug, PartialEq, Eq, Structural, Clone, Copy)]
pub enum MessageError {
    /// The data ends before the layout does.
    Truncated,
    /// The tag is not that of a message that can be decoded.
    UnknownMessageType,
    /// A field holds what its type does not admit: text that is not UTF-8, or a name or a code
    /// outside a closed set.
    InvalidField,
}

/// A message of the protocol: a value that knows its kind and its layout in bytes.
pub trait Message: Sized + View {
    /// The kind of these messages.
    spec fn kind() -> MessageType;

    /// Whether every length of the message fits the field that carries it.
    spec fn encodable(&self) -> bool;

    /// The bytes of the message: the tag of its kind, then its fields.
    spec fn wire(&self) -> Seq<u8>;

    /// What `data` decodes to.
    spec fn parse(data: Seq<u8>) -> Result<Self::V, MessageError>;

    fn encode(&self) -> (bytes: Vec<u8>)
        requires
            self.encodable(),
        ensures
            bytes@ == self.wire(),
            bytes@.len() >= 1,
            bytes@[0] == Self::kind().wire_tag(),
    ;

    fn get_type(&self) -> (kind: MessageType)
        ensures
            kind == Self::kind(),
    ;

    fn decode(data: Vec<u8>) -> (r: Result<Self, MessageError>)
        ensures
            match Self::parse(data@) {
                Ok(message) => r matches Ok(m) && m@ == message,
                Err(e) => r == Err::<Self, MessageError>(e),
            },
    ;
}

/// A message of any of the kinds that can be decoded.
#[derive(Debug, PartialEq, Eq)]
pub enum AnyMessage {
    Disconnect(DisconnectMessage),
    ServiceRequest(ServiceRequest),
    KexInit(KexInitMessage),
}

/// An `AnyMessage` with the message it holds as its view.
pub enum AnyMessageView {
    Disconnect(DisconnectView),
    ServiceRequest(ServiceRequestView),
    KexInit(KexInitView),
}

impl View for AnyMessage {
    type V = AnyMessageView;

    open spec fn view(&self) -> AnyMessageView {
        match self {
            AnyMessage::Disconnect(m) => AnyMessageView::Disconnect(m@),
            AnyMessage::ServiceRequest(m) => AnyMessageView::ServiceRequest(m@),
            AnyMessage::KexInit(m) => AnyMessageView::KexInit(m@),
        }
    }
}

/// What `data` decodes to, whatever kind of message it holds: the tag, its first byte, chooses
/// the kind, and the data is read as a message of that kind, which is truncated where it is
/// shorter than the shortest message of the kind. A tag of no kind, or of a kind that has no
/// decoder, is an unknown message type; data without a tag is truncated.
pub open spec fn parse_message(data: Seq<u8>) -> Result<AnyMessageView, MessageError> {
    if data.len() == 0 {
        Err(MessageError::Truncated)
    } else {
        match MessageType::of_tag(data[0]) {
            Some(MessageType::Disconnect) => match DisconnectView::parse(data) {
                Ok(m) => Ok(AnyMessageView::Disconnect(m)),
                Err(e) => Err(e),
            },
            Some(MessageType::ServiceRequest) => match ServiceRequestView::parse(data) {
                Ok(m) => Ok(AnyMessageView::ServiceRequest(m)),
                Err(e) => Err(e),
            },
            Some(MessageType::KexInit) => match KexInitView::parse(data) {
                Ok(m) => Ok(AnyMessageView::KexInit(m)),
                Err(e) => Err(e),
            },
            _ => Err(MessageError::UnknownMessageType),
        }
    }
}

/// Decodes the message that `data` holds, of whatever kind it is.
pub fn decode_message(data: &[u8]) -> (r: Result<AnyMessage, MessageError>)
    ensures
        match parse_message(data@) {
            Ok(message) => r matches Ok(m) && m@ == message,
            Err(e) => r == Err::<AnyMessage, MessageError>(e),
        },
{
    if data.len() == 0 {
        return Err(MessageError::Truncated);
    }
    match MessageType::from_tag(data[0]) {
        Some(MessageType::Disconnect) => match DisconnectMessage::decode_bytes(data) {
            Ok(m) => Ok(AnyMessage::Disconnect(m)),
            Err(e) => Err(e),
        },
        Some(MessageType::ServiceRequest) => match ServiceRequest::decode_bytes(data) {
            Ok(m) => Ok(AnyMessage::ServiceRequest(m)),
            Err(e) => Err(e),
        },
        Some(MessageType::KexInit) => match KexInitMessage::decode_bytes(data) {
            Ok(m) => Ok(AnyMessage::KexInit(m)),
            Err(e) => Err(e),
        },
        _ => Err(MessageError::UnknownMessageType),
    }
}

} // verus!

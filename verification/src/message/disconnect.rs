//! The message that ends a connection, and the reasons it can give.

use super::message_type::MessageType;
use super::{Message, MessageError};
use super::text::{lemma_text_written, read_text, text_at};
use crate::wire::{
    be32, from_be32, lemma_from_be32_of_be32, lemma_prefix_of_prefix, push_string, push_u32,
    read_u32, string_wire,
};
use vstd::prelude::*;
use vstd::string::*;
use vstd::utf8::encode_utf8;

verus! {

/// Why a connection is ended.
#[derive(Debug, PartialEq, Eq, Structural, Clone, Copy)]
pub enum DisconnectMessageType {
    HostNotAllowedToConnect,
    ProtocolError,
    KeyExchangeFailed,
    Reserved,
    MacError,
    CompressionError,
    ServiceNotAvailable,
    ProtocolVersionNotSupported,
    HostKeyNotVerifiable,
    ConnectionLost,
    ByApplication,
    TooManyConnections,
    AuthCancelledByUser,
    NoMoreAuthMethodsAvailable,
    IllegalUserName,
}

impl DisconnectMessageType {
    /// The reason code, a number from 1 to 15.
    pub open spec fn wire_code(&self) -> u32 {
        match self {
            DisconnectMessageType::HostNotAllowedToConnect => 1,
            DisconnectMessageType::ProtocolError => 2,
            DisconnectMessageType::KeyExchangeFailed => 3,
            DisconnectMessageType::Reserved => 4,
            DisconnectMessageType::MacError => 5,
            DisconnectMessageType::CompressionError => 6,
            DisconnectMessageType::ServiceNotAvailable => 7,
            DisconnectMessageType::ProtocolVersionNotSupported => 8,
            DisconnectMessageType::HostKeyNotVerifiable => 9,
            DisconnectMessageType::ConnectionLost => 10,
            DisconnectMessageType::ByApplication => 11,
            DisconnectMessageType::TooManyConnections => 12,
            DisconnectMessageType::AuthCancelledByUser => 13,
            DisconnectMessageType::NoMoreAuthMethodsAvailable => 14,
            DisconnectMessageType::IllegalUserName => 15,
        }
    }

    /// The reason that a code stands for, where it stands for one.
    pub open spec fn of_code(code: u32) -> Option<DisconnectMessageType> {
        if code == 1 {
            Some(DisconnectMessageType::HostNotAllowedToConnect)
        } else if code == 2 {
            Some(DisconnectMessageType::ProtocolError)
        } else if code == 3 {
            Some(DisconnectMessageType::KeyExchangeFailed)
        } else if code == 4 {
            Some(DisconnectMessageType::Reserved)
        } else if code == 5 {
            Some(DisconnectMessageType::MacError)
        } else if code == 6 {
            Some(DisconnectMessageType::CompressionError)
        } else if code == 7 {
            Some(DisconnectMessageType::ServiceNotAvailable)
        } else if code == 8 {
            Some(DisconnectMessageType::ProtocolVersionNotSupported)
        } else if code == 9 {
            Some(DisconnectMessageType::HostKeyNotVerifiable)
        } else if code == 10 {
            Some(DisconnectMessageType::ConnectionLost)
        } else if code == 11 {
            Some(DisconnectMessageType::ByApplication)
        } else if code == 12 {
            Some(DisconnectMessageType::TooManyConnections)
        } else if code == 13 {
            Some(DisconnectMessageType::AuthCancelledByUser)
        } else if code == 14 {
            Some(DisconnectMessageType::NoMoreAuthMethodsAvailable)
        } else if code == 15 {
            Some(DisconnectMessageType::IllegalUserName)
        } else {
            None
        }
    }

    /// The reason code.
    pub fn code(&self) -> (code: u32)
        ensures
            code == self.wire_code(),
    {
        match self {
            DisconnectMessageType::HostNotAllowedToConnect => 1,
            DisconnectMessageType::ProtocolError => 2,
            DisconnectMessageType::KeyExchangeFailed => 3,
            DisconnectMessageType::Reserved => 4,
            DisconnectMessageType::MacError => 5,
            DisconnectMessageType::CompressionError => 6,
            DisconnectMessageType::ServiceNotAvailable => 7,
            DisconnectMessageType::ProtocolVersionNotSupported => 8,
            DisconnectMessageType::HostKeyNotVerifiable => 9,
            DisconnectMessageType::ConnectionLost => 10,
            DisconnectMessageType::ByApplication => 11,
            DisconnectMessageType::TooManyConnections => 12,
            DisconnectMessageType::AuthCancelledByUser => 13,
            DisconnectMessageType::NoMoreAuthMethodsAvailable => 14,
            DisconnectMessageType::IllegalUserName => 15,
        }
    }

    /// The reason that a code stands for; `None` for a code of no reason.
    pub fn from_code(code: u32) -> (reason: Option<DisconnectMessageType>)
        ensures
            reason == Self::of_code(code),
    {
        match code {
            1 => Some(DisconnectMessageType::HostNotAllowedToConnect),
            2 => Some(DisconnectMessageType::ProtocolError),
            3 => Some(DisconnectMessageType::KeyExchangeFailed),
            4 => Some(DisconnectMessageType::Reserved),
            5 => Some(DisconnectMessageType::MacError),
            6 => Some(DisconnectMessageType::CompressionError),
            7 => Some(DisconnectMessageType::ServiceNotAvailable),
            8 => Some(DisconnectMessageType::ProtocolVersionNotSupported),
            9 => Some(DisconnectMessageType::HostKeyNotVerifiable),
            10 => Some(DisconnectMessageType::ConnectionLost),
            11 => Some(DisconnectMessageType::ByApplication),
            12 => Some(DisconnectMessageType::TooManyConnections),
            13 => Some(DisconnectMessageType::AuthCancelledByUser),
            14 => Some(DisconnectMessageType::NoMoreAuthMethodsAvailable),
            15 => Some(DisconnectMessageType::IllegalUserName),
            _ => None,
        }
    }
}

/// A code determines its reason, and a reason its code.
pub proof fn lemma_code_determines_reason(reason: DisconnectMessageType, code: u32)
    ensures
        DisconnectMessageType::of_code(reason.wire_code()) == Some(reason),
        DisconnectMessageType::of_code(code) == Some(reason) <==> code == reason.wire_code(),
{
}

/// The length of the shortest message: the tag, the reason code and the lengths of two empty
/// texts.
pub const MIN_LENGTH: usize = 13;

/// The message that ends a connection: why, a description for a human reader, and the language
/// of the description.
#[derive(Debug, PartialEq, Eq)]
pub struct DisconnectMessage {
    pub reason: DisconnectMessageType,
    pub description: String,
    pub language: String,
}

/// A `DisconnectMessage` with its texts as sequences of characters.
pub struct DisconnectView {
    pub reason: DisconnectMessageType,
    pub description: Seq<char>,
    pub language: Seq<char>,
}

impl View for DisconnectMessage {
    type V = DisconnectView;

    open spec fn view(&self) -> DisconnectView {
        DisconnectView {
            reason: self.reason,
            description: self.description@,
            language: self.language@,
        }
    }
}

impl DisconnectView {
    /// The bytes of the message: the tag, the reason code in four bytes, the description and
    /// the language tag, each as a string.
    pub open spec fn wire(self) -> Seq<u8> {
        seq![MessageType::Disconnect.wire_tag()] + be32(self.reason.wire_code()) + string_wire(
            encode_utf8(self.description),
        ) + string_wire(encode_utf8(self.language))
    }

    /// Whether both texts fit the length field of a string.
    pub open spec fn encodable(self) -> bool {
        &&& encode_utf8(self.description).len() <= u32::MAX
        &&& encode_utf8(self.language).len() <= u32::MAX
    }

    /// What `data` decodes to. Data shorter than `MIN_LENGTH` is truncated, whatever it holds.
    /// Longer data must hold the tag of the message, the code of a reason, and two texts.
    pub open spec fn parse(data: Seq<u8>) -> Result<DisconnectView, MessageError> {
        if data.len() < MIN_LENGTH {
            Err(MessageError::Truncated)
        } else if data[0] != MessageType::Disconnect.wire_tag() {
            Err(MessageError::UnknownMessageType)
        } else {
            match DisconnectMessageType::of_code(from_be32(data.subrange(1, 5))) {
                None => Err(MessageError::InvalidField),
                Some(reason) => match text_at(data, 5) {
                    Err(e) => Err(e),
                    Ok((description, at)) => match text_at(data, at) {
                        Err(e) => Err(e),
                        Ok((language, _)) => Ok(DisconnectView { reason, description, language }),
                    },
                },
            }
        }
    }
}

/// Decoding inverts encoding: a message is read back from its bytes, whatever follows them.
pub proof fn lemma_parse_inverts_wire(message: DisconnectView, tail: Seq<u8>)
    requires
        message.encodable(),
    ensures
        DisconnectView::parse(message.wire() + tail) == Ok::<DisconnectView, MessageError>(message),
{
    let data = message.wire() + tail;
    let head = seq![MessageType::Disconnect.wire_tag()] + be32(message.reason.wire_code());
    let first = string_wire(encode_utf8(message.description));
    let second = string_wire(encode_utf8(message.language));
    assert(message.wire().is_prefix_of(data));
    lemma_prefix_of_prefix(head + first, second, data);
    lemma_prefix_of_prefix(head, first, data);
    lemma_text_written(head, message.description, data);
    lemma_text_written(head + first, message.language, data);
    lemma_from_be32_of_be32(message.reason.wire_code());
    lemma_code_determines_reason(message.reason, message.reason.wire_code());
    assert(data[0] == head[0]);
    assert(data.subrange(1, 5) =~= head.subrange(1, 5));
    assert(head.subrange(1, 5) =~= be32(message.reason.wire_code()));
}

impl DisconnectMessage {
    /// Decodes the message that `data` holds.
    pub fn decode_bytes(data: &[u8]) -> (r: Result<Self, MessageError>)
        ensures
            match DisconnectView::parse(data@) {
                Ok(message) => r matches Ok(m) && m@ == message,
                Err(e) => r == Err::<Self, MessageError>(e),
            },
    {
        if data.len() < MIN_LENGTH {
            return Err(MessageError::Truncated);
        }
        if data[0] != MessageType::Disconnect.tag() {
            return Err(MessageError::UnknownMessageType);
        }
        let reason = match DisconnectMessageType::from_code(read_u32(data, 1)) {
            Some(reason) => reason,
            None => {
                return Err(MessageError::InvalidField);
            },
        };
        let (description, at) = match read_text(data, 5) {
            Ok(read) => read,
            Err(e) => {
                return Err(e);
            },
        };
        let (language, _) = match read_text(data, at) {
            Ok(read) => read,
            Err(e) => {
                return Err(e);
            },
        };
        Ok(DisconnectMessage { reason, description, language })
    }
}

impl Message for DisconnectMessage {
    open spec fn kind() -> MessageType {
        MessageType::Disconnect
    }

    open spec fn encodable(&self) -> bool {
        self@.encodable()
    }

    open spec fn wire(&self) -> Seq<u8> {
        self@.wire()
    }

    open spec fn parse(data: Seq<u8>) -> Result<DisconnectView, MessageError> {
        DisconnectView::parse(data)
    }

    fn encode(&self) -> (bytes: Vec<u8>) {
        let mut encoded: Vec<u8> = Vec::new();
        encoded.push(self.get_type().tag());
        push_u32(&mut encoded, self.reason.code());
        push_string(&mut encoded, self.description.as_str().as_bytes());
        push_string(&mut encoded, self.language.as_str().as_bytes());
        encoded
    }

    fn get_type(&self) -> (kind: MessageType) {
        MessageType::Disconnect
    }

    fn decode(data: Vec<u8>) -> (r: Result<Self, MessageError>) {
        Self::decode_bytes(data.as_slice())
    }
}

} // verus!

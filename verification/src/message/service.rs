//! The request for a service, which follows the key exchange.

use super::message_type::MessageType;
use super::{Message, MessageError};
use crate::wire::{
    copy_range, lemma_string_at_wire, push_string, read_string, same_bytes, string_at,
    string_from_utf8, string_wire,
};
use vstd::prelude::*;
use vstd::string::*;
use vstd::utf8::{
    decode_utf8, encode_utf8, encode_utf8_decode_utf8, encode_utf8_valid_utf8, valid_utf8,
};

verus! {

/// A service that runs over the transport layer.
#[derive(Debug, PartialEq, Eq)]
pub enum SSHService {
    UserAuth,
    Connection,
    Named(String),
}

/// An `SSHService` with its name as a sequence of characters.
pub enum SSHServiceView {
    UserAuth,
    Connection,
    Named(Seq<char>),
}

impl View for SSHService {
    type V = SSHServiceView;

    open spec fn view(&self) -> SSHServiceView {
        match self {
            SSHService::UserAuth => SSHServiceView::UserAuth,
            SSHService::Connection => SSHServiceView::Connection,
            SSHService::Named(name) => SSHServiceView::Named(name@),
        }
    }
}

impl SSHServiceView {
    /// The name of the service.
    pub open spec fn text(self) -> Seq<char> {
        match self {
            SSHServiceView::UserAuth => "ssh-userauth"@,
            SSHServiceView::Connection => "ssh-connection"@,
            SSHServiceView::Named(name) => name,
        }
    }

    /// The service that a name on the wire stands for: one of the two that have a name of their
    /// own, else the service of that name, where the name is UTF-8.
    pub open spec fn of_name(name: Seq<u8>) -> Option<SSHServiceView> {
        if name == encode_utf8("ssh-userauth"@) {
            Some(SSHServiceView::UserAuth)
        } else if name == encode_utf8("ssh-connection"@) {
            Some(SSHServiceView::Connection)
        } else if valid_utf8(name) {
            Some(SSHServiceView::Named(decode_utf8(name)))
        } else {
            None
        }
    }

    /// Whether the service is written as itself: a named service is, unless its name is that of
    /// one of the two services that have a variant of their own.
    pub open spec fn canonical(self) -> bool {
        match self {
            SSHServiceView::Named(name) => name != "ssh-userauth"@ && name != "ssh-connection"@,
            _ => true,
        }
    }
}

/// The name of a service that is written as itself stands for that service.
pub proof fn lemma_of_name_inverts_text(service: SSHServiceView)
    requires
        service.canonical(),
    ensures
        SSHServiceView::of_name(encode_utf8(service.text())) == Some(service),
{
    reveal_strlit("ssh-userauth");
    reveal_strlit("ssh-connection");
    assert("ssh-userauth"@ != "ssh-connection"@);
    // Encoding is one to one, as decoding undoes it.
    encode_utf8_decode_utf8(service.text());
    encode_utf8_decode_utf8("ssh-userauth"@);
    encode_utf8_decode_utf8("ssh-connection"@);
    encode_utf8_valid_utf8(service.text());
    if service.text() != "ssh-userauth"@ {
        assert(encode_utf8(service.text()) != encode_utf8("ssh-userauth"@));
    }
    if service.text() != "ssh-connection"@ {
        assert(encode_utf8(service.text()) != encode_utf8("ssh-connection"@));
    }
}

impl SSHService {
    /// The name of the service.
    pub fn to_string(&self) -> (name: String)
        ensures
            name@ == self@.text(),
    {
        match self {
            Self::UserAuth => String::from_str("ssh-userauth"),
            Self::Connection => String::from_str("ssh-connection"),
            Self::Named(name) => name.clone(),
        }
    }

    /// The service that a name on the wire stands for.
    pub fn from_name(name: &[u8]) -> (service: Option<SSHService>)
        ensures
            match SSHServiceView::of_name(name@) {
                Some(s) => service matches Some(x) && x@ == s,
                None => service is None,
            },
    {
        if same_bytes(name, "ssh-userauth".as_bytes()) {
            Some(SSHService::UserAuth)
        } else if same_bytes(name, "ssh-connection".as_bytes()) {
            Some(SSHService::Connection)
        } else {
            let bytes = copy_range(name, 0, name.len());
            assert(bytes@ =~= name@);
            match string_from_utf8(bytes) {
                Some(text) => {
                    proof {
                        encode_utf8_decode_utf8(text@);
                    }
                    Some(SSHService::Named(text))
                },
                None => None,
            }
        }
    }
}

/// The length of the shortest request: the tag and the length of an empty name.
pub const MIN_LENGTH: usize = 5;

/// The request to start a service.
#[derive(Debug, PartialEq, Eq)]
pub struct ServiceRequest {
    pub service: SSHService,
}

/// A `ServiceRequest` with its name as a sequence of characters.
pub struct ServiceRequestView {
    pub service: SSHServiceView,
}

impl View for ServiceRequest {
    type V = ServiceRequestView;

    open spec fn view(&self) -> ServiceRequestView {
        ServiceRequestView { service: self.service@ }
    }
}

impl ServiceRequestView {
    /// The bytes of the request: the tag, then the name of the service as a string.
    pub open spec fn wire(self) -> Seq<u8> {
        seq![MessageType::ServiceRequest.wire_tag()] + string_wire(
            encode_utf8(self.service.text()),
        )
    }

    /// Whether the name of the service fits the length field of a string.
    pub open spec fn encodable(self) -> bool {
        encode_utf8(self.service.text()).len() <= u32::MAX
    }

    /// What `data` decodes to. Data shorter than `MIN_LENGTH` is truncated, whatever it holds.
    /// Longer data must hold the tag of a service request and, behind it, a string that names a
    /// service.
    pub open spec fn parse(data: Seq<u8>) -> Result<ServiceRequestView, MessageError> {
        if data.len() < MIN_LENGTH {
            Err(MessageError::Truncated)
        } else if data[0] != MessageType::ServiceRequest.wire_tag() {
            Err(MessageError::UnknownMessageType)
        } else {
            match string_at(data, 1) {
                None => Err(MessageError::Truncated),
                Some((name, _)) => match SSHServiceView::of_name(name) {
                    Some(service) => Ok(ServiceRequestView { service }),
                    None => Err(MessageError::InvalidField),
                },
            }
        }
    }
}

/// Decoding inverts encoding: a request for a service that is written as itself is read back
/// from its bytes, whatever follows them.
pub proof fn lemma_parse_inverts_wire(request: ServiceRequestView, tail: Seq<u8>)
    requires
        request.encodable(),
        request.service.canonical(),
    ensures
        ServiceRequestView::parse(request.wire() + tail) == Ok::<ServiceRequestView, MessageError>(
            request,
        ),
{
    let name = encode_utf8(request.service.text());
    let head = seq![MessageType::ServiceRequest.wire_tag()];
    lemma_string_at_wire(head, name, tail);
    lemma_of_name_inverts_text(request.service);
    assert((request.wire() + tail)[0] == head[0]);
}

impl ServiceRequest {
    /// Decodes the request that `data` holds.
    pub fn decode_bytes(data: &[u8]) -> (r: Result<Self, MessageError>)
        ensures
            match ServiceRequestView::parse(data@) {
                Ok(message) => r matches Ok(m) && m@ == message,
                Err(e) => r == Err::<Self, MessageError>(e),
            },
    {
        if data.len() < MIN_LENGTH {
            return Err(MessageError::Truncated);
        }
        if data[0] != MessageType::ServiceRequest.tag() {
            return Err(MessageError::UnknownMessageType);
        }
        let (from, to) = match read_string(data, 1) {
            Some(range) => range,
            None => {
                return Err(MessageError::Truncated);
            },
        };
        let name = vstd::slice::slice_subrange(data, from, to);
        match SSHService::from_name(name) {
            Some(service) => Ok(ServiceRequest { service }),
            None => Err(MessageError::InvalidField),
        }
    }
}

impl Message for ServiceRequest {
    open spec fn kind() -> MessageType {
        MessageType::ServiceRequest
    }

    open spec fn encodable(&self) -> bool {
        self@.encodable()
    }

    open spec fn wire(&self) -> Seq<u8> {
        self@.wire()
    }

    open spec fn parse(data: Seq<u8>) -> Result<ServiceRequestView, MessageError> {
        ServiceRequestView::parse(data)
    }

    fn get_type(&self) -> (kind: MessageType) {
        MessageType::ServiceRequest
    }

    fn decode(data: Vec<u8>) -> (r: Result<Self, MessageError>) {
        Self::decode_bytes(data.as_slice())
    }

    fn encode(&self) -> (bytes: Vec<u8>) {
        let mut encoded: Vec<u8> = Vec::new();
        encoded.push(self.get_type().tag());
        let service = self.service.to_string();
        push_string(&mut encoded, service.as_str().as_bytes());
        assert(encoded@ =~= self.wire());
        encoded
    }
}

} // verus!

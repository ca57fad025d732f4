//! The numbers that tell the messages of the protocol apart.

use vstd::prelude::*;

verus! {

/// The kinds of message, each with the tag that is the first byte of its encoding.
#[derive(Debug, PartialEq, Eq, Structural, Clone, Copy)]
pub enum MessageType {
    Disconnect,
    Ignore,
    Unimplemented,
    Debug,
    ServiceRequest,
    ServiceAccept,
    KexInit,
    NewKeys,
    UserauthRequest,
    UserauthFailure,
    UserauthSuccess,
    UserauthBanner,
    GlobalRequest,
    RequestSuccess,
    RequestFailure,
    ChannelOpen,
    ChannelOpenConfirmation,
    ChannelOpenFailure,
    ChannelWindowAdjust,
    ChannelData,
    ChannelExtendedData,
    ChannelEOF,
    ChannelClose,
    ChannelRequest,
    ChannelSuccess,
    ChannelFailure,
}

impl MessageType {
    /// The tag of the kind, a number from 1 to 100.
    pub open spec fn wire_tag(&self) -> u8 {
        match self {
            MessageType::Disconnect => 1,
            MessageType::Ignore => 2,
            MessageType::Unimplemented => 3,
            MessageType::Debug => 4,
            MessageType::ServiceRequest => 5,
            MessageType::ServiceAccept => 6,
            MessageType::KexInit => 20,
            MessageType::NewKeys => 21,
            MessageType::UserauthRequest => 50,
            MessageType::UserauthFailure => 51,
            MessageType::UserauthSuccess => 52,
            MessageType::UserauthBanner => 53,
            MessageType::GlobalRequest => 80,
            MessageType::RequestSuccess => 81,
            MessageType::RequestFailure => 82,
            MessageType::ChannelOpen => 90,
            MessageType::ChannelOpenConfirmation => 91,
            MessageType::ChannelOpenFailure => 92,
            MessageType::ChannelWindowAdjust => 93,
            MessageType::ChannelData => 94,
            MessageType::ChannelExtendedData => 95,
            MessageType::ChannelEOF => 96,
            MessageType::ChannelClose => 97,
            MessageType::ChannelRequest => 98,
            MessageType::ChannelSuccess => 99,
            MessageType::ChannelFailure => 100,
        }
    }

    /// The kind that a tag stands for, where it stands for one.
    pub open spec fn of_tag(tag: u8) -> Option<MessageType> {
        if tag == 1 {
            Some(MessageType::Disconnect)
        } else if tag == 2 {
            Some(MessageType::Ignore)
        } else if tag == 3 {
            Some(MessageType::Unimplemented)
        } else if tag == 4 {
            Some(MessageType::Debug)
        } else if tag == 5 {
            Some(MessageType::ServiceRequest)
        } else if tag == 6 {
            Some(MessageType::ServiceAccept)
        } else if tag == 20 {
            Some(MessageType::KexInit)
        } else if tag == 21 {
            Some(MessageType::NewKeys)
        } else if tag == 50 {
            Some(MessageType::UserauthRequest)
        } else if tag == 51 {
            Some(MessageType::UserauthFailure)
        } else if tag == 52 {
            Some(MessageType::UserauthSuccess)
        } else if tag == 53 {
            Some(MessageType::UserauthBanner)
        } else if tag == 80 {
            Some(MessageType::GlobalRequest)
        } else if tag == 81 {
            Some(MessageType::RequestSuccess)
        } else if tag == 82 {
            Some(MessageType::RequestFailure)
        } else if tag == 90 {
            Some(MessageType::ChannelOpen)
        } else if tag == 91 {
            Some(MessageType::ChannelOpenConfirmation)
        } else if tag == 92 {
            Some(MessageType::ChannelOpenFailure)
        } else if tag == 93 {
            Some(MessageType::ChannelWindowAdjust)
        } else if tag == 94 {
            Some(MessageType::ChannelData)
        } else if tag == 95 {
            Some(MessageType::ChannelExtendedData)
        } else if tag == 96 {
            Some(MessageType::ChannelEOF)
        } else if tag == 97 {
            Some(MessageType::ChannelClose)
        } else if tag == 98 {
            Some(MessageType::ChannelRequest)
        } else if tag == 99 {
            Some(MessageType::ChannelSuccess)
        } else if tag == 100 {
            Some(MessageType::ChannelFailure)
        } else {
            None
        }
    }

    /// The tag of the kind.
    pub fn tag(&self) -> (tag: u8)
        ensures
            tag == self.wire_tag(),
            1 <= tag <= 100,
    {
        match self {
            MessageType::Disconnect => 1,
            MessageType::Ignore => 2,
            MessageType::Unimplemented => 3,
            MessageType::Debug => 4,
            MessageType::ServiceRequest => 5,
            MessageType::ServiceAccept => 6,
            MessageType::KexInit => 20,
            MessageType::NewKeys => 21,
            MessageType::UserauthRequest => 50,
            MessageType::UserauthFailure => 51,
            MessageType::UserauthSuccess => 52,
            MessageType::UserauthBanner => 53,
            MessageType::GlobalRequest => 80,
            MessageType::RequestSuccess => 81,
            MessageType::RequestFailure => 82,
            MessageType::ChannelOpen => 90,
            MessageType::ChannelOpenConfirmation => 91,
            MessageType::ChannelOpenFailure => 92,
            MessageType::ChannelWindowAdjust => 93,
            MessageType::ChannelData => 94,
            MessageType::ChannelExtendedData => 95,
            MessageType::ChannelEOF => 96,
            MessageType::ChannelClose => 97,
            MessageType::ChannelRequest => 98,
            MessageType::ChannelSuccess => 99,
            MessageType::ChannelFailure => 100,
        }
    }

    /// The kind that a tag stands for; `None` for a tag of no kind.
    pub fn from_tag(tag: u8) -> (kind: Option<MessageType>)
        ensures
            kind == Self::of_tag(tag),
    {
        match tag {
            1 => Some(MessageType::Disconnect),
            2 => Some(MessageType::Ignore),
            3 => Some(MessageType::Unimplemented),
            4 => Some(MessageType::Debug),
            5 => Some(MessageType::ServiceRequest),
            6 => Some(MessageType::ServiceAccept),
            20 => Some(MessageType::KexInit),
            21 => Some(MessageType::NewKeys),
            50 => Some(MessageType::UserauthRequest),
            51 => Some(MessageType::UserauthFailure),
            52 => Some(MessageType::UserauthSuccess),
            53 => Some(MessageType::UserauthBanner),
            80 => Some(MessageType::GlobalRequest),
            81 => Some(MessageType::RequestSuccess),
            82 => Some(MessageType::RequestFailure),
            90 => Some(MessageType::ChannelOpen),
            91 => Some(MessageType::ChannelOpenConfirmation),
            92 => Some(MessageType::ChannelOpenFailure),
            93 => Some(MessageType::ChannelWindowAdjust),
            94 => Some(MessageType::ChannelData),
            95 => Some(MessageType::ChannelExtendedData),
            96 => Some(MessageType::ChannelEOF),
            97 => Some(MessageType::ChannelClose),
            98 => Some(MessageType::ChannelRequest),
            99 => Some(MessageType::ChannelSuccess),
            100 => Some(MessageType::ChannelFailure),
            _ => None,
        }
    }
}

/// A tag determines its kind: the kind of a kind's tag is that kind, and a tag that stands for a
/// kind is the tag of that kind. So no two kinds share a tag.
pub proof fn lemma_tag_determines_kind(kind: MessageType, tag: u8)
    ensures
        MessageType::of_tag(kind.wire_tag()) == Some(kind),
        1 <= kind.wire_tag() <= 100,
        MessageType::of_tag(tag) == Some(kind) <==> tag == kind.wire_tag(),
{
}

} // verus!

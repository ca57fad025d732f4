//! The message that opens the key exchange.

use super::algorithm::{
    CompressionAlgorithm, EncryptionAlgorithm, KexAlgorithm, Language, MacAlgorithm,
};
use super::message_type::MessageType;
use super::name_list::{
    lemma_name_list_wire_length, lemma_pair_written, name_list_fits, name_list_wire, pair_at,
    round_trips, NameList,
};
use super::{Message, MessageError};
use crate::wire::{
    be32, from_be32, lemma_from_be32_of_be32, lemma_prefix_of_prefix, push_u32, read_u32,
};
use vstd::prelude::*;

verus! {

/// The number of bytes of the cookie.
pub const COOKIE_LENGTH: usize = 16;

/// The length of the shortest message: the tag, the cookie, ten empty name lists, the boolean
/// and the reserved field.
pub const MIN_LENGTH: usize = 62;

/// The message that opens the key exchange: a random cookie, the algorithms that the sender
/// supports, in the order of its preference, and whether a guessed key exchange packet follows.
#[derive(Debug, PartialEq, Eq)]
pub struct KexInitMessage {
    pub cookie: [u8; 16],
    pub kex_algorithms: NameList<KexAlgorithm>,
    pub server_host_key_algorithms: NameList<KexAlgorithm>,
    pub encryption_algorithms_client_to_server: NameList<EncryptionAlgorithm>,
    pub encryption_algorithms_server_to_client: NameList<EncryptionAlgorithm>,
    pub mac_algorithms_client_to_server: NameList<MacAlgorithm>,
    pub mac_algorithms_server_to_client: NameList<MacAlgorithm>,
    pub compression_algorithms_client_to_server: NameList<CompressionAlgorithm>,
    pub compression_algorithms_server_to_client: NameList<CompressionAlgorithm>,
    pub languages_client_to_server: NameList<Language>,
    pub languages_server_to_client: NameList<Language>,
    pub first_kex_packet_follows: bool,
    /// Reserved for future extension; encoded as zero whatever it holds.
    pub reserved: u32,
}

/// A `KexInitMessage` with its lists as the sequences of their names.
pub struct KexInitView {
    pub cookie: Seq<u8>,
    pub kex_algorithms: Seq<Seq<u8>>,
    pub server_host_key_algorithms: Seq<Seq<u8>>,
    pub encryption_algorithms_client_to_server: Seq<Seq<u8>>,
    pub encryption_algorithms_server_to_client: Seq<Seq<u8>>,
    pub mac_algorithms_client_to_server: Seq<Seq<u8>>,
    pub mac_algorithms_server_to_client: Seq<Seq<u8>>,
    pub compression_algorithms_client_to_server: Seq<Seq<u8>>,
    pub compression_algorithms_server_to_client: Seq<Seq<u8>>,
    pub languages_client_to_server: Seq<Seq<u8>>,
    pub languages_server_to_client: Seq<Seq<u8>>,
    pub first_kex_packet_follows: bool,
    pub reserved: u32,
}

impl View for KexInitMessage {
    type V = KexInitView;

    open spec fn view(&self) -> KexInitView {
        KexInitView {
            cookie: self.cookie@,
            kex_algorithms: self.kex_algorithms@,
            server_host_key_algorithms: self.server_host_key_algorithms@,
            encryption_algorithms_client_to_server: self.encryption_algorithms_client_to_server@,
            encryption_algorithms_server_to_client: self.encryption_algorithms_server_to_client@,
            mac_algorithms_client_to_server: self.mac_algorithms_client_to_server@,
            mac_algorithms_server_to_client: self.mac_algorithms_server_to_client@,
            compression_algorithms_client_to_server: self.compression_algorithms_client_to_server@,
            compression_algorithms_server_to_client: self.compression_algorithms_server_to_client@,
            languages_client_to_server: self.languages_client_to_server@,
            languages_server_to_client: self.languages_server_to_client@,
            first_kex_packet_follows: self.first_kex_packet_follows,
            reserved: self.reserved,
        }
    }
}

/// The byte of a boolean: 1 for true, 0 for false.
pub open spec fn bool_byte(b: bool) -> u8 {
    if b {
        1
    } else {
        0
    }
}

impl KexInitView {
    /// The bytes of the message: the tag, the cookie, the ten name lists in their fixed order,
    /// the byte of the boolean, and four reserved bytes, which are zero.
    pub open spec fn wire(self) -> Seq<u8> {
        seq![MessageType::KexInit.wire_tag()] + self.cookie + name_list_wire(self.kex_algorithms)
            + name_list_wire(self.server_host_key_algorithms) + name_list_wire(
            self.encryption_algorithms_client_to_server,
        ) + name_list_wire(self.encryption_algorithms_server_to_client) + name_list_wire(
            self.mac_algorithms_client_to_server,
        ) + name_list_wire(self.mac_algorithms_server_to_client) + name_list_wire(
            self.compression_algorithms_client_to_server,
        ) + name_list_wire(self.compression_algorithms_server_to_client) + name_list_wire(
            self.languages_client_to_server,
        ) + name_list_wire(self.languages_server_to_client) + seq![
            bool_byte(self.first_kex_packet_follows),
        ] + be32(0)
    }

    /// Whether each list fits the length field of its string.
    pub open spec fn encodable(self) -> bool {
        &&& name_list_fits(self.kex_algorithms)
        &&& name_list_fits(self.server_host_key_algorithms)
        &&& name_list_fits(self.encryption_algorithms_client_to_server)
        &&& name_list_fits(self.encryption_algorithms_server_to_client)
        &&& name_list_fits(self.mac_algorithms_client_to_server)
        &&& name_list_fits(self.mac_algorithms_server_to_client)
        &&& name_list_fits(self.compression_algorithms_client_to_server)
        &&& name_list_fits(self.compression_algorithms_server_to_client)
        &&& name_list_fits(self.languages_client_to_server)
        &&& name_list_fits(self.languages_server_to_client)
    }

    /// Whether the message is read back from its encoding: its cookie has sixteen bytes, its
    /// reserved field is zero, and each of its lists is read back as a list of its type.
    pub open spec fn round_trips(self) -> bool {
        &&& self.cookie.len() == COOKIE_LENGTH
        &&& self.reserved == 0
        &&& round_trips::<KexAlgorithm>(self.kex_algorithms)
        &&& round_trips::<KexAlgorithm>(self.server_host_key_algorithms)
        &&& round_trips::<EncryptionAlgorithm>(self.encryption_algorithms_client_to_server)
        &&& round_trips::<EncryptionAlgorithm>(self.encryption_algorithms_server_to_client)
        &&& round_trips::<MacAlgorithm>(self.mac_algorithms_client_to_server)
        &&& round_trips::<MacAlgorithm>(self.mac_algorithms_server_to_client)
        &&& round_trips::<CompressionAlgorithm>(self.compression_algorithms_client_to_server)
        &&& round_trips::<CompressionAlgorithm>(self.compression_algorithms_server_to_client)
        &&& round_trips::<Language>(self.languages_client_to_server)
        &&& round_trips::<Language>(self.languages_server_to_client)
    }

    /// What follows the name lists, from `at` on: the byte of the boolean, where every byte but
    /// zero stands for true, and the reserved field.
    pub open spec fn parse_end(self, data: Seq<u8>, at: int) -> Result<KexInitView, MessageError> {
        if data.len() < at + 5 {
            Err(MessageError::Truncated)
        } else {
            Ok(
                KexInitView {
                    first_kex_packet_follows: data[at] != 0,
                    reserved: from_be32(data.subrange(at + 1, at + 5)),
                    ..self
                },
            )
        }
    }

    /// What `data` decodes to. Data shorter than `MIN_LENGTH` is truncated, whatever it holds.
    /// Longer data must hold the tag of the message; then sixteen bytes of cookie, the ten name
    /// lists, each with names of its type, the byte of the boolean and the reserved field are
    /// read.
    pub open spec fn parse(data: Seq<u8>) -> Result<KexInitView, MessageError> {
        if data.len() < MIN_LENGTH {
            Err(MessageError::Truncated)
        } else if data[0] != MessageType::KexInit.wire_tag() {
            Err(MessageError::UnknownMessageType)
        } else {
            match pair_at::<KexAlgorithm>(data, 1 + COOKIE_LENGTH) {
                Err(e) => Err(e),
                Ok((kex, host_key, at_encryption)) => match pair_at::<EncryptionAlgorithm>(
                    data,
                    at_encryption,
                ) {
                    Err(e) => Err(e),
                    Ok((encryption_in, encryption_out, at_mac)) => match pair_at::<MacAlgorithm>(
                        data,
                        at_mac,
                    ) {
                        Err(e) => Err(e),
                        Ok((mac_in, mac_out, at_compression)) => match pair_at::<
                            CompressionAlgorithm,
                        >(data, at_compression) {
                            Err(e) => Err(e),
                            Ok((compression_in, compression_out, at_languages)) => match pair_at::<
                                Language,
                            >(data, at_languages) {
                                Err(e) => Err(e),
                                Ok((languages_in, languages_out, at_end)) => (KexInitView {
                                    cookie: data.subrange(1, 1 + COOKIE_LENGTH),
                                    kex_algorithms: kex,
                                    server_host_key_algorithms: host_key,
                                    encryption_algorithms_client_to_server: encryption_in,
                                    encryption_algorithms_server_to_client: encryption_out,
                                    mac_algorithms_client_to_server: mac_in,
                                    mac_algorithms_server_to_client: mac_out,
                                    compression_algorithms_client_to_server: compression_in,
                                    compression_algorithms_server_to_client: compression_out,
                                    languages_client_to_server: languages_in,
                                    languages_server_to_client: languages_out,
                                    first_kex_packet_follows: false,
                                    reserved: 0,
                                }).parse_end(data, at_end),
                            },
                        },
                    },
                },
            }
        }
    }
}

/// The length of an encoded message is 1 for the tag, 16 for the cookie, the lengths of the ten
/// encoded name lists, 1 for the boolean and 4 for the reserved field.
pub proof fn lemma_wire_length(message: KexInitView)
    requires
        message.cookie.len() == COOKIE_LENGTH,
    ensures
        message.wire().len() == 1 + 16 + name_list_wire(message.kex_algorithms).len()
            + name_list_wire(message.server_host_key_algorithms).len() + name_list_wire(
            message.encryption_algorithms_client_to_server,
        ).len() + name_list_wire(message.encryption_algorithms_server_to_client).len()
            + name_list_wire(message.mac_algorithms_client_to_server).len() + name_list_wire(
            message.mac_algorithms_server_to_client,
        ).len() + name_list_wire(message.compression_algorithms_client_to_server).len()
            + name_list_wire(message.compression_algorithms_server_to_client).len()
            + name_list_wire(message.languages_client_to_server).len() + name_list_wire(
            message.languages_server_to_client,
        ).len() + 1 + 4,
{
}

/// Where the parts of a message lie in data that starts with them: each part, with all that
/// stands before it, starts the data.
proof fn lemma_layout(
    head: Seq<u8>,
    w0: Seq<u8>,
    w1: Seq<u8>,
    w2: Seq<u8>,
    w3: Seq<u8>,
    w4: Seq<u8>,
    w5: Seq<u8>,
    w6: Seq<u8>,
    w7: Seq<u8>,
    w8: Seq<u8>,
    w9: Seq<u8>,
    flag: Seq<u8>,
    reserved: Seq<u8>,
    tail: Seq<u8>,
)
    ensures
        ({
            let data = head + w0 + w1 + w2 + w3 + w4 + w5 + w6 + w7 + w8 + w9 + flag + reserved
                + tail;
            &&& head.is_prefix_of(data)
            &&& (head + w0 + w1).is_prefix_of(data)
            &&& (head + w0 + w1 + w2 + w3).is_prefix_of(data)
            &&& (head + w0 + w1 + w2 + w3 + w4 + w5).is_prefix_of(data)
            &&& (head + w0 + w1 + w2 + w3 + w4 + w5 + w6 + w7).is_prefix_of(data)
            &&& (head + w0 + w1 + w2 + w3 + w4 + w5 + w6 + w7 + w8 + w9).is_prefix_of(data)
            &&& (head + w0 + w1 + w2 + w3 + w4 + w5 + w6 + w7 + w8 + w9 + flag).is_prefix_of(data)
            &&& (head + w0 + w1 + w2 + w3 + w4 + w5 + w6 + w7 + w8 + w9 + flag
                + reserved).is_prefix_of(data)
        }),
{
    let h1 = head + w0 + w1;
    let h2 = h1 + w2 + w3;
    let h3 = h2 + w4 + w5;
    let h4 = h3 + w6 + w7;
    let h5 = h4 + w8 + w9;
    let h6 = h5 + flag;
    let h7 = h6 + reserved;
    let data = h7 + tail;
    assert(h7.is_prefix_of(data));
    lemma_prefix_of_prefix(h6, reserved, data);
    lemma_prefix_of_prefix(h5, flag, data);
    lemma_prefix_of_prefix(h4 + w8, w9, data);
    lemma_prefix_of_prefix(h4, w8, data);
    lemma_prefix_of_prefix(h3 + w6, w7, data);
    lemma_prefix_of_prefix(h3, w6, data);
    lemma_prefix_of_prefix(h2 + w4, w5, data);
    lemma_prefix_of_prefix(h2, w4, data);
    lemma_prefix_of_prefix(h1 + w2, w3, data);
    lemma_prefix_of_prefix(h1, w2, data);
    lemma_prefix_of_prefix(head + w0, w1, data);
    lemma_prefix_of_prefix(head, w0, data);
}

/// What the steps of decoding find in data that starts with an encoded message: each pair of
/// lists at its place, and behind the lists the boolean and the reserved field.
spec fn parts_found(
    data: Seq<u8>,
    message: KexInitView,
    at1: int,
    at2: int,
    at3: int,
    at4: int,
    at5: int,
) -> bool {
    &&& pair_at::<KexAlgorithm>(data, 1 + COOKIE_LENGTH) == Ok::<
        (Seq<Seq<u8>>, Seq<Seq<u8>>, int),
        MessageError,
    >((message.kex_algorithms, message.server_host_key_algorithms, at1))
    &&& pair_at::<EncryptionAlgorithm>(data, at1) == Ok::<
        (Seq<Seq<u8>>, Seq<Seq<u8>>, int),
        MessageError,
    >(
        (
            message.encryption_algorithms_client_to_server,
            message.encryption_algorithms_server_to_client,
            at2,
        ),
    )
    &&& pair_at::<MacAlgorithm>(data, at2) == Ok::<
        (Seq<Seq<u8>>, Seq<Seq<u8>>, int),
        MessageError,
    >(
        (
            message.mac_algorithms_client_to_server,
            message.mac_algorithms_server_to_client,
            at3,
        ),
    )
    &&& pair_at::<CompressionAlgorithm>(data, at3) == Ok::<
        (Seq<Seq<u8>>, Seq<Seq<u8>>, int),
        MessageError,
    >(
        (
            message.compression_algorithms_client_to_server,
            message.compression_algorithms_server_to_client,
            at4,
        ),
    )
    &&& pair_at::<Language>(data, at4) == Ok::<
        (Seq<Seq<u8>>, Seq<Seq<u8>>, int),
        MessageError,
    >((message.languages_client_to_server, message.languages_server_to_client, at5))
    &&& data.len() >= at5 + 5
    &&& data.len() >= MIN_LENGTH
    &&& data[0] == MessageType::KexInit.wire_tag()
    &&& data.subrange(1, 1 + COOKIE_LENGTH) == message.cookie
    &&& data[at5] == bool_byte(message.first_kex_packet_follows)
    &&& from_be32(data.subrange(at5 + 1, at5 + 5)) == message.reserved
}

/// Data in which the steps of decoding find the parts of a message decodes to that message.
proof fn lemma_parse_of_parts(
    data: Seq<u8>,
    message: KexInitView,
    at1: int,
    at2: int,
    at3: int,
    at4: int,
    at5: int,
)
    requires
        parts_found(data, message, at1, at2, at3, at4, at5),
    ensures
        KexInitView::parse(data) == Ok::<KexInitView, MessageError>(message),
{
}

impl KexInitView {
    /// The start of the encoded message, up to the end of the first `pairs` pairs of name lists.
    spec fn start(self, pairs: int) -> Seq<u8> {
        let s0 = seq![MessageType::KexInit.wire_tag()] + self.cookie;
        let s1 = s0 + name_list_wire(self.kex_algorithms) + name_list_wire(
            self.server_host_key_algorithms,
        );
        let s2 = s1 + name_list_wire(self.encryption_algorithms_client_to_server)
            + name_list_wire(self.encryption_algorithms_server_to_client);
        let s3 = s2 + name_list_wire(self.mac_algorithms_client_to_server) + name_list_wire(
            self.mac_algorithms_server_to_client,
        );
        let s4 = s3 + name_list_wire(self.compression_algorithms_client_to_server)
            + name_list_wire(self.compression_algorithms_server_to_client);
        let s5 = s4 + name_list_wire(self.languages_client_to_server) + name_list_wire(
            self.languages_server_to_client,
        );
        if pairs <= 0 {
            s0
        } else if pairs == 1 {
            s1
        } else if pairs == 2 {
            s2
        } else if pairs == 3 {
            s3
        } else if pairs == 4 {
            s4
        } else {
            s5
        }
    }
}

/// Every start of an encoded message starts the data that the message starts, and so does the
/// whole message.
proof fn lemma_starts(message: KexInitView, tail: Seq<u8>)
    ensures
        message.start(0).is_prefix_of(message.wire() + tail),
        message.start(1).is_prefix_of(message.wire() + tail),
        message.start(2).is_prefix_of(message.wire() + tail),
        message.start(3).is_prefix_of(message.wire() + tail),
        message.start(4).is_prefix_of(message.wire() + tail),
        message.start(5).is_prefix_of(message.wire() + tail),
        message.wire().is_prefix_of(message.wire() + tail),
        message.wire() == message.start(5) + seq![bool_byte(message.first_kex_packet_follows)]
            + be32(0),
{
    lemma_layout(
        seq![MessageType::KexInit.wire_tag()] + message.cookie,
        name_list_wire(message.kex_algorithms),
        name_list_wire(message.server_host_key_algorithms),
        name_list_wire(message.encryption_algorithms_client_to_server),
        name_list_wire(message.encryption_algorithms_server_to_client),
        name_list_wire(message.mac_algorithms_client_to_server),
        name_list_wire(message.mac_algorithms_server_to_client),
        name_list_wire(message.compression_algorithms_client_to_server),
        name_list_wire(message.compression_algorithms_server_to_client),
        name_list_wire(message.languages_client_to_server),
        name_list_wire(message.languages_server_to_client),
        seq![bool_byte(message.first_kex_packet_follows)],
        be32(0),
        tail,
    );
}

/// The key exchange and host key algorithms are read back from an encoded message.
proof fn lemma_first_pair(message: KexInitView, tail: Seq<u8>)
    requires
        message.round_trips(),
    ensures
        pair_at::<KexAlgorithm>(message.wire() + tail, message.start(0).len() as int) == Ok::<
            (Seq<Seq<u8>>, Seq<Seq<u8>>, int),
            MessageError,
        >(
            (
                message.kex_algorithms,
                message.server_host_key_algorithms,
                message.start(1).len() as int,
            ),
        ),
{
    lemma_starts(message, tail);
    lemma_pair_written::<KexAlgorithm>(
        message.start(0),
        message.kex_algorithms,
        message.server_host_key_algorithms,
        message.wire() + tail,
    );
}

/// The encryption algorithms are read back from an encoded message.
proof fn lemma_second_pair(message: KexInitView, tail: Seq<u8>)
    requires
        message.round_trips(),
    ensures
        pair_at::<EncryptionAlgorithm>(message.wire() + tail, message.start(1).len() as int)
            == Ok::<(Seq<Seq<u8>>, Seq<Seq<u8>>, int), MessageError>(
            (
                message.encryption_algorithms_client_to_server,
                message.encryption_algorithms_server_to_client,
                message.start(2).len() as int,
            ),
        ),
{
    lemma_starts(message, tail);
    lemma_pair_written::<EncryptionAlgorithm>(
        message.start(1),
        message.encryption_algorithms_client_to_server,
        message.encryption_algorithms_server_to_client,
        message.wire() + tail,
    );
}

/// The MAC algorithms are read back from an encoded message.
proof fn lemma_third_pair(message: KexInitView, tail: Seq<u8>)
    requires
        message.round_trips(),
    ensures
        pair_at::<MacAlgorithm>(message.wire() + tail, message.start(2).len() as int) == Ok::<
            (Seq<Seq<u8>>, Seq<Seq<u8>>, int),
            MessageError,
        >(
            (
                message.mac_algorithms_client_to_server,
                message.mac_algorithms_server_to_client,
                message.start(3).len() as int,
            ),
        ),
{
    lemma_starts(message, tail);
    lemma_pair_written::<MacAlgorithm>(
        message.start(2),
        message.mac_algorithms_client_to_server,
        message.mac_algorithms_server_to_client,
        message.wire() + tail,
    );
}

/// The compression algorithms are read back from an encoded message.
proof fn lemma_fourth_pair(message: KexInitView, tail: Seq<u8>)
    requires
        message.round_trips(),
    ensures
        pair_at::<CompressionAlgorithm>(message.wire() + tail, message.start(3).len() as int)
            == Ok::<(Seq<Seq<u8>>, Seq<Seq<u8>>, int), MessageError>(
            (
                message.compression_algorithms_client_to_server,
                message.compression_algorithms_server_to_client,
                message.start(4).len() as int,
            ),
        ),
{
    lemma_starts(message, tail);
    lemma_pair_written::<CompressionAlgorithm>(
        message.start(3),
        message.compression_algorithms_client_to_server,
        message.compression_algorithms_server_to_client,
        message.wire() + tail,
    );
}

/// The languages are read back from an encoded message.
proof fn lemma_fifth_pair(message: KexInitView, tail: Seq<u8>)
    requires
        message.round_trips(),
    ensures
        pair_at::<Language>(message.wire() + tail, message.start(4).len() as int) == Ok::<
            (Seq<Seq<u8>>, Seq<Seq<u8>>, int),
            MessageError,
        >(
            (
                message.languages_client_to_server,
                message.languages_server_to_client,
                message.start(5).len() as int,
            ),
        ),
{
    lemma_starts(message, tail);
    lemma_pair_written::<Language>(
        message.start(4),
        message.languages_client_to_server,
        message.languages_server_to_client,
        message.wire() + tail,
    );
}

/// The tag, the cookie, the boolean and the reserved field are found in an encoded message.
proof fn lemma_fixed_fields(message: KexInitView, tail: Seq<u8>)
    requires
        message.cookie.len() == COOKIE_LENGTH,
    ensures
        ({
            let data = message.wire() + tail;
            let at = message.start(5).len() as int;
            &&& message.start(0).len() == 1 + COOKIE_LENGTH
            &&& data.len() >= at + 5
            &&& data[0] == MessageType::KexInit.wire_tag()
            &&& data.subrange(1, 1 + COOKIE_LENGTH) == message.cookie
            &&& data[at] == bool_byte(message.first_kex_packet_follows)
            &&& from_be32(data.subrange(at + 1, at + 5)) == 0
        }),
{
    let data = message.wire() + tail;
    let at = message.start(5).len() as int;
    let head = message.start(0);
    let whole = message.wire();
    lemma_starts(message, tail);
    lemma_from_be32_of_be32(0);
    assert(data[0] == head[0]);
    assert(data.subrange(1, 1 + COOKIE_LENGTH) =~= head.subrange(1, 1 + COOKIE_LENGTH));
    assert(head.subrange(1, 1 + COOKIE_LENGTH) =~= message.cookie);
    assert(data[at] == whole[at]);
    assert(data.subrange(at + 1, at + 5) =~= whole.subrange(at + 1, at + 5));
    assert(whole.subrange(at + 1, at + 5) =~= be32(0));
}

/// No encoded message is shorter than `MIN_LENGTH`.
pub proof fn lemma_min_length(message: KexInitView)
    requires
        message.cookie.len() == COOKIE_LENGTH,
    ensures
        message.wire().len() >= MIN_LENGTH,
{
    lemma_wire_length(message);
    lemma_name_list_wire_length(message.kex_algorithms);
    lemma_name_list_wire_length(message.server_host_key_algorithms);
    lemma_name_list_wire_length(message.encryption_algorithms_client_to_server);
    lemma_name_list_wire_length(message.encryption_algorithms_server_to_client);
    lemma_name_list_wire_length(message.mac_algorithms_client_to_server);
    lemma_name_list_wire_length(message.mac_algorithms_server_to_client);
    lemma_name_list_wire_length(message.compression_algorithms_client_to_server);
    lemma_name_list_wire_length(message.compression_algorithms_server_to_client);
    lemma_name_list_wire_length(message.languages_client_to_server);
    lemma_name_list_wire_length(message.languages_server_to_client);
}

/// Decoding inverts encoding: a message that `round_trips` is read back from its bytes,
/// whatever follows them.
pub proof fn lemma_parse_inverts_wire(message: KexInitView, tail: Seq<u8>)
    requires
        message.round_trips(),
    ensures
        KexInitView::parse(message.wire() + tail) == Ok::<KexInitView, MessageError>(message),
{
    lemma_first_pair(message, tail);
    lemma_second_pair(message, tail);
    lemma_third_pair(message, tail);
    lemma_fourth_pair(message, tail);
    lemma_fifth_pair(message, tail);
    lemma_fixed_fields(message, tail);
    lemma_min_length(message);
    lemma_parse_of_parts(
        message.wire() + tail,
        message,
        message.start(1).len() as int,
        message.start(2).len() as int,
        message.start(3).len() as int,
        message.start(4).len() as int,
        message.start(5).len() as int,
    );
}

impl KexInitMessage {
    /// Decodes the message that `data` holds.
    pub fn decode_bytes(data: &[u8]) -> (r: Result<Self, MessageError>)
        ensures
            match KexInitView::parse(data@) {
                Ok(message) => r matches Ok(m) && m@ == message,
                Err(e) => r == Err::<Self, MessageError>(e),
            },
    {
        if data.len() < MIN_LENGTH {
            return Err(MessageError::Truncated);
        }
        if data[0] != MessageType::KexInit.tag() {
            return Err(MessageError::UnknownMessageType);
        }
        let cookie: [u8; 16] = [
            data[1],
            data[2],
            data[3],
            data[4],
            data[5],
            data[6],
            data[7],
            data[8],
            data[9],
            data[10],
            data[11],
            data[12],
            data[13],
            data[14],
            data[15],
            data[16],
        ];
        assert(cookie@ =~= data@.subrange(1, 1 + COOKIE_LENGTH));
        let (kex_algorithms, server_host_key_algorithms, at) = match NameList::<
            KexAlgorithm,
        >::decode_pair(data, 1 + COOKIE_LENGTH) {
            Ok(read) => read,
            Err(e) => {
                return Err(e);
            },
        };
        let (
            encryption_algorithms_client_to_server,
            encryption_algorithms_server_to_client,
            at,
        ) = match NameList::<EncryptionAlgorithm>::decode_pair(data, at) {
            Ok(read) => read,
            Err(e) => {
                return Err(e);
            },
        };
        let (mac_algorithms_client_to_server, mac_algorithms_server_to_client, at) = match NameList::<
            MacAlgorithm,
        >::decode_pair(data, at) {
            Ok(read) => read,
            Err(e) => {
                return Err(e);
            },
        };
        let (
            compression_algorithms_client_to_server,
            compression_algorithms_server_to_client,
            at,
        ) = match NameList::<CompressionAlgorithm>::decode_pair(data, at) {
            Ok(read) => read,
            Err(e) => {
                return Err(e);
            },
        };
        let (languages_client_to_server, languages_server_to_client, at) = match NameList::<
            Language,
        >::decode_pair(data, at) {
            Ok(read) => read,
            Err(e) => {
                return Err(e);
            },
        };
        if data.len() - at < 5 {
            return Err(MessageError::Truncated);
        }
        let first_kex_packet_follows = data[at] != 0;
        let reserved = read_u32(data, at + 1);
        Ok(
            KexInitMessage {
                cookie,
                kex_algorithms,
                server_host_key_algorithms,
                encryption_algorithms_client_to_server,
                encryption_algorithms_server_to_client,
                mac_algorithms_client_to_server,
                mac_algorithms_server_to_client,
                compression_algorithms_client_to_server,
                compression_algorithms_server_to_client,
                languages_client_to_server,
                languages_server_to_client,
                first_kex_packet_follows,
                reserved,
            },
        )
    }
}

impl Message for KexInitMessage {
    open spec fn kind() -> MessageType {
        MessageType::KexInit
    }

    open spec fn encodable(&self) -> bool {
        self@.encodable()
    }

    open spec fn wire(&self) -> Seq<u8> {
        self@.wire()
    }

    open spec fn parse(data: Seq<u8>) -> Result<KexInitView, MessageError> {
        KexInitView::parse(data)
    }

    fn encode(&self) -> (bytes: Vec<u8>) {
        let mut encoded: Vec<u8> = Vec::new();
        encoded.push(self.get_type().tag());
        let mut i: usize = 0;
        while i < COOKIE_LENGTH
            invariant
                i <= COOKIE_LENGTH,
                encoded@ == seq![MessageType::KexInit.wire_tag()] + self.cookie@.take(i as int),
            decreases COOKIE_LENGTH - i,
        {
            encoded.push(self.cookie[i]);
            i += 1;
            assert(encoded@ =~= seq![MessageType::KexInit.wire_tag()] + self.cookie@.take(
                i as int,
            ));
        }
        assert(self.cookie@.take(COOKIE_LENGTH as int) =~= self.cookie@);
        assert(encoded@ == seq![MessageType::KexInit.wire_tag()] + self.cookie@);

        let mut list = self.kex_algorithms.encode();
        encoded.append(&mut list);
        let mut list = self.server_host_key_algorithms.encode();
        encoded.append(&mut list);

        let mut list = self.encryption_algorithms_client_to_server.encode();
        encoded.append(&mut list);
        let mut list = self.encryption_algorithms_server_to_client.encode();
        encoded.append(&mut list);

        let mut list = self.mac_algorithms_client_to_server.encode();
        encoded.append(&mut list);
        let mut list = self.mac_algorithms_server_to_client.encode();
        encoded.append(&mut list);

        let mut list = self.compression_algorithms_client_to_server.encode();
        encoded.append(&mut list);
        let mut list = self.compression_algorithms_server_to_client.encode();
        encoded.append(&mut list);

        let mut list = self.languages_client_to_server.encode();
        encoded.append(&mut list);
        let mut list = self.languages_server_to_client.encode();
        encoded.append(&mut list);

        encoded.push(
            match self.first_kex_packet_follows {
                true => 1,
                false => 0,
            },
        );
        push_u32(&mut encoded, 0);
        encoded
    }

    fn get_type(&self) -> (kind: MessageType) {
        MessageType::KexInit
    }

    fn decode(data: Vec<u8>) -> (r: Result<Self, MessageError>) {
        Self::decode_bytes(data.as_slice())
    }
}

} // verus!

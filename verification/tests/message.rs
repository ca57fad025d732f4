use rust_ssh::message::disconnect::{DisconnectMessage, DisconnectMessageType};
use rust_ssh::message::{
    decode_message, AnyMessage, CompressionAlgorithm, EncryptionAlgorithm, KexAlgorithm,
    KexInitMessage, Language, MacAlgorithm, Message, MessageError, MessageType, NameList,
    SSHService, ServiceRequest,
};
use rust_ssh::wire::{copy_range, push_bytes, push_string, push_u32, read_string, read_u32, same_bytes};

fn names(list: &[&str]) -> NameList<String> {
    NameList::from(list.iter().map(|n| n.to_string()).collect::<Vec<String>>())
}

#[test]
fn name_list_encode_examples() {
    assert_eq!(names(&[]).encode(), vec![0, 0, 0, 0]);
    assert_eq!(names(&["a", "b"]).encode(), vec![0, 0, 0, 3, b'a', b',', b'b']);
    assert_eq!(names(&["zlib"]).encode(), vec![0, 0, 0, 4, b'z', b'l', b'i', b'b']);
    assert_eq!(
        names(&["zlib", "none"]).encode(),
        vec![0, 0, 0, 9, 0x7a, 0x6c, 0x69, 0x62, 0x2c, 0x6e, 0x6f, 0x6e, 0x65]
    );
    assert_eq!(names(&["a", "b"]).joined(), b"a,b".to_vec());
    assert_eq!(names(&[]).joined(), Vec::<u8>::new());
}

#[test]
fn name_list_items() {
    assert_eq!(names(&["a", "b"]).items(), &vec!["a".to_string(), "b".to_string()]);
    assert!(names(&[]).items().is_empty());
    let decoded = NameList::<CompressionAlgorithm>::decode(&[0, 0, 0, 4, b'n', b'o', b'n', b'e']);
    assert_eq!(decoded.unwrap().items(), &vec![CompressionAlgorithm::NoCompression]);
}

#[test]
fn name_list_length_counts_bytes() {
    let long = "n".repeat(300);
    let encoded = names(&[&long, "x"]).encode();
    assert_eq!(&encoded[..4], &[0, 0, 1, 46]);
    assert_eq!(encoded.len(), 4 + 302);
    assert_eq!(names(&["\u{e9}"]).encode(), vec![0, 0, 0, 2, 0xc3, 0xa9]);
}

#[test]
fn name_list_decode_inverts_encode() {
    let lists: Vec<Vec<&str>> = vec![
        vec![],
        vec!["a"],
        vec!["a", "b"],
        vec!["", ""],
        vec!["a", "", "b"],
        vec!["", "a"],
        vec!["a", ""],
        vec!["curve25519-sha256", "diffie-hellman-group14-sha256", "ext-info-c"],
    ];
    for list in lists {
        let encoded = names(&list).encode();
        assert_eq!(NameList::<String>::decode(&encoded), Ok(names(&list)));
    }
}

#[test]
fn name_list_of_one_empty_name_reads_back_empty() {
    let encoded = names(&[""]).encode();
    assert_eq!(encoded, vec![0, 0, 0, 0]);
    assert_eq!(NameList::<String>::decode(&encoded), Ok(names(&[])));
}

#[test]
fn name_list_decode_reads_what_the_length_says() {
    assert_eq!(NameList::<String>::decode(&[0, 0, 0, 0]), Ok(names(&[])));
    assert_eq!(NameList::<String>::decode(&[0, 0, 0, 1, b'a', b',', b'b']), Ok(names(&["a"])));
    assert_eq!(NameList::<String>::decode(&[0, 0, 0, 1, b',']), Ok(names(&["", ""])));
    assert_eq!(
        NameList::<String>::decode_at(&[7, 7, 0, 0, 0, 3, b'a', b',', b'b', 9], 2),
        Ok((names(&["a", "b"]), 9))
    );
}

#[test]
fn name_list_decode_truncated() {
    assert_eq!(NameList::<String>::decode(&[]), Err(MessageError::Truncated));
    assert_eq!(NameList::<String>::decode(&[0, 0, 0]), Err(MessageError::Truncated));
    assert_eq!(NameList::<String>::decode(&[0, 0, 0, 2, b'a']), Err(MessageError::Truncated));
    assert_eq!(
        NameList::<String>::decode(&[0xff, 0xff, 0xff, 0xff, b'a']),
        Err(MessageError::Truncated)
    );
    assert_eq!(NameList::<String>::decode_at(&[0, 0, 0, 0], 1), Err(MessageError::Truncated));
}

#[test]
fn name_list_decode_refuses_names_that_are_not_text() {
    assert_eq!(
        NameList::<String>::decode(&[0, 0, 0, 3, b'a', b',', 0xff]),
        Err(MessageError::InvalidField)
    );
    assert_eq!(
        NameList::<KexAlgorithm>::decode(&[0, 0, 0, 1, 0x80]),
        Err(MessageError::InvalidField)
    );
}

#[test]
fn compression_names() {
    let list = NameList::from(vec![CompressionAlgorithm::Zstd, CompressionAlgorithm::NoCompression]);
    let encoded = list.encode();
    assert_eq!(encoded, [&[0u8, 0, 0, 9][..], &b"zstd,none"[..]].concat());
    assert_eq!(NameList::<CompressionAlgorithm>::decode(&encoded), Ok(list));
    assert_eq!(
        NameList::<CompressionAlgorithm>::decode(&[&[0u8, 0, 0, 4][..], &b"zlib"[..]].concat()),
        Err(MessageError::InvalidField)
    );
    assert_eq!(
        NameList::<CompressionAlgorithm>::decode(&[&[0u8, 0, 0, 5][..], &b"none,"[..]].concat()),
        Err(MessageError::InvalidField)
    );
}

#[test]
fn named_algorithms() {
    let list = NameList::from(vec![
        EncryptionAlgorithm::Named("aes128-ctr".into()),
        EncryptionAlgorithm::Named("aes256-ctr".into()),
    ]);
    let encoded = list.encode();
    assert_eq!(encoded, [&[0u8, 0, 0, 21][..], &b"aes128-ctr,aes256-ctr"[..]].concat());
    assert_eq!(NameList::<EncryptionAlgorithm>::decode(&encoded), Ok(list));
    let macs = NameList::from(vec![MacAlgorithm::Named("hmac-sha2-256".into())]);
    assert_eq!(NameList::<MacAlgorithm>::decode(&macs.encode()), Ok(macs));
    let languages = NameList::from(vec![Language::Named("en-US".into())]);
    assert_eq!(NameList::<Language>::decode(&languages.encode()), Ok(languages));
    let kex = NameList::from(vec![KexAlgorithm::Named("curve25519-sha256".into())]);
    assert_eq!(NameList::<KexAlgorithm>::decode(&kex.encode()), Ok(kex));
}

#[test]
fn message_tags() {
    let all = [
        (MessageType::Disconnect, 1u8),
        (MessageType::Ignore, 2),
        (MessageType::Unimplemented, 3),
        (MessageType::Debug, 4),
        (MessageType::ServiceRequest, 5),
        (MessageType::ServiceAccept, 6),
        (MessageType::KexInit, 20),
        (MessageType::NewKeys, 21),
        (MessageType::UserauthRequest, 50),
        (MessageType::UserauthFailure, 51),
        (MessageType::UserauthSuccess, 52),
        (MessageType::UserauthBanner, 53),
        (MessageType::GlobalRequest, 80),
        (MessageType::RequestSuccess, 81),
        (MessageType::RequestFailure, 82),
        (MessageType::ChannelOpen, 90),
        (MessageType::ChannelOpenConfirmation, 91),
        (MessageType::ChannelOpenFailure, 92),
        (MessageType::ChannelWindowAdjust, 93),
        (MessageType::ChannelData, 94),
        (MessageType::ChannelExtendedData, 95),
        (MessageType::ChannelEOF, 96),
        (MessageType::ChannelClose, 97),
        (MessageType::ChannelRequest, 98),
        (MessageType::ChannelSuccess, 99),
        (MessageType::ChannelFailure, 100),
    ];
    for (kind, tag) in all {
        assert_eq!(kind.tag(), tag);
        assert_eq!(MessageType::from_tag(tag), Some(kind));
    }
    let known: Vec<u8> = all.iter().map(|(_, tag)| *tag).collect();
    for tag in 0..=255u8 {
        if !known.contains(&tag) {
            assert_eq!(MessageType::from_tag(tag), None);
        }
    }
}

#[test]
fn disconnect_reason_codes() {
    let all = [
        DisconnectMessageType::HostNotAllowedToConnect,
        DisconnectMessageType::ProtocolError,
        DisconnectMessageType::KeyExchangeFailed,
        DisconnectMessageType::Reserved,
        DisconnectMessageType::MacError,
        DisconnectMessageType::CompressionError,
        DisconnectMessageType::ServiceNotAvailable,
        DisconnectMessageType::ProtocolVersionNotSupported,
        DisconnectMessageType::HostKeyNotVerifiable,
        DisconnectMessageType::ConnectionLost,
        DisconnectMessageType::ByApplication,
        DisconnectMessageType::TooManyConnections,
        DisconnectMessageType::AuthCancelledByUser,
        DisconnectMessageType::NoMoreAuthMethodsAvailable,
        DisconnectMessageType::IllegalUserName,
    ];
    for (i, reason) in all.iter().enumerate() {
        assert_eq!(reason.code(), i as u32 + 1);
        assert_eq!(DisconnectMessageType::from_code(i as u32 + 1), Some(*reason));
    }
    assert_eq!(DisconnectMessageType::from_code(0), None);
    assert_eq!(DisconnectMessageType::from_code(16), None);
    assert_eq!(DisconnectMessageType::from_code(u32::MAX), None);
}

#[test]
fn service_request_encode() {
    let request = ServiceRequest { service: SSHService::UserAuth };
    assert_eq!(request.get_type(), MessageType::ServiceRequest);
    assert_eq!(request.encode(), [&[5u8, 0, 0, 0, 12][..], &b"ssh-userauth"[..]].concat());
    let request = ServiceRequest { service: SSHService::Connection };
    assert_eq!(request.encode(), [&[5u8, 0, 0, 0, 14][..], &b"ssh-connection"[..]].concat());
    let request = ServiceRequest { service: SSHService::Named("sftp".into()) };
    assert_eq!(request.encode(), [&[5u8, 0, 0, 0, 4][..], &b"sftp"[..]].concat());
    assert_eq!(SSHService::UserAuth.to_string(), "ssh-userauth");
    assert_eq!(SSHService::Connection.to_string(), "ssh-connection");
    assert_eq!(SSHService::Named("x y".into()).to_string(), "x y");
}

#[test]
fn service_request_decode() {
    for service in [
        SSHService::UserAuth,
        SSHService::Connection,
        SSHService::Named("sftp".into()),
        SSHService::Named("".into()),
    ] {
        let request = ServiceRequest { service };
        assert_eq!(ServiceRequest::decode(request.encode()), Ok(request));
    }
    // A named service with the name of a known one is read back as the known one.
    let request = ServiceRequest { service: SSHService::Named("ssh-userauth".into()) };
    assert_eq!(
        ServiceRequest::decode(request.encode()),
        Ok(ServiceRequest { service: SSHService::UserAuth })
    );
    assert_eq!(ServiceRequest::decode(vec![]), Err(MessageError::Truncated));
    // Data below the shortest request is truncated, whatever its tag.
    assert_eq!(ServiceRequest::decode(vec![20, 0]), Err(MessageError::Truncated));
    assert_eq!(ServiceRequest::decode(vec![20, 0, 0, 0]), Err(MessageError::Truncated));
    assert_eq!(ServiceRequest::decode(vec![20, 0, 0, 0, 0]), Err(MessageError::UnknownMessageType));
    assert_eq!(
        ServiceRequest::decode(vec![5, 0, 0, 0, 0]),
        Ok(ServiceRequest { service: SSHService::Named("".into()) })
    );
    assert_eq!(ServiceRequest::decode(vec![5, 0, 0, 0]), Err(MessageError::Truncated));
    assert_eq!(ServiceRequest::decode(vec![5, 0, 0, 0, 2, b'a']), Err(MessageError::Truncated));
    assert_eq!(ServiceRequest::decode(vec![5, 0, 0, 0, 1, 0xc3]), Err(MessageError::InvalidField));
    assert_eq!(
        ServiceRequest::decode(vec![5, 0, 0, 0, 1, b'a', 0xff]),
        Ok(ServiceRequest { service: SSHService::Named("a".into()) })
    );
}

fn empty_kex_init() -> KexInitMessage {
    KexInitMessage {
        cookie: [0; 16],
        kex_algorithms: vec![].into(),
        server_host_key_algorithms: vec![].into(),
        encryption_algorithms_client_to_server: vec![].into(),
        encryption_algorithms_server_to_client: vec![].into(),
        mac_algorithms_client_to_server: vec![].into(),
        mac_algorithms_server_to_client: vec![].into(),
        compression_algorithms_client_to_server: vec![].into(),
        compression_algorithms_server_to_client: vec![].into(),
        languages_client_to_server: vec![].into(),
        languages_server_to_client: vec![].into(),
        first_kex_packet_follows: false,
        reserved: 0,
    }
}

fn full_kex_init() -> KexInitMessage {
    KexInitMessage {
        cookie: [1, 2, 3, 4, 5, 6, 7, 8, 9, 10, 11, 12, 13, 14, 15, 16],
        kex_algorithms: vec![
            KexAlgorithm::Named("curve25519-sha256".into()),
            KexAlgorithm::Named("ecdh-sha2-nistp256".into()),
        ]
        .into(),
        server_host_key_algorithms: vec![KexAlgorithm::Named("ssh-ed25519".into())].into(),
        encryption_algorithms_client_to_server: vec![EncryptionAlgorithm::Named("aes128-ctr".into())]
            .into(),
        encryption_algorithms_server_to_client: vec![
            EncryptionAlgorithm::Named("aes128-ctr".into()),
            EncryptionAlgorithm::Named("aes256-ctr".into()),
        ]
        .into(),
        mac_algorithms_client_to_server: vec![MacAlgorithm::Named("hmac-sha2-256".into())].into(),
        mac_algorithms_server_to_client: vec![MacAlgorithm::Named("hmac-sha2-256".into())].into(),
        compression_algorithms_client_to_server: vec![CompressionAlgorithm::NoCompression].into(),
        compression_algorithms_server_to_client: vec![
            CompressionAlgorithm::NoCompression,
            CompressionAlgorithm::Zstd,
        ]
        .into(),
        languages_client_to_server: vec![].into(),
        languages_server_to_client: vec![Language::Named("en".into())].into(),
        first_kex_packet_follows: true,
        reserved: 0,
    }
}

#[test]
fn kex_init_encode_empty() {
    let message = empty_kex_init();
    assert_eq!(message.get_type(), MessageType::KexInit);
    let encoded = message.encode();
    let mut expected = vec![20u8];
    expected.extend_from_slice(&[0; 16]);
    expected.extend_from_slice(&[0; 40]);
    expected.push(0);
    expected.extend_from_slice(&[0; 4]);
    assert_eq!(encoded, expected);
    assert_eq!(encoded.len(), 1 + 16 + 10 * 4 + 1 + 4);
}

#[test]
fn kex_init_encode_length_and_layout() {
    let message = full_kex_init();
    let encoded = message.encode();
    let lists = message.kex_algorithms.encode().len()
        + message.server_host_key_algorithms.encode().len()
        + message.encryption_algorithms_client_to_server.encode().len()
        + message.encryption_algorithms_server_to_client.encode().len()
        + message.mac_algorithms_client_to_server.encode().len()
        + message.mac_algorithms_server_to_client.encode().len()
        + message.compression_algorithms_client_to_server.encode().len()
        + message.compression_algorithms_server_to_client.encode().len()
        + message.languages_client_to_server.encode().len()
        + message.languages_server_to_client.encode().len();
    assert_eq!(encoded.len(), 1 + 16 + lists + 1 + 4);
    assert_eq!(encoded.len(), 181);
    assert_eq!(encoded[0], 20);
    assert_eq!(&encoded[1..17], &message.cookie);
    assert_eq!(&encoded[17..21], &[0, 0, 0, 36]);
    assert_eq!(&encoded[21..57], &b"curve25519-sha256,ecdh-sha2-nistp256"[..]);
    assert_eq!(&encoded[57..61], &[0, 0, 0, 11]);
    assert_eq!(&encoded[encoded.len() - 5..], &[1, 0, 0, 0, 0]);
}

#[test]
fn kex_init_reserved_is_written_as_zero() {
    let mut message = empty_kex_init();
    message.reserved = 0x01020304;
    let encoded = message.encode();
    assert_eq!(&encoded[encoded.len() - 4..], &[0, 0, 0, 0]);
    assert_eq!(KexInitMessage::decode(encoded), Ok(empty_kex_init()));
}

#[test]
fn kex_init_decode_inverts_encode() {
    assert_eq!(KexInitMessage::decode(empty_kex_init().encode()), Ok(empty_kex_init()));
    assert_eq!(KexInitMessage::decode(full_kex_init().encode()), Ok(full_kex_init()));
    let mut followed = full_kex_init().encode();
    followed.extend_from_slice(&[1, 2, 3]);
    assert_eq!(KexInitMessage::decode(followed), Ok(full_kex_init()));
}

#[test]
fn kex_init_decode_reads_flag_and_reserved() {
    let mut encoded = empty_kex_init().encode();
    let n = encoded.len();
    encoded[n - 5] = 7;
    encoded[n - 4..].copy_from_slice(&[1, 2, 3, 4]);
    let mut expected = empty_kex_init();
    expected.first_kex_packet_follows = true;
    expected.reserved = 0x01020304;
    assert_eq!(KexInitMessage::decode(encoded), Ok(expected));
}

#[test]
fn kex_init_decode_errors() {
    assert_eq!(KexInitMessage::decode(vec![]), Err(MessageError::Truncated));
    assert_eq!(KexInitMessage::decode(vec![20; 16]), Err(MessageError::Truncated));
    assert_eq!(KexInitMessage::decode(vec![21; 80]), Err(MessageError::UnknownMessageType));
    assert_eq!(KexInitMessage::decode(vec![21; 62]), Err(MessageError::UnknownMessageType));
    // Data below the shortest message is truncated, whatever its tag and whatever it holds.
    assert_eq!(KexInitMessage::decode(vec![5]), Err(MessageError::Truncated));
    assert_eq!(KexInitMessage::decode(vec![5, 0, 0]), Err(MessageError::Truncated));
    assert_eq!(KexInitMessage::decode(vec![21; 61]), Err(MessageError::Truncated));
    let mut short = vec![20u8];
    short.extend_from_slice(&[0; 16]);
    short.extend_from_slice(&[0, 0, 0, 1, 0xff]);
    assert_eq!(KexInitMessage::decode(short.clone()), Err(MessageError::Truncated));
    short.extend_from_slice(&[0; 40]);
    assert_eq!(KexInitMessage::decode(short), Err(MessageError::InvalidField));
    assert_eq!(empty_kex_init().encode().len(), 62);
    let encoded = full_kex_init().encode();
    for cut in 1..encoded.len() {
        assert_eq!(
            KexInitMessage::decode(encoded[..cut].to_vec()),
            Err(MessageError::Truncated),
            "cut at {}",
            cut
        );
    }
    // An unknown compression algorithm.
    let mut data = vec![20u8];
    data.extend_from_slice(&[0; 16]);
    data.extend_from_slice(&[0; 24]);
    data.extend_from_slice(&[0, 0, 0, 4]);
    data.extend_from_slice(b"zlib");
    data.extend_from_slice(&[0; 12]);
    data.extend_from_slice(&[0; 5]);
    assert_eq!(KexInitMessage::decode(data), Err(MessageError::InvalidField));
}

#[test]
fn disconnect_encode_and_decode() {
    let message = DisconnectMessage {
        reason: DisconnectMessageType::ByApplication,
        description: "bye".into(),
        language: "en".into(),
    };
    assert_eq!(message.get_type(), MessageType::Disconnect);
    let encoded = message.encode();
    assert_eq!(
        encoded,
        vec![1, 0, 0, 0, 11, 0, 0, 0, 3, b'b', b'y', b'e', 0, 0, 0, 2, b'e', b'n']
    );
    assert_eq!(DisconnectMessage::decode(encoded), Ok(message));
    let message = DisconnectMessage {
        reason: DisconnectMessageType::MacError,
        description: "".into(),
        language: "".into(),
    };
    assert_eq!(message.encode(), vec![1, 0, 0, 0, 5, 0, 0, 0, 0, 0, 0, 0, 0]);
    assert_eq!(DisconnectMessage::decode(message.encode()), Ok(message));
}

#[test]
fn disconnect_decode_errors() {
    assert_eq!(DisconnectMessage::decode(vec![]), Err(MessageError::Truncated));
    // Data below the shortest message is truncated, whatever its tag and whatever it holds.
    assert_eq!(DisconnectMessage::decode(vec![2, 0, 0, 0, 1]), Err(MessageError::Truncated));
    assert_eq!(DisconnectMessage::decode(vec![1, 0, 0, 0]), Err(MessageError::Truncated));
    assert_eq!(DisconnectMessage::decode(vec![1, 0, 0, 0, 16]), Err(MessageError::Truncated));
    assert_eq!(DisconnectMessage::decode(vec![1; 12]), Err(MessageError::Truncated));
    assert_eq!(
        DisconnectMessage::decode(vec![2, 0, 0, 0, 1, 0, 0, 0, 0, 0, 0, 0, 0]),
        Err(MessageError::UnknownMessageType)
    );
    assert_eq!(
        DisconnectMessage::decode(vec![1, 0, 0, 0, 16, 0, 0, 0, 0, 0, 0, 0, 0]),
        Err(MessageError::InvalidField)
    );
    assert_eq!(
        DisconnectMessage::decode(vec![1, 0, 0, 0, 0, 0, 0, 0, 0, 0, 0, 0, 0]),
        Err(MessageError::InvalidField)
    );
    assert_eq!(DisconnectMessage::decode(vec![1, 0, 0, 0, 2]), Err(MessageError::Truncated));
    assert_eq!(
        DisconnectMessage::decode(vec![1, 0, 0, 0, 2, 0, 0, 0, 1, 0xff, 0, 0, 0, 0]),
        Err(MessageError::InvalidField)
    );
    assert_eq!(
        DisconnectMessage::decode(vec![1, 0, 0, 0, 2, 0, 0, 0, 1, b'x', 0, 0, 0]),
        Err(MessageError::Truncated)
    );
    assert_eq!(
        DisconnectMessage::decode(vec![1, 0, 0, 0, 2, 0, 0, 0, 1, b'x', 0, 0, 0, 1, 0x80]),
        Err(MessageError::InvalidField)
    );
}

#[test]
fn decode_message_dispatches_on_the_tag() {
    let disconnect = DisconnectMessage {
        reason: DisconnectMessageType::ProtocolError,
        description: "bad".into(),
        language: "".into(),
    };
    let encoded = disconnect.encode();
    assert_eq!(decode_message(&encoded), Ok(AnyMessage::Disconnect(disconnect)));
    let request = ServiceRequest { service: SSHService::Connection };
    let encoded = request.encode();
    assert_eq!(decode_message(&encoded), Ok(AnyMessage::ServiceRequest(request)));
    let encoded = full_kex_init().encode();
    assert_eq!(decode_message(&encoded), Ok(AnyMessage::KexInit(full_kex_init())));
    assert_eq!(decode_message(&[]), Err(MessageError::Truncated));
    assert_eq!(decode_message(&[0]), Err(MessageError::UnknownMessageType));
    assert_eq!(decode_message(&[21]), Err(MessageError::UnknownMessageType));
    assert_eq!(decode_message(&[200, 1, 2]), Err(MessageError::UnknownMessageType));
    assert_eq!(decode_message(&[5, 0, 0]), Err(MessageError::Truncated));
    assert_eq!(decode_message(&[20, 0]), Err(MessageError::Truncated));
    assert_eq!(decode_message(&[20]), Err(MessageError::Truncated));
    assert_eq!(decode_message(&[5]), Err(MessageError::Truncated));
    assert_eq!(decode_message(&[1]), Err(MessageError::Truncated));
}

#[test]
fn wire_primitives() {
    let mut out = vec![9u8];
    push_u32(&mut out, 0x01020304);
    assert_eq!(out, vec![9, 1, 2, 3, 4]);
    push_u32(&mut out, u32::MAX);
    push_u32(&mut out, 0);
    push_u32(&mut out, 256);
    assert_eq!(&out[5..], &[255, 255, 255, 255, 0, 0, 0, 0, 0, 0, 1, 0]);
    assert_eq!(read_u32(&out, 1), 0x01020304);
    assert_eq!(read_u32(&out, 5), u32::MAX);
    assert_eq!(read_u32(&out, 13), 256);
    let mut out = vec![];
    push_string(&mut out, b"abc");
    push_bytes(&mut out, &[7, 8]);
    assert_eq!(out, vec![0, 0, 0, 3, b'a', b'b', b'c', 7, 8]);
    assert_eq!(read_string(&out, 0), Some((4, 7)));
    assert_eq!(read_string(&out, 5), None);
    assert_eq!(read_string(&out, 9), None);
    assert_eq!(read_string(&[0, 0, 0, 0], 0), Some((4, 4)));
    assert_eq!(copy_range(&out, 4, 7), b"abc".to_vec());
    assert_eq!(copy_range(&out, 4, 4), Vec::<u8>::new());
    assert!(same_bytes(b"abc", b"abc"));
    assert!(!same_bytes(b"abc", b"abd"));
    assert!(!same_bytes(b"abc", b"ab"));
    assert!(same_bytes(b"", b""));
}

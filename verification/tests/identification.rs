use rust_ssh::identification::{Identification, IdentificationError, SSHVersion};
use rust_ssh::utils::character_constants::{ControlCharacter, CR, LF, SP};
use rust_ssh::utils::{chars_of, decimal_string, find_byte, find_char};

#[test]
fn test_openssh_ubuntu_identification_string() {
    let ident = Identification::decode_from_string("SSH-2.0-OpenSSH_7.6p1 Ubuntu-4ubuntu0.5\r\n".into());

    assert_eq!(ident, Ok(Identification::new(SSHVersion::Ver2, "OpenSSH_7.6p1".into(), Some("Ubuntu-4ubuntu0.5".into()))));
}

#[test]
fn test_ident_no_comment() {
    let ident = Identification::decode_from_string("SSH-2.0-rssh1.0\r\n".into());

    assert_eq!(ident, Ok(Identification::new(SSHVersion::Ver2, "rssh1.0".into(), None)));
}

#[test]
fn encode_default_ident() {
    assert_eq!(
        Identification::default_ident().try_encode_to_string(),
        Ok("SSH-2.0-rssh_0.1\r\n".to_string())
    );
    assert_eq!(
        Identification::new(SSHVersion::Ver2, "rssh_0.1".into(), None).try_encode_to_string(),
        Ok("SSH-2.0-rssh_0.1\r\n".to_string())
    );
    assert_eq!(
        Identification::default_ident(),
        Identification::new(SSHVersion::Ver2, "rssh_0.1".into(), None)
    );
}

#[test]
fn encode_with_comments_and_compatibility_version() {
    let id = Identification::new(SSHVersion::Ver2, "OpenSSH_7.6p1".into(), Some("Ubuntu-4ubuntu0.5".into()));
    assert_eq!(
        id.try_encode_to_string(),
        Ok("SSH-2.0-OpenSSH_7.6p1 Ubuntu-4ubuntu0.5\r\n".to_string())
    );
    let old = Identification::new(SSHVersion::Ver1 { minor: 99 }, "old_1".into(), Some("a b".into()));
    assert_eq!(old.try_encode_to_string(), Ok("SSH-1.99-old_1 a b\n".to_string()));
}

#[test]
fn identification_decode_inverts_encode() {
    let cases = vec![
        Identification::new(SSHVersion::Ver2, "soft".into(), None),
        Identification::new(SSHVersion::Ver2, "soft".into(), Some("".into())),
        Identification::new(SSHVersion::Ver2, "".into(), None),
        Identification::new(SSHVersion::Ver2, "with-dash".into(), Some("two words - more".into())),
        Identification::new(SSHVersion::Ver2, "caf\u{e9}".into(), Some("\u{4e2d}\u{6587}".into())),
        Identification::new(SSHVersion::Ver1 { minor: 99 }, "compat".into(), None),
        Identification::new(SSHVersion::Ver1 { minor: 99 }, "compat".into(), Some("line\r".into())),
    ];
    for id in cases {
        let line = id.try_encode_to_string().unwrap();
        assert_eq!(Identification::decode_from_string(line), Ok(id));
    }
}

#[test]
fn software_version_with_space_is_not_read_back() {
    let id = Identification::new(SSHVersion::Ver2, "two words".into(), None);
    let line = id.try_encode_to_string().unwrap();
    assert_eq!(
        Identification::decode_from_string(line),
        Ok(Identification::new(SSHVersion::Ver2, "two".into(), Some("words".into())))
    );
}

#[test]
fn encode_refuses_unsupported_version() {
    let e = Identification::new(SSHVersion::Ver1 { minor: 5 }, "x".into(), None)
        .try_encode_to_string()
        .unwrap_err();
    assert_eq!(e, IdentificationError::UnsupportedProtocolVersion { ver: "1.5".into() });
    assert_eq!(
        e.to_string(),
        "Got an unsupported version of the ssh protocol: expected (2.0 or 1.99) got 1.5"
    );
    // The version is refused before the line is looked at.
    let long = "x".repeat(300);
    assert_eq!(
        Identification::new(SSHVersion::Ver1 { minor: 0 }, long, None).try_encode_to_string(),
        Err(IdentificationError::UnsupportedProtocolVersion { ver: "1.0".into() })
    );
}

#[test]
fn encode_refuses_long_lines() {
    // "SSH-2.0-" and "\r\n" take 10 bytes: 245 more make 255, which is accepted.
    let fits = Identification::new(SSHVersion::Ver2, "a".repeat(245), None);
    let line = fits.try_encode_to_string().unwrap();
    assert_eq!(line.len(), 255);
    let over = Identification::new(SSHVersion::Ver2, "a".repeat(246), None);
    let expected = format!("SSH-2.0-{}\r\n", "a".repeat(246));
    assert_eq!(
        over.try_encode_to_string(),
        Err(IdentificationError::MaxLengthExceeded { length: 256, value: expected })
    );
    // The length is counted in bytes, not in characters.
    let wide = Identification::new(SSHVersion::Ver2, "\u{e9}".repeat(123), None);
    assert_eq!(
        wide.try_encode_to_string(),
        Err(IdentificationError::MaxLengthExceeded {
            length: 256,
            value: format!("SSH-2.0-{}\r\n", "\u{e9}".repeat(123)),
        })
    );
}

#[test]
fn encode_refuses_null_characters() {
    let id = Identification::new(SSHVersion::Ver2, "a\0b".into(), Some("c\0".into()));
    assert_eq!(
        id.try_encode_to_string(),
        Err(IdentificationError::ContainsNullCharacter {
            index: 9,
            value: "SSH-2.0-a\0b c\0\r\n".into(),
        })
    );
    // The index is a byte offset.
    let id = Identification::new(SSHVersion::Ver2, "\u{e9}\0".into(), None);
    assert_eq!(
        id.try_encode_to_string(),
        Err(IdentificationError::ContainsNullCharacter {
            index: 10,
            value: "SSH-2.0-\u{e9}\0\r\n".into(),
        })
    );
    // A line that is too long is reported as such, whatever it holds.
    let id = Identification::new(SSHVersion::Ver2, format!("\0{}", "a".repeat(300)), None);
    assert!(matches!(
        id.try_encode_to_string(),
        Err(IdentificationError::MaxLengthExceeded { length: 311, .. })
    ));
}

#[test]
fn decode_checks_length_and_null_first() {
    let long = format!("XYZ{}", "a".repeat(253));
    assert_eq!(
        Identification::decode_from_string(long.clone()),
        Err(IdentificationError::MaxLengthExceeded { length: 256, value: long })
    );
    assert_eq!(
        Identification::decode_from_string("XY\0Z".into()),
        Err(IdentificationError::ContainsNullCharacter { index: 2, value: "XY\0Z".into() })
    );
}

#[test]
fn decode_refuses_other_beginnings() {
    assert_eq!(
        Identification::decode_from_string("FOO-2.0-x\r\n".into()),
        Err(IdentificationError::InvalidStringBeginning { actual: "FOO-".into() })
    );
    assert_eq!(
        Identification::decode_from_string("SS".into()),
        Err(IdentificationError::InvalidStringBeginning { actual: "SS".into() })
    );
    assert_eq!(
        Identification::decode_from_string("".into()),
        Err(IdentificationError::InvalidStringBeginning { actual: "".into() })
    );
    assert_eq!(
        Identification::decode_from_string("ssh-2.0-x\r\n".into()),
        Err(IdentificationError::InvalidStringBeginning { actual: "ssh-".into() })
    );
}

#[test]
fn decode_refuses_other_versions() {
    assert_eq!(
        Identification::decode_from_string("SSH-2.01-x\r\n".into()),
        Err(IdentificationError::InvalidProtocolVersion { actual: "2.01".into() })
    );
    assert_eq!(
        Identification::decode_from_string("SSH-1.5-x\n".into()),
        Err(IdentificationError::InvalidProtocolVersion { actual: "1.5".into() })
    );
    assert_eq!(
        Identification::decode_from_string("SSH-2.0\r\n".into()),
        Err(IdentificationError::InvalidProtocolVersion { actual: "2.0\r\n".into() })
    );
    assert_eq!(
        Identification::decode_from_string("SSH-".into()),
        Err(IdentificationError::InvalidProtocolVersion { actual: "".into() })
    );
}

#[test]
fn decode_checks_the_ending_of_the_version() {
    // A bare line feed ends a line in compatibility mode only.
    assert_eq!(
        Identification::decode_from_string("SSH-2.0-soft\n".into()),
        Err(IdentificationError::InvalidEnding { actual: "ft\n".into() })
    );
    assert_eq!(
        Identification::decode_from_string("SSH-2.0-".into()),
        Err(IdentificationError::InvalidEnding { actual: ".0-".into() })
    );
    assert_eq!(
        Identification::decode_from_string("SSH-1.99-soft".into()),
        Err(IdentificationError::InvalidEnding { actual: "ft".into() })
    );
    assert_eq!(
        Identification::decode_from_string("SSH-1.99-soft\n".into()),
        Ok(Identification::new(SSHVersion::Ver1 { minor: 99 }, "soft".into(), None))
    );
    assert_eq!(
        Identification::decode_from_string("SSH-1.99-soft note\n".into()),
        Ok(Identification::new(SSHVersion::Ver1 { minor: 99 }, "soft".into(), Some("note".into())))
    );
    // In compatibility mode a carriage return before the line feed belongs to what precedes it.
    assert_eq!(
        Identification::decode_from_string("SSH-1.99-soft\r\n".into()),
        Ok(Identification::new(SSHVersion::Ver1 { minor: 99 }, "soft\r".into(), None))
    );
}

#[test]
fn decode_reads_software_version_and_comments() {
    assert_eq!(
        Identification::decode_from_string("SSH-2.0-\r\n".into()),
        Ok(Identification::new(SSHVersion::Ver2, "".into(), None))
    );
    assert_eq!(
        Identification::decode_from_string("SSH-2.0-soft \r\n".into()),
        Ok(Identification::new(SSHVersion::Ver2, "soft".into(), Some("".into())))
    );
    assert_eq!(
        Identification::decode_from_string("SSH-2.0- c d\r\n".into()),
        Ok(Identification::new(SSHVersion::Ver2, "".into(), Some("c d".into())))
    );
    assert_eq!(
        Identification::decode_from_string("SSH-2.0-a-b c-d\r\n".into()),
        Ok(Identification::new(SSHVersion::Ver2, "a-b".into(), Some("c-d".into())))
    );
}

#[test]
fn error_messages() {
    assert_eq!(
        IdentificationError::MaxLengthExceeded { length: 256, value: "abc".into() }.to_string(),
        "Identification String must not exceed 256 characters (got 256); Actual result string was abc"
    );
    assert_eq!(
        IdentificationError::ContainsNullCharacter { index: 0, value: "\0".into() }.to_string(),
        "Identification String must not contain the null character '\0', found at index 0 in \"\0\""
    );
    assert_eq!(
        IdentificationError::InvalidEnding { actual: "ft\n".into() }.to_string(),
        "Expected string to end with a carriage return followed by a line feed \"\\r\\n\", found \"ft\n\""
    );
    assert_eq!(
        IdentificationError::InvalidStringBeginning { actual: "FOO-".into() }.to_string(),
        "Expected identification string to start with \"SSH-\", got FOO-"
    );
    assert_eq!(
        IdentificationError::InvalidProtocolVersion { actual: "2.01".into() }.to_string(),
        "Expected a supported protocol version (2.0 or 1.99) got 2.01"
    );
    assert_eq!(
        IdentificationError::UnsupportedProtocolVersion { ver: "1.3".into() }.to_string(),
        "Got an unsupported version of the ssh protocol: expected (2.0 or 1.99) got 1.3"
    );
    assert_eq!(
        IdentificationError::MissingSoftwareVersion.to_string(),
        "No software version identifier in identification string"
    );
    assert_eq!(
        IdentificationError::ExpectedSpaceSeparator { actual: 'q', value: "qrs".into() }.to_string(),
        "Expected a space character separating protocol version and comments, got q in (\"qrs\")"
    );
    assert_eq!(
        IdentificationError::ExpectedSpaceSeparator { actual: '\u{e9}', value: "".into() }.to_string(),
        "Expected a space character separating protocol version and comments, got \u{e9} in (\"\")"
    );
}

#[test]
fn version_text() {
    assert_eq!(SSHVersion::Ver2.to_string(), "2.0");
    assert_eq!(SSHVersion::Ver1 { minor: 99 }.to_string(), "1.99");
    assert_eq!(SSHVersion::Ver1 { minor: 0 }.to_string(), "1.0");
    assert_eq!(SSHVersion::Ver1 { minor: 12345 }.to_string(), "1.12345");
}

#[test]
fn decimal_rendering() {
    assert_eq!(decimal_string(0), "0");
    assert_eq!(decimal_string(7), "7");
    assert_eq!(decimal_string(10), "10");
    assert_eq!(decimal_string(255), "255");
    assert_eq!(decimal_string(1000000), "1000000");
    assert_eq!(decimal_string(usize::MAX), usize::MAX.to_string());
}

#[test]
fn control_characters() {
    assert_eq!(ControlCharacter::C.as_str(), "^C");
    assert_eq!(ControlCharacter::D.as_str(), "^D");
    assert_eq!(CR, "\r");
    assert_eq!(LF, "\n");
    assert_eq!(SP, " ");
}

#[test]
fn finding_in_sequences() {
    let chars = chars_of("a-b-c");
    assert_eq!(chars, vec!['a', '-', 'b', '-', 'c']);
    assert_eq!(find_char(&chars, 0, 5, '-'), 1);
    assert_eq!(find_char(&chars, 2, 5, '-'), 3);
    assert_eq!(find_char(&chars, 4, 5, '-'), 5);
    assert_eq!(find_char(&chars, 2, 3, '-'), 3);
    assert_eq!(find_char(&chars, 0, 0, 'a'), 0);
    assert_eq!(find_byte(b"x,y", 0, 3, b','), 1);
    assert_eq!(find_byte(b"x,y", 2, 3, b','), 3);
    assert_eq!(chars_of("\u{e9}\u{4e2d}"), vec!['\u{e9}', '\u{4e2d}']);
}

#[test]
fn fields_of_a_decoded_line() {
    let id = Identification::decode_from_string("SSH-2.0-OpenSSH_9.6 Debian\r\n".into()).unwrap();
    assert_eq!(id.protocol_version(), SSHVersion::Ver2);
    assert_eq!(id.software_version(), "OpenSSH_9.6");
    assert_eq!(id.comments(), Some(&"Debian".to_string()));
    let id = Identification::new(SSHVersion::Ver1 { minor: 99 }, "x".into(), None);
    assert_eq!(id.protocol_version(), SSHVersion::Ver1 { minor: 99 });
    assert_eq!(id.software_version(), "x");
    assert_eq!(id.comments(), None);
}

#[test]
fn encode_inverts_decode() {
    for line in [
        "SSH-2.0-OpenSSH_7.6p1 Ubuntu-4ubuntu0.5\r\n",
        "SSH-2.0-rssh1.0\r\n",
        "SSH-2.0-\r\n",
        "SSH-2.0- \r\n",
        "SSH-2.0-a  b \r\n",
        "SSH-1.99-old\n",
        "SSH-1.99-old\r\n",
    ] {
        let id = Identification::decode_from_string(line.into()).unwrap();
        assert_eq!(id.try_encode_to_string(), Ok(line.to_string()));
    }
}

//! The identification line that both sides send before any packet.

pub mod identification_error;
pub mod ssh_version;

pub use identification_error::{IdentificationError, IdentificationErrorView};
pub use ssh_version::SSHVersion;

use crate::utils::character_constants::SP;
use crate::utils::{
    chars_of, find_char, first_index_of, lemma_first_index_of, lemma_first_index_of_is,
};
use ssh_version::lemma_text_of_compat;
use vstd::prelude::*;
use vstd::string::*;
use vstd::utf8::encode_utf8;

verus! {

/// The identification information for a ssh client or server as defined by IETF RFC 4253.
///
/// The most important function on this data structure is `try_encode_to_string` which will
/// attempt to create a identification string to be sent to the other partner in a connection.
#[derive(Debug, PartialEq, Eq)]
pub struct Identification {
    protocol_version: SSHVersion,
    software_version: String,
    comments: Option<String>,
}

/// An `Identification` with its strings as sequences of characters.
pub struct IdentificationView {
    pub protocol_version: SSHVersion,
    pub software_version: Seq<char>,
    pub comments: Option<Seq<char>>,
}

/// The characters of an optional string.
pub open spec fn optional_text(text: Option<String>) -> Option<Seq<char>> {
    match text {
        Some(t) => Some(t@),
        None => None,
    }
}

impl View for Identification {
    type V = IdentificationView;

    closed spec fn view(&self) -> IdentificationView {
        IdentificationView {
            protocol_version: self.protocol_version,
            software_version: self.software_version@,
            comments: optional_text(self.comments),
        }
    }
}

/// The longest identification line, terminator included, in bytes.
pub const MAX_LENGTH: usize = 255;

/// What every identification line starts with.
pub open spec fn prefix() -> Seq<char> {
    seq!['S', 'S', 'H', '-']
}

/// The line that announces `id`: `SSH-`, the version, `-`, the software version, the comments
/// behind a space where there are any, and the terminator of the version.
pub open spec fn rendered(id: IdentificationView) -> Seq<char> {
    prefix() + id.protocol_version.text() + seq!['-'] + id.software_version + (match id.comments {
        Some(c) => seq![' '] + c,
        None => Seq::empty(),
    }) + id.protocol_version.terminator()
}

/// What is wrong with a line whatever it announces: it is longer than `MAX_LENGTH` bytes in
/// UTF-8, or else it holds a null character.
pub open spec fn line_fault(line: Seq<char>) -> Option<IdentificationErrorView> {
    if encode_utf8(line).len() > MAX_LENGTH {
        Some(
            IdentificationErrorView::MaxLengthExceeded {
                length: encode_utf8(line).len(),
                value: line,
            },
        )
    } else if line.contains('\0') {
        Some(
            IdentificationErrorView::ContainsNullCharacter {
                index: encode_utf8(line.take(first_index_of(line, '\0'))).len(),
                value: line,
            },
        )
    } else {
        None
    }
}

/// The result of encoding `id`: an unsupported version is refused before anything is rendered;
/// after that the rendered line is returned unless `line_fault` finds it too long or holding a
/// null character.
pub open spec fn encode_spec(id: IdentificationView) -> Result<Seq<char>, IdentificationErrorView> {
    if !id.protocol_version.supported() {
        Err(IdentificationErrorView::UnsupportedProtocolVersion { ver: id.protocol_version.text() })
    } else {
        match line_fault(rendered(id)) {
            Some(e) => Err(e),
            None => Ok(rendered(id)),
        }
    }
}

/// The version that a version token stands for: `2.0` or `1.99`, and nothing else.
pub open spec fn version_of_token(token: Seq<char>) -> Option<SSHVersion> {
    if token == seq!['2', '.', '0'] {
        Some(SSHVersion::Ver2)
    } else if token == seq!['1', '.', '9', '9'] {
        Some(SSHVersion::Ver1 { minor: 99 })
    } else {
        None
    }
}

/// The token after `SSH-`: what stands before the next `-`, or all the rest where there is none.
pub open spec fn version_token(line: Seq<char>) -> Seq<char> {
    line.skip(4).take(first_index_of(line.skip(4), '-'))
}

/// What follows the version token of a line that announces `version`. The terminator of the
/// version must end the line; a `-` must follow the token; between that `-` and the terminator,
/// the software version runs up to the first space, and the comments are what follows that space.
pub open spec fn decode_body(line: Seq<char>, version: SSHVersion) -> Result<
    IdentificationView,
    IdentificationErrorView,
> {
    let terminator = version.terminator();
    let dash = 4 + version_token(line).len() as int;
    if !terminator.is_suffix_of(line) {
        Err(
            IdentificationErrorView::InvalidEnding {
                actual: line.skip(line.len() - terminator.len() - 1),
            },
        )
    } else if !(dash < line.len() && line[dash] == '-') {
        Err(IdentificationErrorView::MissingSoftwareVersion)
    } else {
        let body = line.subrange(dash + 1, line.len() - terminator.len());
        let space = first_index_of(body, ' ');
        if space == body.len() {
            Ok(
                IdentificationView {
                    protocol_version: version,
                    software_version: body,
                    comments: None,
                },
            )
        } else {
            Ok(
                IdentificationView {
                    protocol_version: version,
                    software_version: body.take(space),
                    comments: Some(body.skip(space + 1)),
                },
            )
        }
    }
}

/// The result of decoding a line, checked in this order: its length and null characters, the
/// prefix `SSH-`, the version token, and then what `decode_body` reads.
pub open spec fn decode_spec(line: Seq<char>) -> Result<
    IdentificationView,
    IdentificationErrorView,
> {
    match line_fault(line) {
        Some(e) => Err(e),
        None => {
            if !prefix().is_prefix_of(line) {
                Err(
                    IdentificationErrorView::InvalidStringBeginning {
                        actual: line.take(if line.len() < 4 { line.len() as int } else { 4 }),
                    },
                )
            } else {
                match version_of_token(version_token(line)) {
                    None => Err(
                        IdentificationErrorView::InvalidProtocolVersion {
                            actual: version_token(line),
                        },
                    ),
                    Some(version) => decode_body(line, version),
                }
            }
        },
    }
}

/// A decoding result with its strings as sequences of characters.
pub open spec fn decoded_view(r: Result<Identification, IdentificationError>) -> Result<
    IdentificationView,
    IdentificationErrorView,
> {
    match r {
        Ok(id) => Ok(id@),
        Err(e) => Err(e@),
    }
}

/// An encoding result with its strings as sequences of characters.
pub open spec fn encoded_view(r: Result<String, IdentificationError>) -> Result<
    Seq<char>,
    IdentificationErrorView,
> {
    match r {
        Ok(line) => Ok(line@),
        Err(e) => Err(e@),
    }
}

/// Encoding an identification of a supported version fails exactly on two faults of the rendered
/// line: one of more than `MAX_LENGTH` bytes is refused as too long; one within the limit that
/// holds a null character is refused for that; every other line is returned.
pub proof fn lemma_encode_faults(id: IdentificationView)
    requires
        id.protocol_version.supported(),
    ensures
        encode_utf8(rendered(id)).len() > MAX_LENGTH ==> encode_spec(id) == Err::<
            Seq<char>,
            IdentificationErrorView,
        >(
            IdentificationErrorView::MaxLengthExceeded {
                length: encode_utf8(rendered(id)).len(),
                value: rendered(id),
            },
        ),
        encode_utf8(rendered(id)).len() <= MAX_LENGTH && rendered(id).contains('\0')
            ==> encode_spec(id) == Err::<Seq<char>, IdentificationErrorView>(
            IdentificationErrorView::ContainsNullCharacter {
                index: encode_utf8(rendered(id).take(first_index_of(rendered(id), '\0'))).len(),
                value: rendered(id),
            },
        ),
        encode_utf8(rendered(id)).len() <= MAX_LENGTH && !rendered(id).contains('\0')
            ==> encode_spec(id) == Ok::<Seq<char>, IdentificationErrorView>(rendered(id)),
{
}

/// Decoding inverts encoding: where `id` can be encoded and its software version holds no space,
/// decoding the line that encoding gives yields `id` again.
pub proof fn lemma_decode_inverts_encode(id: IdentificationView)
    requires
        encode_spec(id) is Ok,
        !id.software_version.contains(' '),
    ensures
        encode_spec(id) == Ok::<Seq<char>, IdentificationErrorView>(rendered(id)),
        decode_spec(rendered(id)) == Ok::<IdentificationView, IdentificationErrorView>(id),
{
    let line = rendered(id);
    let version = id.protocol_version;
    let token = version.text();
    let terminator = version.terminator();
    let software = id.software_version;
    let tail = match id.comments {
        Some(c) => seq![' '] + c,
        None => Seq::empty(),
    };
    lemma_text_of_compat();
    assert(token == seq!['2', '.', '0'] || token == seq!['1', '.', '9', '9']);
    let dash = 4 + token.len() as int;
    assert(line =~= prefix() + token + seq!['-'] + (software + tail) + terminator);
    assert(prefix().is_prefix_of(line));
    assert(line.skip(4) =~= token + seq!['-'] + (software + tail) + terminator);
    lemma_first_index_of_is(line.skip(4), '-', token.len() as int);
    assert(version_token(line) =~= token);
    assert(version_of_token(token) == Some(version));
    assert(terminator.is_suffix_of(line));
    assert(line[dash] == '-');
    let body = line.subrange(dash + 1, line.len() - terminator.len());
    assert(body =~= software + tail);
    match id.comments {
        Some(c) => {
            assert forall|j: int| 0 <= j < software.len() implies body[j] != ' ' by {
                assert(body[j] == software[j]);
            }
            lemma_first_index_of_is(body, ' ', software.len() as int);
            assert(body.take(software.len() as int) =~= software);
            assert(body.skip(software.len() as int + 1) =~= c);
        },
        None => {
            lemma_first_index_of(body, ' ');
            assert(body =~= software);
        },
    }
}

/// Encoding inverts decoding: a line that can be decoded is the line that encoding gives for
/// what it decodes to. So what decoding gives can always be encoded.
pub proof fn lemma_encode_inverts_decode(line: Seq<char>)
    requires
        decode_spec(line) is Ok,
    ensures
        decode_spec(line) matches Ok(id) && encode_spec(id) == Ok::<
            Seq<char>,
            IdentificationErrorView,
        >(line),
{
    let id = decode_spec(line)->Ok_0;
    let version = id.protocol_version;
    let token = version_token(line);
    let terminator = version.terminator();
    let dash = 4 + token.len() as int;
    let stop = line.len() - terminator.len();
    lemma_text_of_compat();
    lemma_first_index_of(line.skip(4), '-');
    assert(version.text() == token);
    // The terminator holds no '-', so it starts behind the one that follows the token.
    assert(line[line.len() - 1] == terminator[terminator.len() - 1]);
    assert(line[stop] == terminator[0]);
    assert(dash < stop);
    let body = line.subrange(dash + 1, stop);
    let tail = match id.comments {
        Some(c) => seq![' '] + c,
        None => Seq::empty(),
    };
    lemma_first_index_of(body, ' ');
    let space = first_index_of(body, ' ');
    assert(body =~= id.software_version + tail);
    assert(line.subrange(0, 4) =~= prefix());
    assert(line.subrange(4, dash) =~= token);
    assert(line.subrange(stop, line.len() as int) =~= terminator);
    assert(line =~= prefix() + token + seq!['-'] + body + terminator);
    assert(line =~= rendered(id));
}

/// Decoding never reports a missing software version: a line that passes the checks before it
/// holds the `-` that is looked for. Nor does it report a missing space or an unsupported
/// version, which no step of it gives.
pub proof fn lemma_errors_that_decoding_never_gives(line: Seq<char>)
    ensures
        decode_spec(line) != Err::<IdentificationView, IdentificationErrorView>(
            IdentificationErrorView::MissingSoftwareVersion,
        ),
        !(decode_spec(line) matches Err(
            IdentificationErrorView::ExpectedSpaceSeparator { .. },
        )),
        !(decode_spec(line) matches Err(
            IdentificationErrorView::UnsupportedProtocolVersion { .. },
        )),
{
    if line_fault(line) is None && prefix().is_prefix_of(line) {
        let rest = line.skip(4);
        let token = version_token(line);
        lemma_first_index_of(rest, '-');
        if version_of_token(token) is Some {
            let version = version_of_token(token)->Some_0;
            let terminator = version.terminator();
            let dash = 4 + token.len() as int;
            if terminator.is_suffix_of(line) {
                // The line ends in a line feed, which the token does not hold: the token stops
                // before the end of the line, and so at a '-'.
                let last = line.len() - 1;
                assert(line[last] == terminator[terminator.len() - 1]);
                assert(line[last] == '\n');
                if first_index_of(rest, '-') == rest.len() {
                    assert(token =~= rest);
                    assert(rest[rest.len() - 1] == line[last]);
                    assert(token[token.len() - 1] == '\n');
                    assert(false);
                }
                assert(line[dash] == rest[first_index_of(rest, '-')]);
            }
        }
    }
}

/// Hands the line back unless `line_fault` finds something wrong with it.
fn check_line(line: String) -> (r: Result<String, IdentificationError>)
    ensures
        match line_fault(line@) {
            Some(e) => r matches Err(x) && x@ == e,
            None => r matches Ok(l) && l@ == line@,
        },
{
    let length = line.as_str().as_bytes().len();
    if length > MAX_LENGTH {
        return Err(IdentificationError::MaxLengthExceeded { length, value: line });
    }
    let chars = chars_of(line.as_str());
    let at = find_char(&chars, 0, chars.len(), '\0');
    proof {
        assert(chars@.subrange(0, chars@.len() as int) =~= line@);
        lemma_first_index_of(line@, '\0');
    }
    if at < chars.len() {
        let index = line.as_str().substring_char(0, at).as_bytes().len();
        assert(line@.subrange(0, at as int) =~= line@.take(at as int));
        Err(IdentificationError::ContainsNullCharacter { index, value: line })
    } else {
        Ok(line)
    }
}

impl Identification {
    /// Create a default identification structure using the standard ssh protocol version (2.0) as
    /// defined by RFC 4253.
    pub fn default_ident() -> (id: Self)
        ensures
            id@ == (IdentificationView {
                protocol_version: SSHVersion::Ver2,
                software_version: seq!['r', 's', 's', 'h', '_', '0', '.', '1'],
                comments: None,
            }),
    {
        proof {
            reveal_strlit("rssh_0.1");
        }
        let software_version = String::from_str("rssh_0.1");
        assert(software_version@ =~= seq!['r', 's', 's', 'h', '_', '0', '.', '1']);
        Identification { protocol_version: SSHVersion::Ver2, software_version, comments: None }
    }

    /// Generate a identification structure with the given information
    pub fn new(protocol_version: SSHVersion, software_version: String, comments: Option<
        String,
    >) -> (id: Self)
        ensures
            id@ == (IdentificationView {
                protocol_version,
                software_version: software_version@,
                comments: optional_text(comments),
            }),
    {
        Self { protocol_version, software_version, comments }
    }

    /// The protocol version that is announced.
    pub fn protocol_version(&self) -> (version: SSHVersion)
        ensures
            version == self@.protocol_version,
    {
        self.protocol_version
    }

    /// The software version that is announced.
    pub fn software_version(&self) -> (text: &String)
        ensures
            text@ == self@.software_version,
    {
        &self.software_version
    }

    /// The comments, where there are any.
    pub fn comments(&self) -> (text: Option<&String>)
        ensures
            match text {
                Some(t) => self@.comments == Some(t@),
                None => self@.comments is None,
            },
    {
        match &self.comments {
            Some(text) => Some(text),
            None => None,
        }
    }

    /// Attempt to create the Identification string that will be sent to the server/client;
    ///
    /// The function will return an error if the string including comments and the carriage return
    /// line feed combination would be more than `255` bytes as this is the maximum length
    /// allowed by RFC 4253, or if it would hold a null character.
    pub fn try_encode_to_string(&self) -> (r: Result<String, IdentificationError>)
        ensures
            encoded_view(r) == encode_spec(self@),
    {
        proof {
            reveal_strlit("SSH-");
            reveal_strlit("-");
            reveal_strlit(" ");
            reveal_strlit("\r\n");
            reveal_strlit("\n");
        }
        let ending = match self.protocol_version {
            SSHVersion::Ver2 => "\r\n",
            SSHVersion::Ver1 { minor } => {
                if minor == 99 {
                    "\n"
                } else {
                    return Err(
                        IdentificationError::UnsupportedProtocolVersion {
                            ver: self.protocol_version.to_string(),
                        },
                    );
                }
            },
        };
        assert(ending@ =~= self.protocol_version.terminator());
        let mut line = String::from_str("SSH-");
        line.append(self.protocol_version.to_string().as_str());
        line.append("-");
        line.append(self.software_version.as_str());
        // A space stands before the terminator only where there are comments.
        match &self.comments {
            Some(comments) => {
                line.append(SP);
                line.append(comments.as_str());
            },
            None => {},
        }
        line.append(ending);
        assert(line@ =~= rendered(self@));
        check_line(line)
    }

    /// Attempt to decode the protocol information from a string
    ///
    /// A line of version 2.0 must end in a carriage return and a line feed; a single line feed
    /// ends a line only in compatibility mode, that is for version 1.99.
    pub fn decode_from_string(identification_string: String) -> (r: Result<
        Self,
        IdentificationError,
    >)
        ensures
            decoded_view(r) == decode_spec(identification_string@),
    {
        let line = match check_line(identification_string) {
            Ok(line) => line,
            Err(e) => {
                return Err(e);
            },
        };
        let text = line.as_str();
        let chars = chars_of(text);
        let n = chars.len();
        let ghost s = text@;

        // Verify that this is indeed intended to be a SSH Identification string and not another
        // line of data that the ssh protocol allows to be sent before the identifier.
        if !(n >= 4 && chars[0] == 'S' && chars[1] == 'S' && chars[2] == 'H' && chars[3] == '-') {
            let k = if n < 4 {
                n
            } else {
                4
            };
            let actual = String::from_str(text.substring_char(0, k));
            return Err(IdentificationError::InvalidStringBeginning { actual });
        }
        assert(prefix().is_prefix_of(s));

        // The version token runs up to the next '-', so that something like '2.01' is not taken
        // for '2.0'.
        let dash = find_char(&chars, 4, n, '-');
        assert(chars@.subrange(4, n as int) =~= s.skip(4));
        proof {
            lemma_first_index_of(s.skip(4), '-');
        }
        let ghost token = version_token(s);
        assert(token =~= s.subrange(4, dash as int));
        let version = if dash - 4 == 3 && chars[4] == '2' && chars[5] == '.' && chars[6] == '0' {
            assert(token =~= seq!['2', '.', '0']);
            SSHVersion::Ver2
        } else if dash - 4 == 4 && chars[4] == '1' && chars[5] == '.' && chars[6] == '9'
            && chars[7] == '9' {
            assert(token =~= seq!['1', '.', '9', '9']);
            SSHVersion::Ver1 { minor: 99 }
        } else {
            assert(version_of_token(token) is None) by {
                if token == seq!['2', '.', '0'] {
                    assert(token[0] == '2' && token[1] == '.' && token[2] == '0');
                } else if token == seq!['1', '.', '9', '9'] {
                    assert(token[0] == '1' && token[1] == '.' && token[2] == '9' && token[3]
                        == '9');
                }
            }
            let actual = String::from_str(text.substring_char(4, dash));
            return Err(IdentificationError::InvalidProtocolVersion { actual });
        };
        assert(version_of_token(token) == Some(version));

        // The ending depends on the protocol version.
        let (ends, end_len): (bool, usize) = match version {
            SSHVersion::Ver2 => (chars[n - 2] == '\r' && chars[n - 1] == '\n', 2),
            SSHVersion::Ver1 { .. } => (chars[n - 1] == '\n', 1),
        };
        let ghost terminator = version.terminator();
        assert(end_len == terminator.len());
        assert(ends == terminator.is_suffix_of(s)) by {
            if ends {
                assert(terminator =~= s.subrange(n - end_len, n as int));
            } else {
                let tail = s.subrange(n - end_len, n as int);
                assert(tail[end_len - 1] == s[n - 1]);
                assert(tail[0] == s[n - end_len]);
            }
        }
        if !ends {
            let actual = String::from_str(text.substring_char(n - end_len - 1, n));
            return Err(IdentificationError::InvalidEnding { actual });
        }
        if !(dash < n && chars[dash] == '-') {
            return Err(IdentificationError::MissingSoftwareVersion);
        }
        // The terminator holds no '-', so it starts behind the one that follows the token.
        assert(dash + 1 <= n - end_len);

        let stop = n - end_len;
        let space = find_char(&chars, dash + 1, stop, ' ');
        let ghost body = s.subrange(dash + 1, stop as int);
        assert(chars@.subrange(dash + 1, stop as int) =~= body);
        proof {
            lemma_first_index_of(body, ' ');
        }
        if space == stop {
            let software_version = String::from_str(text.substring_char(dash + 1, stop));
            Ok(Identification::new(version, software_version, None))
        } else {
            let software_version = String::from_str(text.substring_char(dash + 1, space));
            let comments = String::from_str(text.substring_char(space + 1, stop));
            assert(software_version@ =~= body.take(space - (dash + 1)));
            assert(comments@ =~= body.skip(space - (dash + 1) + 1));
            Ok(Identification::new(version, software_version, Some(comments)))
        }
    }
}

} // verus!

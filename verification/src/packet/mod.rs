//! The binary packet: one message, framed with its length and padded to the block size of the
//! cipher, and followed by the tag of the message authentication code.

use crate::encryption::Cipher;
use crate::mac::Mac;
use crate::wire::{
    be32, copy_range, from_be32, lemma_from_be32_of_be32, push_bytes, push_u32, read_u32,
};
use vstd::arithmetic::div_mod::{
    lemma_fundamental_div_mod, lemma_fundamental_div_mod_converse, lemma_mod_bound,
    lemma_mod_equivalence, lemma_small_mod,
};
use vstd::prelude::*;
use vstd::slice::slice_subrange;

verus! {

/// Why a packet cannot be built or read.
#[derive(Debug, PartialEq, Eq, Structural, Clone, Copy)]
pub enum PacketError {
    /// The data ends before the packet does.
    Truncated,
    /// The padding does not fit its one-byte length, is shorter than four bytes, is longer than
    /// the packet, or leaves the packet off a block boundary; or, on encoding, fewer padding
    /// bytes were supplied than the packet needs.
    InvalidPaddingLength,
    /// The tag is not that of the packet. This is fatal to the connection.
    AuthenticationFailed,
}

/// The least number of padding bytes.
pub const MIN_PADDING: usize = 4;

/// The greatest number of padding bytes, which a byte can hold.
pub const MAX_PADDING: usize = 255;

/// The longest payload whose packet length fits its four-byte field whatever the padding.
pub const MAX_PAYLOAD: usize = 0xffff_feff;

/// The block size that packets are padded to: that of the cipher, and at least 8.
pub open spec fn padding_block(cipher_block: nat) -> int {
    if cipher_block < 8 {
        8
    } else {
        cipher_block as int
    }
}

/// Whether a payload of `length` bytes with `padding` bytes of padding makes a packet that,
/// with its length field and its padding length, is a multiple of `block`.
pub open spec fn aligned(length: nat, padding: int, block: int) -> bool {
    (4 + 1 + length + padding) % block == 0
}

/// The number of padding bytes of a payload of `length` bytes: the least number, not below
/// `MIN_PADDING`, that makes the length field, the padding length, the payload and the padding
/// together a multiple of `block`.
pub open spec fn padding_length(length: nat, block: int) -> int {
    let over = (5 + length as int) % block;
    let short = if over == 0 {
        0
    } else {
        block - over
    };
    if short >= MIN_PADDING {
        short
    } else {
        short + block
    }
}

/// The padding length lies between `MIN_PADDING` and three more than the block size, it brings
/// the packet to a multiple of the block size, and no smaller number that is at least
/// `MIN_PADDING` does. For a block size up to 252 it does not exceed `MAX_PADDING`.
pub proof fn lemma_padding_length(length: nat, cipher_block: nat)
    ensures
        ({
            let block = padding_block(cipher_block);
            let padding = padding_length(length, block);
            &&& block >= 8
            &&& MIN_PADDING <= padding < MIN_PADDING + block
            &&& aligned(length, padding, block)
            &&& forall|smaller: int|
                MIN_PADDING <= smaller < padding ==> !#[trigger] aligned(length, smaller, block)
            &&& block <= 252 ==> padding <= MAX_PADDING
        }),
{
    let block = padding_block(cipher_block);
    let padding = padding_length(length, block);
    let unpadded = 5 + length as int;
    let over = unpadded % block;
    let quotient = unpadded / block;
    lemma_fundamental_div_mod(unpadded, block);
    lemma_mod_bound(unpadded, block);
    let short = if over == 0 {
        0
    } else {
        block - over
    };
    // The padded length is a multiple of the block size.
    let blocks = if over == 0 {
        if short >= MIN_PADDING {
            quotient
        } else {
            quotient + 1
        }
    } else {
        if short >= MIN_PADDING {
            quotient + 1
        } else {
            quotient + 2
        }
    };
    assert(unpadded + padding == blocks * block) by {
        assert(block * quotient == quotient * block) by (nonlinear_arith);
        assert((quotient + 1) * block == quotient * block + block) by (nonlinear_arith);
        assert((quotient + 2) * block == quotient * block + 2 * block) by (nonlinear_arith);
    }
    lemma_fundamental_div_mod_converse(unpadded + padding, block, blocks, 0);
    // Two multiples of the block size lie at least a block apart.
    assert forall|smaller: int| MIN_PADDING <= smaller < padding implies !#[trigger] aligned(
        length,
        smaller,
        block,
    ) by {
        if (unpadded + smaller) % block == 0 {
            lemma_mod_equivalence(unpadded + padding, unpadded + smaller, block);
            assert((unpadded + padding) - (unpadded + smaller) == padding - smaller);
            assert(0 < padding - smaller < block);
            lemma_small_mod((padding - smaller) as nat, block as nat);
            assert(false);
        }
    }
}

/// The packet without its tag: the length of what follows the length field, in four bytes, the
/// padding length in one byte, the payload, and the padding.
pub open spec fn frame(payload: Seq<u8>, padding: Seq<u8>) -> Seq<u8> {
    be32((1 + payload.len() + padding.len()) as u32) + seq![padding.len() as u8] + payload
        + padding
}

/// The frame of a payload for a cipher of the given block size, padded with the first of the
/// bytes that were supplied. There is none where the padding does not fit a byte, or where too
/// few bytes were supplied.
pub open spec fn frame_spec(payload: Seq<u8>, cipher_block: nat, supplied: Seq<u8>) -> Result<
    Seq<u8>,
    PacketError,
> {
    let padding = padding_length(payload.len(), padding_block(cipher_block));
    if padding > MAX_PADDING || supplied.len() < padding {
        Err(PacketError::InvalidPaddingLength)
    } else {
        Ok(frame(payload, supplied.take(padding)))
    }
}

/// The packet of a payload on the wire: its frame for the block size of the cipher, and behind
/// the frame the tag that the code computes for it. It fails where framing fails.
pub open spec fn encode_spec<M: Mac>(
    payload: Seq<u8>,
    cipher_block: nat,
    supplied: Seq<u8>,
    mac: M,
) -> Result<Seq<u8>, PacketError> {
    match frame_spec(payload, cipher_block, supplied) {
        Ok(framed) => Ok(framed + mac.tag_of(framed)),
        Err(e) => Err(e),
    }
}

/// Where the parts of a packet lie in the data that holds it.
pub struct Unframed {
    /// The position behind the payload, which starts at position 5.
    pub payload_end: usize,
    /// The position behind the frame, at which the tag starts.
    pub frame_end: usize,
    /// The position behind the tag.
    pub tag_end: usize,
}

/// The parts of the packet that `data` starts with, for a cipher of the given block size and a
/// code with tags of the given length: the position behind the frame, and the position behind
/// the payload. The length field is read, and the data must hold the
/// frame and a tag. The padding length must be at least `MIN_PADDING`, must leave room for
/// itself in the packet, and the frame must be a multiple of the block size.
pub open spec fn unframe_spec(data: Seq<u8>, cipher_block: nat, tag_length: nat) -> Result<
    (int, int),
    PacketError,
> {
    let block = padding_block(cipher_block);
    if data.len() < 4 {
        Err(PacketError::Truncated)
    } else {
        let length = from_be32(data.subrange(0, 4)) as int;
        if data.len() < 4 + length + tag_length {
            Err(PacketError::Truncated)
        } else if length < 1 {
            Err(PacketError::InvalidPaddingLength)
        } else {
            let padding = data[4] as int;
            if padding < MIN_PADDING || 1 + padding > length || (4 + length) % block != 0 {
                Err(PacketError::InvalidPaddingLength)
            } else {
                Ok((4 + length, 4 + length - padding))
            }
        }
    }
}

/// What decoding gives, once the code has said whether the tag is that of the frame: the
/// framing is checked first; then a tag that the code refuses fails the authentication; else the
/// payload is what stands between the padding length and the padding.
pub open spec fn decode_spec(
    data: Seq<u8>,
    cipher_block: nat,
    tag_length: nat,
    valid: bool,
) -> Result<Seq<u8>, PacketError> {
    match unframe_spec(data, cipher_block, tag_length) {
        Err(e) => Err(e),
        Ok((_, payload_end)) => {
            if valid {
                Ok(data.subrange(5, payload_end))
            } else {
                Err(PacketError::AuthenticationFailed)
            }
        },
    }
}

/// Whether the code accepts what stands behind the frame of the packet that `data` starts with
/// as the tag of that frame.
pub open spec fn verdict<M: Mac>(data: Seq<u8>, cipher_block: nat, mac: M) -> bool {
    match unframe_spec(data, cipher_block, mac.tag_length()) {
        Ok((frame_end, _)) => mac.accepts(
            data.subrange(0, frame_end),
            data.subrange(frame_end, frame_end + mac.tag_length()),
        ),
        Err(_) => false,
    }
}

/// What decoding gives for data, the block size of the cipher and the code: `decode_spec` with
/// the tag length that the code reports and the code's verdict on the tag.
pub open spec fn packet_spec<M: Mac>(data: Seq<u8>, cipher_block: nat, mac: M) -> Result<
    Seq<u8>,
    PacketError,
> {
    decode_spec(data, cipher_block, mac.tag_length(), verdict(data, cipher_block, mac))
}

/// Whether `padding` is a padding that framing gives a payload: it has the padding length of
/// the payload, which fits a byte, and the packet length fits its field.
pub open spec fn well_padded(payload: Seq<u8>, cipher_block: nat, padding: Seq<u8>) -> bool {
    &&& payload.len() <= MAX_PAYLOAD
    &&& padding.len() == padding_length(payload.len(), padding_block(cipher_block))
    &&& padding.len() <= MAX_PADDING
}

/// The length field and the padding length of a frame, and the frame's length.
proof fn lemma_frame(payload: Seq<u8>, padding: Seq<u8>)
    requires
        payload.len() <= MAX_PAYLOAD,
        padding.len() <= MAX_PADDING,
    ensures
        ({
            let framed = frame(payload, padding);
            &&& framed.len() == 5 + payload.len() + padding.len()
            &&& from_be32(framed.subrange(0, 4)) == 1 + payload.len() + padding.len()
            &&& framed[4] == padding.len()
            &&& framed.subrange(5, 5 + payload.len() as int) == payload
        }),
{
    let framed = frame(payload, padding);
    let length = (1 + payload.len() + padding.len()) as u32;
    lemma_from_be32_of_be32(length);
    assert(framed.subrange(0, 4) =~= be32(length));
    assert(framed.subrange(5, 5 + payload.len() as int) =~= payload);
}

/// Every frame that framing gives holds a padding length between `MIN_PADDING` and
/// `MAX_PADDING` in its fifth byte and is a multiple of the block size long. Framing gives one
/// whenever the block size is at most 252 and `MAX_PADDING` bytes were supplied.
pub proof fn lemma_frame_is_padded(payload: Seq<u8>, cipher_block: nat, supplied: Seq<u8>)
    requires
        payload.len() <= MAX_PAYLOAD,
    ensures
        frame_spec(payload, cipher_block, supplied) matches Ok(framed) ==> {
            &&& MIN_PADDING <= framed[4] <= MAX_PADDING
            &&& framed.len() == 4 + 1 + payload.len() + framed[4]
            &&& framed.len() % (padding_block(cipher_block) as nat) == 0
        },
        padding_block(cipher_block) <= 252 && supplied.len() >= MAX_PADDING ==> frame_spec(
            payload,
            cipher_block,
            supplied,
        ) is Ok,
{
    lemma_padding_length(payload.len(), cipher_block);
    let padding = padding_length(payload.len(), padding_block(cipher_block));
    if frame_spec(payload, cipher_block, supplied) is Ok {
        lemma_frame(payload, supplied.take(padding));
    }
}

/// Unframing inverts framing: in a frame with a tag behind it, and whatever follows, the frame,
/// the tag and the payload are found where they were put.
pub proof fn lemma_unframe_inverts_frame(
    payload: Seq<u8>,
    cipher_block: nat,
    padding: Seq<u8>,
    tag: Seq<u8>,
    tail: Seq<u8>,
)
    requires
        well_padded(payload, cipher_block, padding),
    ensures
        ({
            let framed = frame(payload, padding);
            let data = framed + tag + tail;
            &&& unframe_spec(data, cipher_block, tag.len()) matches Ok((frame_end, payload_end))
            &&& data.subrange(0, frame_end) == framed
            &&& data.subrange(frame_end, frame_end + tag.len()) == tag
            &&& data.subrange(5, payload_end) == payload
        }),
{
    let framed = frame(payload, padding);
    let data = framed + tag + tail;
    let length = 1 + payload.len() as int + padding.len();
    lemma_frame(payload, padding);
    lemma_padding_length(payload.len(), cipher_block);
    assert(data.subrange(0, 4) =~= framed.subrange(0, 4));
    assert(data[4] == framed[4]);
    assert(data.subrange(0, 4 + length) =~= framed);
    assert(data.subrange(4 + length, 4 + length + tag.len()) =~= tag);
    assert(data.subrange(5, 4 + length - padding.len()) =~= framed.subrange(
        5,
        5 + payload.len() as int,
    ));
}

/// Decoding inverts encoding: for a code whose tags have the length it reports and which accepts
/// the tags it computes, an encoded packet, and whatever follows it, decodes to its payload.
pub proof fn lemma_decode_inverts_encode<M: Mac>(
    payload: Seq<u8>,
    cipher_block: nat,
    supplied: Seq<u8>,
    mac: M,
    tail: Seq<u8>,
)
    requires
        payload.len() <= MAX_PAYLOAD,
        encode_spec(payload, cipher_block, supplied, mac) is Ok,
        ({
            let framed = frame_spec(payload, cipher_block, supplied)->Ok_0;
            &&& mac.tag_of(framed).len() == mac.tag_length()
            &&& mac.accepts(framed, mac.tag_of(framed))
        }),
    ensures
        packet_spec(encode_spec(payload, cipher_block, supplied, mac)->Ok_0 + tail, cipher_block, mac)
            == Ok::<Seq<u8>, PacketError>(payload),
{
    let padding = supplied.take(padding_length(payload.len(), padding_block(cipher_block)));
    let framed = frame(payload, padding);
    lemma_unframe_inverts_frame(payload, cipher_block, padding, mac.tag_of(framed), tail);
}

/// A tampered tag is fatal: behind a frame, bytes of the length of a tag that the code does not
/// accept as the tag of the frame make decoding fail the authentication.
pub proof fn lemma_tampered_tag_is_refused<M: Mac>(
    payload: Seq<u8>,
    cipher_block: nat,
    padding: Seq<u8>,
    mac: M,
    forged: Seq<u8>,
    tail: Seq<u8>,
)
    requires
        well_padded(payload, cipher_block, padding),
        forged.len() == mac.tag_length(),
        !mac.accepts(frame(payload, padding), forged),
    ensures
        packet_spec(frame(payload, padding) + forged + tail, cipher_block, mac) == Err::<
            Seq<u8>,
            PacketError,
        >(PacketError::AuthenticationFailed),
{
    lemma_unframe_inverts_frame(payload, cipher_block, padding, forged, tail);
}

/// The number of padding bytes that a payload of `length` bytes needs for a cipher of the given
/// block size; `None` where it does not fit a byte.
pub fn padding_size(length: usize, cipher_block: usize) -> (size: Option<u8>)
    requires
        length <= MAX_PAYLOAD,
    ensures
        ({
            let padding = padding_length(length as nat, padding_block(cipher_block as nat));
            match size {
                Some(p) => p == padding,
                None => padding > MAX_PADDING,
            }
        }),
{
    let block = if 8 > cipher_block {
        8
    } else {
        cipher_block
    };
    let over = (5 + length) % block;
    let short = if over == 0 {
        0
    } else {
        block - over
    };
    if short >= MIN_PADDING {
        if short > MAX_PADDING {
            None
        } else {
            Some(short as u8)
        }
    } else if block > MAX_PADDING {
        None
    } else if short + block > MAX_PADDING {
        None
    } else {
        Some((short + block) as u8)
    }
}

/// Frames a payload for a cipher of the given block size: the packet without its tag. `random`
/// supplies the padding, which must not be predictable: as many of its first bytes are used as
/// the packet needs.
pub fn frame_payload(payload: &[u8], cipher_block: usize, random: &[u8]) -> (r: Result<
    Vec<u8>,
    PacketError,
>)
    requires
        payload@.len() <= MAX_PAYLOAD,
    ensures
        match frame_spec(payload@, cipher_block as nat, random@) {
            Ok(framed) => r matches Ok(f) && f@ == framed,
            Err(e) => r == Err::<Vec<u8>, PacketError>(e),
        },
{
    let padding_length = match padding_size(payload.len(), cipher_block) {
        Some(p) => p as usize,
        None => {
            return Err(PacketError::InvalidPaddingLength);
        },
    };
    if random.len() < padding_length {
        return Err(PacketError::InvalidPaddingLength);
    }
    let mut framed: Vec<u8> = Vec::new();
    push_u32(&mut framed, (1 + payload.len() + padding_length) as u32);
    framed.push(padding_length as u8);
    push_bytes(&mut framed, payload);
    push_bytes(&mut framed, slice_subrange(random, 0, padding_length));
    let ghost padding = random@.take(padding_length as int);
    assert(random@.subrange(0, padding_length as int) =~= padding);
    assert(framed@ =~= frame(payload@, padding));
    Ok(framed)
}

/// Finds the parts of the packet that `data` starts with, for a cipher of the given block size
/// and a code with tags of the given length.
pub fn unframe(data: &[u8], cipher_block: usize, tag_size: usize) -> (r: Result<
    Unframed,
    PacketError,
>)
    ensures
        match unframe_spec(data@, cipher_block as nat, tag_size as nat) {
            Ok((frame_end, payload_end)) => r matches Ok(parts) && parts.frame_end == frame_end
                && parts.payload_end == payload_end && parts.tag_end == frame_end + tag_size && 5
                <= payload_end <= frame_end <= parts.tag_end <= data@.len(),
            Err(e) => r == Err::<Unframed, PacketError>(e),
        },
{
    let block = if 8 > cipher_block {
        8
    } else {
        cipher_block
    };
    if data.len() < 4 {
        return Err(PacketError::Truncated);
    }
    let length = read_u32(data, 0) as usize;
    if data.len() - 4 < length || data.len() - 4 - length < tag_size {
        return Err(PacketError::Truncated);
    }
    if length < 1 {
        return Err(PacketError::InvalidPaddingLength);
    }
    let padding = data[4] as usize;
    if padding < MIN_PADDING || 1 + padding > length || (4 + length) % block != 0 {
        return Err(PacketError::InvalidPaddingLength);
    }
    Ok(
        Unframed {
            payload_end: 4 + length - padding,
            frame_end: 4 + length,
            tag_end: 4 + length + tag_size,
        },
    )
}

/// One message on its way: the encoded message, and the code and the cipher of the connection.
pub struct Packet<M: Mac, C: Cipher> {
    payload: Vec<u8>,
    mac_type: M,
    encryption_cipher: C,
}

impl<M: Mac, C: Cipher> Packet<M, C> {
    /// The encoded message that the packet carries.
    pub closed spec fn payload(&self) -> Seq<u8> {
        self.payload@
    }

    /// The code that authenticates the packet.
    pub closed spec fn mac(&self) -> M {
        self.mac_type
    }

    /// The cipher whose block size the packet is padded to.
    pub closed spec fn cipher(&self) -> C {
        self.encryption_cipher
    }

    pub fn new(payload: Vec<u8>, mac_type: M, cipher: C) -> (packet: Self)
        ensures
            packet.payload() == payload@,
            packet.mac() == mac_type,
            packet.cipher() == cipher,
    {
        Packet { payload, mac_type, encryption_cipher: cipher }
    }

    /// The packet on the wire: the frame of the payload for the block size that the cipher
    /// reports, and behind it the tag that the code computes for the frame. `random` supplies
    /// the padding, as for `frame_payload`.
    pub fn encode(&self, random: &[u8]) -> (r: Result<Vec<u8>, PacketError>)
        requires
            self.payload().len() <= MAX_PAYLOAD,
        ensures
            match encode_spec(self.payload(), self.cipher().block_size(), random@, self.mac()) {
                Ok(bytes) => r matches Ok(b) && b@ == bytes,
                Err(e) => r == Err::<Vec<u8>, PacketError>(e),
            },
    {
        let cipher_block = self.encryption_cipher.get_block_size();
        let mut encoded_packet = match frame_payload(
            self.payload.as_slice(),
            cipher_block,
            random,
        ) {
            Ok(framed) => framed,
            Err(e) => {
                return Err(e);
            },
        };
        let mut tag = self.mac_type.compute(encoded_packet.as_slice());
        encoded_packet.append(&mut tag);
        Ok(encoded_packet)
    }

    /// The payload of the packet that `data` starts with. The framing is checked for the block
    /// size that the cipher reports and the tag size that the code reports; then the code is
    /// asked whether the bytes behind the frame are the tag of the frame, and only then is the
    /// payload given out.
    pub fn decode(data: &[u8], mac: &M, cipher: &C) -> (r: Result<Vec<u8>, PacketError>)
        ensures
            match packet_spec(data@, cipher.block_size(), *mac) {
                Ok(payload) => r matches Ok(p) && p@ == payload,
                Err(e) => r == Err::<Vec<u8>, PacketError>(e),
            },
    {
        let cipher_block = cipher.get_block_size();
        let tag_size = mac.tag_size();
        let parts = match unframe(data, cipher_block, tag_size) {
            Ok(parts) => parts,
            Err(e) => {
                return Err(e);
            },
        };
        let framed = slice_subrange(data, 0, parts.frame_end);
        let tag = slice_subrange(data, parts.frame_end, parts.tag_end);
        let valid = mac.verify(framed, tag);
        authenticated(data, parts, valid)
    }
}

/// The payload of a packet whose parts were found, once the code has said whether its tag is
/// valid: the payload where it is, and a failure of authentication where it is not.
pub fn authenticated(data: &[u8], parts: Unframed, valid: bool) -> (r: Result<
    Vec<u8>,
    PacketError,
>)
    requires
        5 <= parts.payload_end <= data@.len(),
    ensures
        valid ==> (r matches Ok(payload) && payload@ == data@.subrange(
            5,
            parts.payload_end as int,
        )),
        !valid ==> r == Err::<Vec<u8>, PacketError>(PacketError::AuthenticationFailed),
{
    if !valid {
        return Err(PacketError::AuthenticationFailed);
    }
    Ok(copy_range(data, 5, parts.payload_end))
}

} // verus!

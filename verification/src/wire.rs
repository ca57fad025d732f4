//! The primitives that messages and packets are laid out with: big-endian integers and
//! length-prefixed strings.

use vstd::arithmetic::div_mod::{lemma_fundamental_div_mod, lemma_fundamental_div_mod_converse};
use vstd::prelude::*;
use vstd::utf8::{encode_utf8, valid_utf8};

verus! {

/// The four bytes of `n`, most significant first.
pub open spec fn be32(n: u32) -> Seq<u8> {
    seq![
        (n / 0x100_0000) as u8,
        (n / 0x1_0000 % 0x100) as u8,
        (n / 0x100 % 0x100) as u8,
        (n % 0x100) as u8,
    ]
}

/// The number that the first four bytes of `bytes` stand for, most significant first.
pub open spec fn from_be32(bytes: Seq<u8>) -> u32 {
    (bytes[0] * 0x100_0000 + bytes[1] * 0x1_0000 + bytes[2] * 0x100 + bytes[3]) as u32
}

/// The four digits of a number to the base 256 are the bytes that `be32` gives, and they make
/// up the number.
proof fn lemma_digits(b0: int, b1: int, b2: int, b3: int)
    requires
        0 <= b0 < 0x100,
        0 <= b1 < 0x100,
        0 <= b2 < 0x100,
        0 <= b3 < 0x100,
    ensures
        ({
            let n = b0 * 0x100_0000 + b1 * 0x1_0000 + b2 * 0x100 + b3;
            &&& 0 <= n <= u32::MAX
            &&& n / 0x100_0000 == b0
            &&& n / 0x1_0000 % 0x100 == b1
            &&& n / 0x100 % 0x100 == b2
            &&& n % 0x100 == b3
        }),
{
    let n = b0 * 0x100_0000 + b1 * 0x1_0000 + b2 * 0x100 + b3;
    lemma_fundamental_div_mod_converse(n, 0x100_0000, b0, b1 * 0x1_0000 + b2 * 0x100 + b3);
    lemma_fundamental_div_mod_converse(n, 0x1_0000, b0 * 0x100 + b1, b2 * 0x100 + b3);
    lemma_fundamental_div_mod_converse(b0 * 0x100 + b1, 0x100, b0, b1);
    lemma_fundamental_div_mod_converse(n, 0x100, b0 * 0x1_0000 + b1 * 0x100 + b2, b3);
    lemma_fundamental_div_mod_converse(b0 * 0x1_0000 + b1 * 0x100 + b2, 0x100, b0 * 0x100 + b1, b2);
}

/// Reading the bytes of a number gives the number.
pub proof fn lemma_from_be32_of_be32(n: u32)
    ensures
        be32(n).len() == 4,
        from_be32(be32(n)) == n,
{
    let m = n as int;
    let b3 = m % 0x100;
    let q2 = m / 0x100;
    let b2 = q2 % 0x100;
    let q1 = q2 / 0x100;
    let b1 = q1 % 0x100;
    let b0 = q1 / 0x100;
    lemma_fundamental_div_mod(m, 0x100);
    lemma_fundamental_div_mod(q2, 0x100);
    lemma_fundamental_div_mod(q1, 0x100);
    assert(m == b0 * 0x100_0000 + b1 * 0x1_0000 + b2 * 0x100 + b3);
    assert(0 <= b0 < 0x100);
    lemma_digits(b0, b1, b2, b3);
}

/// A string on the wire: its length in four bytes, then its bytes.
pub open spec fn string_wire(text: Seq<u8>) -> Seq<u8> {
    be32(text.len() as u32) + text
}

/// The string that starts at `at`, and the position behind it; `None` where `data` ends before
/// the string does.
pub open spec fn string_at(data: Seq<u8>, at: int) -> Option<(Seq<u8>, int)> {
    if at + 4 > data.len() {
        None
    } else {
        let length = from_be32(data.subrange(at, at + 4)) as int;
        if at + 4 + length > data.len() {
            None
        } else {
            Some((data.subrange(at + 4, at + 4 + length), at + 4 + length))
        }
    }
}

/// A string that was written at the end of `head` is read back from there, whatever follows it.
pub proof fn lemma_string_at_wire(head: Seq<u8>, text: Seq<u8>, tail: Seq<u8>)
    requires
        text.len() <= u32::MAX,
    ensures
        string_at(head + string_wire(text) + tail, head.len() as int) == Some(
            (text, head.len() as int + 4 + text.len()),
        ),
{
    let data = head + string_wire(text) + tail;
    let at = head.len() as int;
    lemma_from_be32_of_be32(text.len() as u32);
    assert(data.subrange(at, at + 4) =~= be32(text.len() as u32));
    assert(data.subrange(at + 4, at + 4 + text.len()) =~= text);
}

/// What starts a sequence that starts `data` also starts `data`.
pub proof fn lemma_prefix_of_prefix(head: Seq<u8>, more: Seq<u8>, data: Seq<u8>)
    requires
        (head + more).is_prefix_of(data),
    ensures
        head.is_prefix_of(data),
{
    assert(head =~= (head + more).subrange(0, head.len() as int));
    assert(head =~= data.subrange(0, head.len() as int));
}

/// A string that is read from the start of `data` is read from `data` as well: reading looks at
/// nothing behind the string.
pub proof fn lemma_string_at_extends(part: Seq<u8>, data: Seq<u8>, at: int)
    requires
        part.is_prefix_of(data),
        0 <= at,
        string_at(part, at) is Some,
    ensures
        string_at(data, at) == string_at(part, at),
{
    assert(part =~= data.subrange(0, part.len() as int));
    assert(data.subrange(at, at + 4) =~= part.subrange(at, at + 4));
    let length = from_be32(part.subrange(at, at + 4)) as int;
    assert(data.subrange(at + 4, at + 4 + length) =~= part.subrange(at + 4, at + 4 + length));
}

/// Appends the four bytes of `n`.
pub fn push_u32(out: &mut Vec<u8>, n: u32)
    ensures
        final(out)@ == old(out)@ + be32(n),
{
    out.push((n / 0x100_0000) as u8);
    out.push((n / 0x1_0000 % 0x100) as u8);
    out.push((n / 0x100 % 0x100) as u8);
    out.push((n % 0x100) as u8);
    assert(out@ =~= old(out)@ + be32(n));
}

/// Reads the number in the four bytes at `at`.
pub fn read_u32(data: &[u8], at: usize) -> (n: u32)
    requires
        at + 4 <= data@.len(),
    ensures
        n == from_be32(data@.subrange(at as int, at + 4)),
{
    let b0 = data[at] as u32;
    let b1 = data[at + 1] as u32;
    let b2 = data[at + 2] as u32;
    let b3 = data[at + 3] as u32;
    b0 * 0x100_0000 + b1 * 0x1_0000 + b2 * 0x100 + b3
}

/// Appends all of `bytes`.
pub fn push_bytes(out: &mut Vec<u8>, bytes: &[u8])
    ensures
        final(out)@ == old(out)@ + bytes@,
{
    let mut i: usize = 0;
    while i < bytes.len()
        invariant
            i <= bytes@.len(),
            out@ == old(out)@ + bytes@.take(i as int),
        decreases bytes@.len() - i,
    {
        out.push(bytes[i]);
        i += 1;
        assert(out@ =~= old(out)@ + bytes@.take(i as int));
    }
    assert(bytes@.take(i as int) =~= bytes@);
}

/// Appends `text` as a string: its length, then its bytes.
pub fn push_string(out: &mut Vec<u8>, text: &[u8])
    requires
        text@.len() <= u32::MAX,
    ensures
        final(out)@ == old(out)@ + string_wire(text@),
{
    push_u32(out, text.len() as u32);
    push_bytes(out, text);
    assert(out@ =~= old(out)@ + string_wire(text@));
}

/// The bytes of `data` from `from` up to `to`.
pub fn copy_range(data: &[u8], from: usize, to: usize) -> (part: Vec<u8>)
    requires
        from <= to <= data@.len(),
    ensures
        part@ == data@.subrange(from as int, to as int),
{
    let mut part: Vec<u8> = Vec::new();
    let mut i: usize = from;
    while i < to
        invariant
            from <= i <= to <= data@.len(),
            part@ == data@.subrange(from as int, i as int),
        decreases to - i,
    {
        part.push(data[i]);
        i += 1;
        assert(part@ =~= data@.subrange(from as int, i as int));
    }
    part
}

/// Reads the string that starts at `at`: where it lies in `data`, as the positions of its first
/// byte and of the byte behind it.
pub fn read_string(data: &[u8], at: usize) -> (r: Option<(usize, usize)>)
    requires
        at <= data@.len(),
    ensures
        match string_at(data@, at as int) {
            Some((text, next)) => r matches Some((from, to)) && to == next && from == at + 4
                && from <= to <= data@.len() && text == data@.subrange(from as int, to as int),
            None => r is None,
        },
{
    if data.len() - at < 4 {
        return None;
    }
    let length = read_u32(data, at) as usize;
    if data.len() - at - 4 < length {
        return None;
    }
    Some((at + 4, at + 4 + length))
}

/// Whether two byte strings hold the same bytes.
pub fn same_bytes(a: &[u8], b: &[u8]) -> (same: bool)
    ensures
        same == (a@ == b@),
{
    if a.len() != b.len() {
        return false;
    }
    let mut i: usize = 0;
    while i < a.len()
        invariant
            i <= a@.len(),
            a@.len() == b@.len(),
            forall|j: int| 0 <= j < i ==> a@[j] == b@[j],
        decreases a@.len() - i,
    {
        if a[i] != b[i] {
            return false;
        }
        i += 1;
    }
    assert(a@ =~= b@);
    true
}

/// `String::from_utf8`, which std documents to succeed exactly on the byte vectors that are
/// UTF-8, and then to give the string that is made of those bytes.
#[verifier::external_body]
pub(crate) fn string_from_utf8(bytes: Vec<u8>) -> (text: Option<String>)
    ensures
        text is Some <==> valid_utf8(bytes@),
        text matches Some(t) ==> encode_utf8(t@) == bytes@,
{
    match String::from_utf8(bytes) {
        Ok(text) => Some(text),
        Err(_) => None,
    }
}

} // verus!

//! Lists of algorithm names: on the wire a string that holds the names, separated by commas.

use crate::utils::{find_byte, first_index_of, lemma_first_index_of, lemma_first_index_of_is};
use crate::wire::{
    copy_range, lemma_prefix_of_prefix, lemma_string_at_extends, lemma_string_at_wire, push_bytes,
    push_string, read_string, string_at, string_from_utf8, string_wire,
};
use super::MessageError;
use vstd::prelude::*;
use vstd::slice::slice_subrange;
use vstd::string::*;
use vstd::utf8::{encode_utf8, encode_utf8_valid_utf8, valid_utf8};

verus! {

/// The byte that separates the names of a list: a comma.
pub const SEPARATOR: u8 = 44;

/// What can stand in a name list: a value with a canonical name, which is what goes on the wire,
/// and which is found again from that name.
pub trait AlgorithmName: Sized {
    /// The canonical name of the value.
    spec fn name(&self) -> Seq<u8>;

    /// Whether `text` is the name of a value of this type.
    spec fn named(text: Seq<u8>) -> bool;

    /// The name of every value is the name of a value.
    proof fn lemma_name_is_named(&self)
        ensures
            Self::named(self.name()),
    ;

    /// The canonical name of the value.
    fn to_name(&self) -> (text: Vec<u8>)
        ensures
            text@ == self.name(),
    ;

    /// The value with the given name, where there is one.
    fn from_name(text: &[u8]) -> (value: Option<Self>)
        ensures
            value is Some <==> Self::named(text@),
            value matches Some(v) ==> v.name() == text@,
    ;
}

/// A name that is held as text: any UTF-8 string is one.
impl AlgorithmName for String {
    open spec fn name(&self) -> Seq<u8> {
        encode_utf8(self@)
    }

    open spec fn named(text: Seq<u8>) -> bool {
        valid_utf8(text)
    }

    proof fn lemma_name_is_named(&self) {
        encode_utf8_valid_utf8(self@);
    }

    fn to_name(&self) -> (text: Vec<u8>) {
        let text = self.as_str().as_bytes_vec();
        assert(text@ == encode_utf8(self@));
        assert(self.name() == encode_utf8(self@));
        text
    }

    fn from_name(text: &[u8]) -> (value: Option<Self>) {
        let bytes = copy_range(text, 0, text.len());
        assert(bytes@ =~= text@);
        string_from_utf8(bytes)
    }
}

/// The names of the items, in order.
pub open spec fn names_of<T: AlgorithmName>(items: Seq<T>) -> Seq<Seq<u8>> {
    items.map_values(|item: T| item.name())
}

/// The names, with a separator between each two.
pub open spec fn joined(names: Seq<Seq<u8>>) -> Seq<u8>
    decreases names.len(),
{
    if names.len() == 0 {
        Seq::empty()
    } else if names.len() == 1 {
        names[0]
    } else {
        names[0] + seq![SEPARATOR] + joined(names.drop_first())
    }
}

/// The pieces of `text` between its separators; a text without separator is one piece.
pub open spec fn split(text: Seq<u8>) -> Seq<Seq<u8>>
    decreases text.len(),
{
    let stop = first_index_of(text, SEPARATOR);
    if 0 <= stop < text.len() {
        seq![text.take(stop)] + split(text.skip(stop + 1))
    } else {
        seq![text]
    }
}

/// The names that a joined text holds: none where the text is empty, else its pieces.
pub open spec fn names_in(text: Seq<u8>) -> Seq<Seq<u8>> {
    if text.len() == 0 {
        Seq::empty()
    } else {
        split(text)
    }
}

/// Whether no name holds the separator.
pub open spec fn separator_free(names: Seq<Seq<u8>>) -> bool {
    forall|i: int| 0 <= i < names.len() ==> !(#[trigger] names[i]).contains(SEPARATOR)
}

/// A name list on the wire: the joined names as a string.
pub open spec fn name_list_wire(names: Seq<Seq<u8>>) -> Seq<u8> {
    string_wire(joined(names))
}

/// An encoded name list is four bytes longer than its joined names.
pub proof fn lemma_name_list_wire_length(names: Seq<Seq<u8>>)
    ensures
        name_list_wire(names).len() == 4 + joined(names).len(),
{
}

/// Whether the joined names fit the length field of a string.
pub open spec fn name_list_fits(names: Seq<Seq<u8>>) -> bool {
    joined(names).len() <= u32::MAX
}

/// Whether every name is the name of a value of type `T`.
pub open spec fn all_named<T: AlgorithmName>(names: Seq<Seq<u8>>) -> bool {
    forall|i: int| 0 <= i < names.len() ==> T::named(#[trigger] names[i])
}

/// The name list that starts at `at`, as its names and the position behind it. The string is
/// read first; then each of its names must be the name of a value of type `T`.
pub open spec fn name_list_at<T: AlgorithmName>(data: Seq<u8>, at: int) -> Result<
    (Seq<Seq<u8>>, int),
    MessageError,
> {
    match string_at(data, at) {
        None => Err(MessageError::Truncated),
        Some((text, next)) => {
            if all_named::<T>(names_in(text)) {
                Ok((names_in(text), next))
            } else {
                Err(MessageError::InvalidField)
            }
        },
    }
}

/// The names of values of type `T` are names of `T`.
pub proof fn lemma_names_are_named<T: AlgorithmName>(items: Seq<T>)
    ensures
        all_named::<T>(names_of(items)),
{
    assert forall|i: int| 0 <= i < names_of(items).len() implies T::named(
        #[trigger] names_of(items)[i],
    ) by {
        items[i].lemma_name_is_named();
    }
}

/// Joining one more name appends a separator and the name, unless it is the first.
pub proof fn lemma_joined_push(names: Seq<Seq<u8>>, name: Seq<u8>)
    ensures
        joined(names.push(name)) == if names.len() == 0 {
            name
        } else {
            joined(names) + seq![SEPARATOR] + name
        },
    decreases names.len(),
{
    let all = names.push(name);
    if names.len() == 0 {
    } else {
        assert(all.drop_first() =~= names.drop_first().push(name));
        lemma_joined_push(names.drop_first(), name);
        if names.len() == 1 {
            assert(joined(names.drop_first()) =~= Seq::<u8>::empty());
            assert(joined(all) =~= joined(names) + seq![SEPARATOR] + name);
        } else {
            assert(joined(all) =~= joined(names) + seq![SEPARATOR] + name);
        }
    }
}

/// Splitting inverts joining: the pieces of the joined text of one or more names that hold no
/// separator are those names.
pub proof fn lemma_split_inverts_joined(names: Seq<Seq<u8>>)
    requires
        names.len() > 0,
        separator_free(names),
    ensures
        split(joined(names)) == names,
    decreases names.len(),
{
    let text = joined(names);
    let first = names[0];
    lemma_first_index_of(first, SEPARATOR);
    if names.len() == 1 {
        lemma_first_index_of(text, SEPARATOR);
        assert(split(text) =~= names);
    } else {
        let rest = names.drop_first();
        assert(separator_free(rest)) by {
            assert forall|i: int| 0 <= i < rest.len() implies !(#[trigger] rest[i]).contains(
                SEPARATOR,
            ) by {
                assert(rest[i] == names[i + 1]);
            }
        }
        lemma_split_inverts_joined(rest);
        assert forall|j: int| 0 <= j < first.len() implies text[j] != SEPARATOR by {
            assert(text[j] == first[j]);
        }
        assert(text[first.len() as int] == SEPARATOR);
        lemma_first_index_of_is(text, SEPARATOR, first.len() as int);
        assert(text.take(first.len() as int) =~= first);
        assert(text.skip(first.len() as int + 1) =~= joined(rest));
        assert(split(text) =~= names);
    }
}

/// The names in the joined text of names that hold no separator are those names. The one list
/// for which this fails is the list of a single empty name, which is joined to the empty text,
/// as the empty list is.
pub proof fn lemma_names_in_joined(names: Seq<Seq<u8>>)
    requires
        separator_free(names),
        names != seq![Seq::<u8>::empty()],
    ensures
        names_in(joined(names)) == names,
{
    let text = joined(names);
    if names.len() == 0 {
        assert(names_in(text) =~= names);
    } else {
        lemma_split_inverts_joined(names);
        if text.len() == 0 {
            if names.len() == 1 {
                assert(names[0] =~= Seq::<u8>::empty());
                assert(names =~= seq![Seq::<u8>::empty()]);
            } else {
                assert(text =~= names[0] + seq![SEPARATOR] + joined(names.drop_first()));
            }
        }
    }
}

/// Decoding inverts encoding: a list of names that hold no separator, each the name of a value
/// of type `T`, is read back from its encoding, whatever stands before and behind it. The one
/// list that is not is the list of a single empty name.
pub proof fn lemma_decode_inverts_encode<T: AlgorithmName>(
    head: Seq<u8>,
    names: Seq<Seq<u8>>,
    tail: Seq<u8>,
)
    requires
        name_list_fits(names),
        separator_free(names),
        all_named::<T>(names),
        names != seq![Seq::<u8>::empty()],
    ensures
        name_list_at::<T>(head + name_list_wire(names) + tail, head.len() as int) == Ok::<
            (Seq<Seq<u8>>, int),
            MessageError,
        >((names, head.len() as int + name_list_wire(names).len())),
{
    let text = joined(names);
    let wire = name_list_wire(names);
    let data = head + wire + tail;
    assert(wire.len() == 4 + text.len());
    assert(string_at(data, head.len() as int) == Some((text, head.len() as int + 4 + text.len())))
        by {
        lemma_string_at_wire(head, text, tail);
    }
    assert(names_in(text) == names) by {
        lemma_names_in_joined(names);
    }
}

/// Two name lists of one type, one behind the other from `at` on: their names, and the position
/// behind the second.
pub open spec fn pair_at<T: AlgorithmName>(data: Seq<u8>, at: int) -> Result<
    (Seq<Seq<u8>>, Seq<Seq<u8>>, int),
    MessageError,
> {
    match name_list_at::<T>(data, at) {
        Err(e) => Err(e),
        Ok((first, middle)) => match name_list_at::<T>(data, middle) {
            Err(e) => Err(e),
            Ok((second, next)) => Ok((first, second, next)),
        },
    }
}

/// Whether a list of names is read back from its encoding as a list of `T`: it fits, its names
/// hold no separator and are names of `T`, and it is not the list of a single empty name.
pub closed spec fn round_trips<T: AlgorithmName>(names: Seq<Seq<u8>>) -> bool {
    &&& name_list_fits(names)
    &&& separator_free(names)
    &&& all_named::<T>(names)
    &&& names != seq![Seq::<u8>::empty()]
}

/// What `round_trips` stands for.
pub proof fn lemma_round_trips<T: AlgorithmName>(names: Seq<Seq<u8>>)
    ensures
        round_trips::<T>(names) <==> {
            &&& name_list_fits(names)
            &&& separator_free(names)
            &&& all_named::<T>(names)
            &&& names != seq![Seq::<u8>::empty()]
        },
{
}

/// A list that is read from the start of `data` is read from `data` as well: reading looks at
/// nothing behind the list.
pub proof fn lemma_name_list_at_extends<T: AlgorithmName>(part: Seq<u8>, data: Seq<u8>, at: int)
    requires
        part.is_prefix_of(data),
        0 <= at,
        name_list_at::<T>(part, at) is Ok,
    ensures
        name_list_at::<T>(data, at) == name_list_at::<T>(part, at),
{
    lemma_string_at_extends(part, data, at);
}

/// A list that was written behind `head`, at the start of `data`, is read back from there.
pub proof fn lemma_name_list_written<T: AlgorithmName>(
    head: Seq<u8>,
    names: Seq<Seq<u8>>,
    data: Seq<u8>,
)
    requires
        round_trips::<T>(names),
        (head + name_list_wire(names)).is_prefix_of(data),
    ensures
        name_list_at::<T>(data, head.len() as int) == Ok::<(Seq<Seq<u8>>, int), MessageError>(
            (names, head.len() as int + name_list_wire(names).len()),
        ),
{
    let part = head + name_list_wire(names);
    lemma_decode_inverts_encode::<T>(head, names, Seq::empty());
    assert(part + Seq::<u8>::empty() =~= part);
    lemma_name_list_at_extends::<T>(part, data, head.len() as int);
}

/// Two lists that were written one behind the other behind `head`, at the start of `data`, are
/// read back from there.
pub proof fn lemma_pair_written<T: AlgorithmName>(
    head: Seq<u8>,
    first: Seq<Seq<u8>>,
    second: Seq<Seq<u8>>,
    data: Seq<u8>,
)
    requires
        round_trips::<T>(first),
        round_trips::<T>(second),
        (head + name_list_wire(first) + name_list_wire(second)).is_prefix_of(data),
    ensures
        pair_at::<T>(data, head.len() as int) == Ok::<
            (Seq<Seq<u8>>, Seq<Seq<u8>>, int),
            MessageError,
        >(
            (
                first,
                second,
                head.len() as int + name_list_wire(first).len() + name_list_wire(second).len(),
            ),
        ),
{
    lemma_prefix_of_prefix(head + name_list_wire(first), name_list_wire(second), data);
    lemma_name_list_written::<T>(head, first, data);
    lemma_name_list_written::<T>(head + name_list_wire(first), second, data);
}

/// An ordered list of algorithm names; the order is the order of preference.
#[derive(Debug, PartialEq, Eq)]
pub struct NameList<T: AlgorithmName> {
    this: Vec<T>,
}

impl<T: AlgorithmName> View for NameList<T> {
    type V = Seq<Seq<u8>>;

    /// The names of the list, in order.
    closed spec fn view(&self) -> Seq<Seq<u8>> {
        names_of(self.this@)
    }
}

impl<T: AlgorithmName> NameList<T> {
    /// The items of the list, in order.
    pub fn items(&self) -> (items: &Vec<T>)
        ensures
            names_of(items@) == self@,
    {
        &self.this
    }

    /// The names of the list, joined by commas.
    pub fn joined(&self) -> (text: Vec<u8>)
        ensures
            text@ == joined(self@),
    {
        let mut text: Vec<u8> = Vec::new();
        let mut i: usize = 0;
        while i < self.this.len()
            invariant
                i <= self.this@.len(),
                text@ == joined(names_of(self.this@.take(i as int))),
            decreases self.this@.len() - i,
        {
            if i > 0 {
                text.push(SEPARATOR);
            }
            let name = self.this[i].to_name();
            push_bytes(&mut text, name.as_slice());
            proof {
                let before = names_of(self.this@.take(i as int));
                assert(names_of(self.this@.take(i + 1)) =~= before.push(self.this@[i as int].name()));
                lemma_joined_push(before, self.this@[i as int].name());
                if i > 0 {
                    assert(text@ =~= joined(before) + seq![SEPARATOR] + name@);
                } else {
                    assert(text@ =~= name@);
                }
            }
            i += 1;
        }
        assert(self.this@.take(i as int) =~= self.this@);
        text
    }

    /// The list on the wire: the length of the joined names in four bytes, then the joined names.
    pub fn encode(&self) -> (bytes: Vec<u8>)
        requires
            name_list_fits(self@),
        ensures
            bytes@ == name_list_wire(self@),
    {
        let mut encoded: Vec<u8> = Vec::new();
        let text = self.joined();
        push_string(&mut encoded, text.as_slice());
        assert(encoded@ =~= name_list_wire(self@));
        encoded
    }

    /// Reads the list that starts at `at`, and gives the position behind it.
    pub fn decode_at(data: &[u8], at: usize) -> (r: Result<(Self, usize), MessageError>)
        requires
            at <= data@.len(),
        ensures
            match name_list_at::<T>(data@, at as int) {
                Ok((names, next)) => r matches Ok((list, after)) && list@ == names && after == next
                    && after <= data@.len(),
                Err(e) => r == Err::<(Self, usize), MessageError>(e),
            },
    {
        let (from, to) = match read_string(data, at) {
            Some(range) => range,
            None => {
                return Err(MessageError::Truncated);
            },
        };
        let ghost text = data@.subrange(from as int, to as int);
        let mut items: Vec<T> = Vec::new();
        if from == to {
            assert(names_of(items@) =~= names_in(text));
            return Ok((NameList { this: items }, to));
        }
        let mut start: usize = from;
        let mut more = true;
        assert(text.skip(0) =~= text);
        assert(names_of(items@) + split(text) =~= split(text));
        while more
            invariant
                from < to <= data@.len(),
                text == data@.subrange(from as int, to as int),
                string_at(data@, at as int) == Some((text, to as int)),
                more ==> from <= start <= to,
                more ==> names_of(items@) + split(text.skip(start - from)) == split(text),
                !more ==> names_of(items@) == split(text),
                all_named::<T>(names_of(items@)),
            decreases (if more { to - start + 1 } else { 0 }),
        {
            let stop = find_byte(data, start, to, SEPARATOR);
            let piece = slice_subrange(data, start, stop);
            let ghost rest = text.skip(start - from);
            proof {
                assert(data@.subrange(start as int, to as int) =~= rest);
                assert(piece@ =~= rest.take(stop - start));
                lemma_first_index_of(rest, SEPARATOR);
            }
            match T::from_name(piece) {
                Some(item) => {
                    let ghost before = names_of(items@);
                    items.push(item);
                    assert(names_of(items@) =~= before.push(piece@));
                    if stop == to {
                        more = false;
                        assert(rest.take(stop - start) =~= rest);
                        assert(names_of(items@) =~= before + split(rest));
                    } else {
                        assert(rest.skip(stop - start + 1) =~= text.skip(stop + 1 - from));
                        start = stop + 1;
                        assert(before + split(rest) =~= names_of(items@) + split(
                            text.skip(start - from),
                        ));
                    }
                },
                None => {
                    proof {
                        // The piece stands in the split text, behind the names read so far.
                        let at_piece = names_of(items@).len() as int;
                        if stop == to {
                            assert(rest.take(stop - start) =~= rest);
                        }
                        assert(split(rest)[0] == piece@);
                        assert(split(text)[at_piece] == piece@);
                        assert(names_in(text) == split(text));
                        assert(!T::named(names_in(text)[at_piece]));
                    }
                    return Err(MessageError::InvalidField);
                },
            }
        }
        assert(names_of(items@) == names_in(text));
        Ok((NameList { this: items }, to))
    }

    /// Reads two lists, one behind the other from `at` on, and gives the position behind them.
    pub fn decode_pair(data: &[u8], at: usize) -> (r: Result<(Self, Self, usize), MessageError>)
        requires
            at <= data@.len(),
        ensures
            match pair_at::<T>(data@, at as int) {
                Ok((first, second, next)) => r matches Ok((a, b, after)) && a@ == first && b@
                    == second && after == next && after <= data@.len(),
                Err(e) => r == Err::<(Self, Self, usize), MessageError>(e),
            },
    {
        let (first, middle) = match Self::decode_at(data, at) {
            Ok(read) => read,
            Err(e) => {
                return Err(e);
            },
        };
        let (second, next) = match Self::decode_at(data, middle) {
            Ok(read) => read,
            Err(e) => {
                return Err(e);
            },
        };
        Ok((first, second, next))
    }

    /// Reads the list that `data` starts with; what follows the list is not looked at.
    pub fn decode(data: &[u8]) -> (r: Result<Self, MessageError>)
        ensures
            match name_list_at::<T>(data@, 0) {
                Ok((names, _)) => r matches Ok(list) && list@ == names,
                Err(e) => r == Err::<Self, MessageError>(e),
            },
    {
        match Self::decode_at(data, 0) {
            Ok((list, _)) => Ok(list),
            Err(e) => Err(e),
        }
    }
}

impl<T: AlgorithmName> From<Vec<T>> for NameList<T> {
    fn from(vec: Vec<T>) -> (list: Self) {
        Self { this: vec }
    }
}

impl<T: AlgorithmName> vstd::std_specs::convert::FromSpecImpl<Vec<T>> for NameList<T> {
    open spec fn obeys_from_spec() -> bool {
        true
    }

    closed spec fn from_spec(vec: Vec<T>) -> Self {
        NameList { this: vec }
    }
}

/// The list that `From` makes of a vector holds the names of the vector's items, in order.
pub proof fn lemma_names_from_vec<T: AlgorithmName>(vec: Vec<T>)
    ensures
        <NameList<T> as vstd::std_specs::convert::FromSpec<Vec<T>>>::from_spec(vec)@ == names_of(vec@),
{
}

} // verus!

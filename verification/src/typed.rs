//! Typed attributes: a value of a fixed wire form bound to one tag.
//!
//! A type that implements [`TypedAttribute`] says what its tag is and how
//! its value lies on the wire; the size of the attribute, its emission with
//! header, and the reading of its value follow from that.

use crate::attribute::{
    emit_header, encoded_length, lemma_emitted_is_parsed, lemma_emitted_is_passed, spec_after,
    spec_attribute, spec_attributes, spec_emit, spec_encoded_length, spec_kind_of_tag, Attribute,
    AttributeView, MAX_VALUE_LEN,
};
use crate::endian::{
    read_u16, read_u32, u16_bytes, u16_value, u32_bytes, u32_value, write_u16, write_u32,
    Endianness,
};
use crate::error::DecodeFailure;
use vstd::prelude::*;
use vstd::utf8::{decode_utf8, encode_utf8, valid_utf8};

verus! {

/// The error type of the parsers of `netlink_packet_utils`.
#[verifier::external_type_specification]
#[verifier::external_body]
pub struct ExDecodeError(netlink_packet_utils::DecodeError);

/// The view of a result whose error is a [`DecodeFailure`].
pub open spec fn spec_result_view<T: View>(r: Result<T, DecodeFailure>) -> Result<T::V, DecodeFailure> {
    match r {
        Ok(value) => Ok(value@),
        Err(e) => Err(e),
    }
}

/// The view of a value that may be absent.
pub open spec fn spec_option_view<T: View>(value: Option<T>) -> Option<T::V> {
    match value {
        Some(value) => Some(value@),
        None => None,
    }
}

/// The views of the items of a sequence, in their order.
pub open spec fn spec_views<T: View>(items: Seq<T>) -> Seq<T::V> {
    items.map_values(|item: T| item@)
}

/// The 16-bit integer that a value holds: the value has to be two bytes.
pub open spec fn spec_parse_u16(order: Endianness, bytes: Seq<u8>) -> Option<u16> {
    if bytes.len() == 2 {
        Some(u16_value(order, bytes))
    } else {
        None
    }
}

/// The 32-bit integer that a value holds: the value has to be four bytes.
pub open spec fn spec_parse_u32(order: Endianness, bytes: Seq<u8>) -> Option<u32> {
    if bytes.len() == 4 {
        Some(u32_value(order, bytes))
    } else {
        None
    }
}

/// The bytes of a string value that are text: all but one NUL at the end.
pub open spec fn spec_string_body(bytes: Seq<u8>) -> Seq<u8> {
    if bytes.len() > 0 && bytes.last() == 0 {
        bytes.drop_last()
    } else {
        bytes
    }
}

/// The string that a value holds: its body has to be UTF-8.
pub open spec fn spec_parse_string(bytes: Seq<u8>) -> Option<Seq<char>> {
    if valid_utf8(spec_string_body(bytes)) {
        Some(decode_utf8(spec_string_body(bytes)))
    } else {
        None
    }
}

/// Reads the value of an attribute of kind `kind` as a 16-bit integer.
pub fn parse_u16(order: Endianness, kind: u16, payload: &[u8]) -> (r: Result<u16, DecodeFailure>)
    ensures
        r == match spec_parse_u16(order, payload@) {
            Some(value) => Ok::<u16, DecodeFailure>(value),
            None => Err(DecodeFailure::InvalidValue { kind }),
        },
{
    if payload.len() != 2 {
        Err(DecodeFailure::InvalidValue { kind })
    } else {
        Ok(read_u16(order, payload))
    }
}

/// Reads the value of an attribute of kind `kind` as a 32-bit integer.
pub fn parse_u32(order: Endianness, kind: u16, payload: &[u8]) -> (r: Result<u32, DecodeFailure>)
    ensures
        r == match spec_parse_u32(order, payload@) {
            Some(value) => Ok::<u32, DecodeFailure>(value),
            None => Err(DecodeFailure::InvalidValue { kind }),
        },
{
    if payload.len() != 4 {
        Err(DecodeFailure::InvalidValue { kind })
    } else {
        Ok(read_u32(order, payload))
    }
}

/// `netlink_packet_utils::parsers::parse_string`: the payload without one
/// NUL at its end, as a string. It fails exactly where those bytes are no
/// UTF-8; an empty payload gives the empty string.
#[verifier::external_body]
fn parse_string_payload(payload: &[u8]) -> (r: Result<String, netlink_packet_utils::DecodeError>)
    ensures
        r is Ok <==> valid_utf8(spec_string_body(payload@)),
        r is Ok ==> r->Ok_0@ == decode_utf8(spec_string_body(payload@)),
{
    netlink_packet_utils::parsers::parse_string(payload)
}

/// Reads the value of an attribute of kind `kind` as a string.
pub fn parse_string(kind: u16, payload: &[u8]) -> (r: Result<String, DecodeFailure>)
    ensures
        spec_result_view(r) == match spec_parse_string(payload@) {
            Some(value) => Ok::<Seq<char>, DecodeFailure>(value),
            None => Err(DecodeFailure::InvalidValue { kind }),
        },
{
    match parse_string_payload(payload) {
        Ok(value) => Ok(value),
        Err(_) => Err(DecodeFailure::InvalidValue { kind }),
    }
}

/// Copies the bytes of `value` over the start of `buffer`. No NUL is added.
pub fn emit_string(buffer: &mut [u8], value: &str)
    requires
        old(buffer)@.len() >= encode_utf8(value@).len(),
    ensures
        final(buffer)@ == encode_utf8(value@) + old(buffer)@.skip(encode_utf8(value@).len() as int),
{
    let bytes = value.as_bytes();
    let len = bytes.len();
    let ghost before = buffer@;
    let mut i: usize = 0;
    while i < len
        invariant
            i <= len,
            len == bytes@.len(),
            bytes@ == encode_utf8(value@),
            buffer@.len() == before.len(),
            before.len() >= len,
            forall|j: int| 0 <= j < i ==> buffer@[j] == bytes@[j],
            forall|j: int| i <= j < before.len() ==> buffer@[j] == before[j],
        decreases len - i,
    {
        buffer[i] = bytes[i];
        i += 1;
    }
    assert(buffer@ =~= bytes@ + before.skip(len as int));
}

/// A value with a fixed tag and a fixed form on the wire.
pub trait TypedAttribute: View + Sized {
    /// The tag of the attribute.
    spec fn spec_kind() -> u16;

    /// The bytes of a value on the wire.
    spec fn spec_value(order: Endianness, value: Self::V) -> Seq<u8>;

    /// The number of those bytes, which no byte order changes.
    spec fn spec_value_len(value: Self::V) -> nat;

    /// The value that the bytes of an attribute hold, if any.
    spec fn spec_parse_value(order: Endianness, bytes: Seq<u8>) -> Option<Self::V>;

    /// The values that are read back as they were written.
    spec fn spec_reads_back(value: Self::V) -> bool;

    /// The bytes of a value that reads back hold that value.
    proof fn lemma_value_round_trip(order: Endianness, value: Self::V)
        requires
            Self::spec_reads_back(value),
        ensures
            Self::spec_parse_value(order, Self::spec_value(order, value)) == Some(value),
    ;

    /// The length of a value on the wire is the same in both byte orders.
    proof fn lemma_value_len(order: Endianness, value: Self::V)
        ensures
            Self::spec_value(order, value).len() == Self::spec_value_len(value),
    ;

    /// The tag of the attribute.
    fn kind(&self) -> (kind: u16)
        ensures
            kind == Self::spec_kind(),
    ;

    /// The length of the value on the wire.
    fn value_len(&self) -> (len: usize)
        ensures
            len == Self::spec_value_len(self@),
    ;

    /// Writes the value over the start of `buffer`.
    fn emit_value(&self, order: Endianness, buffer: &mut [u8])
        requires
            old(buffer)@.len() >= Self::spec_value_len(self@),
        ensures
            final(buffer)@ == Self::spec_value(order, self@) + old(buffer)@.skip(
                Self::spec_value_len(self@) as int,
            ),
    ;

    /// Reads the value of `attribute`, whatever its tag is.
    fn parse(order: Endianness, attribute: &Attribute<'_>) -> (r: Result<Self, DecodeFailure>)
        ensures
            spec_result_view(r) == match Self::spec_parse_value(order, attribute@.value) {
                Some(value) => Ok::<Self::V, DecodeFailure>(value),
                None => Err(DecodeFailure::InvalidValue { kind: attribute@.kind }),
            },
    ;

    /// The size of the attribute on the wire: header, value and padding.
    fn buffer_len(&self) -> (len: usize)
        requires
            spec_encoded_length(Self::spec_value_len(self@) as int) <= usize::MAX,
        ensures
            len == spec_encoded_length(Self::spec_value_len(self@) as int),
    {
        encoded_length(self.value_len())
    }

    /// Writes header and value over the start of `buffer`. The padding
    /// behind the value is left as it is.
    fn emit(&self, order: Endianness, buffer: &mut [u8])
        requires
            Self::spec_value_len(self@) <= MAX_VALUE_LEN,
            old(buffer)@.len() >= 4 + Self::spec_value_len(self@),
        ensures
            final(buffer)@ == spec_emit(order, Self::spec_kind(), Self::spec_value(order, self@))
                + old(buffer)@.skip(4 + Self::spec_value_len(self@) as int),
    {
        let len = self.value_len();
        let ghost before = buffer@;
        proof {
            Self::lemma_value_len(order, self@);
        }
        let (header, rest) = buffer.split_at_mut(4);
        emit_header(order, header, self.kind(), len);
        self.emit_value(order, rest);
        assert(header@ + rest@ =~= spec_emit(
            order,
            Self::spec_kind(),
            Self::spec_value(order, self@),
        ) + before.skip(4 + len));
    }
}

/// What reading `attribute` as a `T` gives: its value, or a failure that
/// names the attribute.
pub open spec fn spec_parse_typed<T: TypedAttribute>(
    order: Endianness,
    attribute: AttributeView,
) -> Result<T::V, DecodeFailure> {
    match T::spec_parse_value(order, attribute.value) {
        Some(value) => Ok(value),
        None => Err(DecodeFailure::InvalidValue { kind: attribute.kind }),
    }
}

/// The bytes that some siblings take up, the padding of each included.
pub open spec fn spec_size_all<T: TypedAttribute>(values: Seq<T::V>) -> int
    decreases values.len(),
{
    if values.len() == 0 {
        0
    } else {
        spec_encoded_length(T::spec_value_len(values.first()) as int) + spec_size_all::<T>(
            values.drop_first(),
        )
    }
}

/// What a buffer holds after some siblings were written over its start:
/// each of them at the next multiple of four behind the one before, and the
/// padding bytes as they were.
pub open spec fn spec_emit_all<T: TypedAttribute>(
    order: Endianness,
    values: Seq<T::V>,
    before: Seq<u8>,
) -> Seq<u8>
    decreases values.len(),
{
    if values.len() == 0 {
        before
    } else {
        let emitted = spec_emit(order, T::spec_kind(), T::spec_value(order, values.first()));
        let padded = spec_encoded_length(T::spec_value_len(values.first()) as int);
        emitted + before.subrange(emitted.len() as int, padded) + spec_emit_all::<T>(
            order,
            values.drop_first(),
            before.skip(padded),
        )
    }
}

/// Every one of `values` has a value that the length field can declare.
pub open spec fn spec_all_fit<T: TypedAttribute>(values: Seq<T::V>) -> bool {
    forall|i: int| 0 <= i < values.len() ==> T::spec_value_len(#[trigger] values[i]) <= MAX_VALUE_LEN
}

/// The size on the wire of some sibling attributes, the padding of each
/// included.
pub fn buffer_len_all<T: TypedAttribute>(attributes: &[T]) -> (len: usize)
    requires
        spec_all_fit::<T>(spec_views(attributes@)),
        spec_size_all::<T>(spec_views(attributes@)) <= usize::MAX,
    ensures
        len == spec_size_all::<T>(spec_views(attributes@)),
{
    let ghost values = spec_views(attributes@);
    let mut len: usize = 0;
    let mut i: usize = 0;
    assert(values.skip(0) =~= values);
    proof {
        lemma_size_all_is_no_less_than_nothing::<T>(values);
    }
    while i < attributes.len()
        invariant
            i <= attributes@.len(),
            values == spec_views(attributes@),
            spec_all_fit::<T>(values),
            spec_size_all::<T>(values) <= usize::MAX,
            spec_size_all::<T>(values) == len + spec_size_all::<T>(values.skip(i as int)),
            spec_size_all::<T>(values.skip(i as int)) >= 0,
        decreases attributes@.len() - i,
    {
        let ghost rest = values.skip(i as int);
        assert(rest.first() == values[i as int]);
        assert(rest.drop_first() =~= values.skip(i + 1));
        assert(values[i as int] == attributes@[i as int]@);
        proof {
            lemma_size_all_is_no_less_than_nothing::<T>(values.skip(i + 1));
        }
        len = len + attributes[i].buffer_len();
        i += 1;
    }
    len
}

/// Writes some sibling attributes over the start of `buffer`, each at the
/// next multiple of four behind the one before. The padding bytes are left
/// as they are.
pub fn emit_all<T: TypedAttribute>(attributes: &[T], order: Endianness, buffer: &mut [u8])
    requires
        spec_all_fit::<T>(spec_views(attributes@)),
        old(buffer)@.len() >= spec_size_all::<T>(spec_views(attributes@)),
    ensures
        final(buffer)@ == spec_emit_all::<T>(order, spec_views(attributes@), old(buffer)@),
{
    let ghost values = spec_views(attributes@);
    let ghost before = buffer@;
    let total = buffer.len();
    let mut offset: usize = 0;
    let mut i: usize = 0;
    assert(values.skip(0) =~= values);
    assert(before.skip(0) =~= before);
    assert(buffer@.take(0) + spec_emit_all::<T>(order, values, before) =~= spec_emit_all::<T>(
        order,
        values,
        before,
    ));
    while i < attributes.len()
        invariant
            i <= attributes@.len(),
            values == spec_views(attributes@),
            spec_all_fit::<T>(values),
            offset <= total,
            total == before.len(),
            buffer@.len() == total,
            buffer@.len() - offset >= spec_size_all::<T>(values.skip(i as int)),
            buffer@.skip(offset as int) == before.skip(offset as int),
            spec_emit_all::<T>(order, values, before) == buffer@.take(offset as int)
                + spec_emit_all::<T>(order, values.skip(i as int), before.skip(offset as int)),
        decreases attributes@.len() - i,
    {
        let ghost rest = values.skip(i as int);
        let ghost current = buffer@;
        let ghost value = values[i as int];
        assert(rest.first() == value);
        assert(rest.drop_first() =~= values.skip(i + 1));
        assert(value == attributes@[i as int]@);
        proof {
            lemma_size_all_is_no_less_than_nothing::<T>(values.skip(i + 1));
        }
        let attribute = &attributes[i];
        let len = attribute.value_len();
        let padded = encoded_length(len);
        proof {
            T::lemma_value_len(order, value);
        }
        assert(spec_size_all::<T>(rest) == padded + spec_size_all::<T>(values.skip(i + 1)));
        assert(offset + padded <= total);
        let (front, tail) = buffer.split_at_mut(offset);
        attribute.emit(order, tail);
        proof {
            let emitted = spec_emit(order, T::spec_kind(), T::spec_value(order, value));
            let old_tail = before.skip(offset as int);
            assert(tail@ =~= emitted + old_tail.skip(emitted.len() as int));
            assert((front@ + tail@).take(offset + padded) =~= current.take(offset as int) + (
            emitted + old_tail.subrange(emitted.len() as int, padded as int)));
            assert((front@ + tail@).skip(offset + padded) =~= before.skip(offset + padded));
            assert(old_tail.skip(padded as int) =~= before.skip(offset + padded));
        }
        offset = offset + padded;
        i += 1;
    }
    assert(values.skip(i as int) =~= Seq::<T::V>::empty());
    assert(buffer@.take(offset as int) + before.skip(offset as int) =~= buffer@);
}

/// Siblings take up no less than nothing.
pub proof fn lemma_size_all_is_no_less_than_nothing<T: TypedAttribute>(values: Seq<T::V>)
    ensures
        spec_size_all::<T>(values) >= 0,
    decreases values.len(),
{
    if values.len() > 0 {
        lemma_size_all_is_no_less_than_nothing::<T>(values.drop_first());
    }
}

/// A 16-bit integer that was written as a value is read back from it.
pub proof fn lemma_u16_value_round_trip(order: Endianness, value: u16)
    ensures
        spec_parse_u16(order, u16_bytes(order, value)) == Some(value),
{
    crate::endian::lemma_u16_round_trip(order, value);
}

/// A 32-bit integer that was written as a value is read back from it.
pub proof fn lemma_u32_value_round_trip(order: Endianness, value: u32)
    ensures
        spec_parse_u32(order, u32_bytes(order, value)) == Some(value),
{
    crate::endian::lemma_u32_round_trip(order, value);
}

/// The bytes of a string hold the string, unless they end in a NUL.
pub proof fn lemma_string_value_round_trip(value: Seq<char>)
    requires
        encode_utf8(value).len() == 0 || encode_utf8(value).last() != 0,
    ensures
        spec_parse_string(encode_utf8(value)) == Some(value),
{
    vstd::utf8::encode_utf8_valid_utf8(value);
    vstd::utf8::encode_utf8_decode_utf8(value);
}

/// Round trip: from what `emit` wrote, `Attribute::parse` and then the
/// `parse` of the type read the value back, whatever follows in the buffer.
/// This holds of every integer, and of every string that does not end in a
/// NUL.
pub proof fn lemma_typed_round_trip<T: TypedAttribute>(
    order: Endianness,
    value: T::V,
    rest: Seq<u8>,
)
    requires
        T::spec_reads_back(value),
        T::spec_value_len(value) <= MAX_VALUE_LEN,
    ensures
        spec_attribute(order, spec_emit(order, T::spec_kind(), T::spec_value(order, value)) + rest)
            is Ok,
        spec_attribute(
            order,
            spec_emit(order, T::spec_kind(), T::spec_value(order, value)) + rest,
        )->Ok_0.kind == spec_kind_of_tag(T::spec_kind()),
        spec_parse_typed::<T>(
            order,
            spec_attribute(
                order,
                spec_emit(order, T::spec_kind(), T::spec_value(order, value)) + rest,
            )->Ok_0,
        ) == Ok::<T::V, DecodeFailure>(value),
{
    T::lemma_value_len(order, value);
    lemma_emitted_is_parsed(order, T::spec_kind(), T::spec_value(order, value), rest);
    T::lemma_value_round_trip(order, value);
}

/// Writing siblings over a buffer does not change its length.
pub proof fn lemma_emit_all_keeps_the_length<T: TypedAttribute>(
    order: Endianness,
    values: Seq<T::V>,
    before: Seq<u8>,
)
    requires
        before.len() >= spec_size_all::<T>(values),
    ensures
        spec_emit_all::<T>(order, values, before).len() == before.len(),
    decreases values.len(),
{
    if values.len() > 0 {
        let padded = spec_encoded_length(T::spec_value_len(values.first()) as int);
        T::lemma_value_len(order, values.first());
        lemma_size_all_is_no_less_than_nothing::<T>(values.drop_first());
        lemma_emit_all_keeps_the_length::<T>(order, values.drop_first(), before.skip(padded));
    }
}

/// Nested list round trip: a walk over siblings that were written one
/// behind the other finds as many attributes as were written, and each is
/// read back as the value that was written, whatever the padding holds.
/// This holds of every list of integers, and of strings none of which ends
/// in a NUL.
pub proof fn lemma_siblings_round_trip<T: TypedAttribute>(
    order: Endianness,
    values: Seq<T::V>,
    before: Seq<u8>,
)
    requires
        spec_all_fit::<T>(values),
        forall|i: int| 0 <= i < values.len() ==> T::spec_reads_back(#[trigger] values[i]),
        before.len() == spec_size_all::<T>(values),
    ensures
        spec_attributes(order, spec_emit_all::<T>(order, values, before)).len() == values.len(),
        forall|i: int|
            0 <= i < values.len() ==> (#[trigger] spec_attributes(
                order,
                spec_emit_all::<T>(order, values, before),
            )[i]) is Ok,
        forall|i: int|
            0 <= i < values.len() ==> spec_parse_typed::<T>(
                order,
                (#[trigger] spec_attributes(
                    order,
                    spec_emit_all::<T>(order, values, before),
                )[i])->Ok_0,
            ) == Ok::<T::V, DecodeFailure>(values[i]),
    decreases values.len(),
{
    let bytes = spec_emit_all::<T>(order, values, before);
    if values.len() > 0 {
        let value = values.first();
        let rest = values.drop_first();
        let emitted = spec_emit(order, T::spec_kind(), T::spec_value(order, value));
        let padded = spec_encoded_length(T::spec_value_len(value) as int);
        let behind = spec_emit_all::<T>(order, rest, before.skip(padded));
        let padding = before.subrange(emitted.len() as int, padded);
        T::lemma_value_len(order, value);
        lemma_size_all_is_no_less_than_nothing::<T>(rest);
        lemma_emit_all_keeps_the_length::<T>(order, rest, before.skip(padded));
        assert(values[0] == value);
        assert(bytes == emitted + (padding + behind)) by {
            assert(emitted + padding + behind =~= emitted + (padding + behind));
        }
        lemma_typed_round_trip::<T>(order, value, padding + behind);
        assert(spec_after(order, bytes) == behind) by {
            assert(padding.len() == padded - emitted.len());
            lemma_emitted_is_passed(
                order,
                T::spec_kind(),
                T::spec_value(order, value),
                padding,
                behind,
            );
            assert(emitted + padding + behind =~= bytes);
        }
        assert forall|i: int| 0 <= i < rest.len() implies T::spec_reads_back(
            #[trigger] rest[i],
        ) && T::spec_value_len(rest[i]) <= MAX_VALUE_LEN by {
            assert(rest[i] == values[i + 1]);
        }
        lemma_siblings_round_trip::<T>(order, rest, before.skip(padded));
        let items = spec_attributes(order, bytes);
        let later = spec_attributes(order, behind);
        assert(items =~= seq![spec_attribute(order, bytes)] + later);
        assert forall|i: int| 0 <= i < values.len() implies (#[trigger] items[i]) is Ok
            && spec_parse_typed::<T>(order, items[i]->Ok_0) == Ok::<T::V, DecodeFailure>(
            values[i],
        ) by {
            if i > 0 {
                assert(items[i] == later[i - 1]);
                assert(values[i] == rest[i - 1]);
            }
        }
    }
}

} // verus!

//! The attribute format: a 16-bit length, a 16-bit tag, the value, and
//! padding up to the next multiple of four bytes.
//!
//! The length counts the header and the value, not the padding. The two top
//! bits of the tag are flags and no part of the kind.

use crate::endian::{read_u16, u16_bytes, u16_value, write_u16, Endianness};
use crate::error::DecodeFailure;
use vstd::prelude::*;

verus! {

/// The size of the header of an attribute.
pub const HEADER_LEN: usize = 4;

/// The longest value whose length the 16-bit length field can still declare.
pub const MAX_VALUE_LEN: usize = 65531;

/// The least multiple of four that is not below `len`.
pub open spec fn aligned(len: int) -> int {
    (len + 3) / 4 * 4
}

/// The bytes that an attribute with a value of `value_len` bytes takes up:
/// header, value and padding.
pub open spec fn spec_encoded_length(value_len: int) -> int {
    4 + aligned(value_len)
}

/// The size on the wire of an attribute with a value of `value_len` bytes.
pub fn encoded_length(value_len: usize) -> (len: usize)
    requires
        spec_encoded_length(value_len as int) <= usize::MAX,
    ensures
        len == spec_encoded_length(value_len as int),
{
    let padding = (4 - value_len % 4) % 4;
    value_len + padding + 4
}

/// The encoded length is the smallest multiple of four that holds the
/// header and the value.
pub proof fn lemma_encoded_length_is_least(value_len: int, other: int)
    requires
        0 <= value_len,
        other % 4 == 0,
        other >= 4 + value_len,
    ensures
        spec_encoded_length(value_len) % 4 == 0,
        spec_encoded_length(value_len) >= 4 + value_len,
        spec_encoded_length(value_len) <= other,
{
}

/// The kind in a tag: the tag without its two flag bits.
pub open spec fn spec_kind_of_tag(tag: u16) -> u16 {
    (tag % 0x4000) as u16
}

/// An attribute as a value: its kind and the bytes of its value.
pub struct AttributeView {
    pub kind: u16,
    pub value: Seq<u8>,
}

/// An attribute found in a buffer. The value borrows from the buffer.
#[derive(Clone, Copy, Debug)]
pub struct Attribute<'a> {
    pub kind: u16,
    pub value: &'a [u8],
}

impl<'a> View for Attribute<'a> {
    type V = AttributeView;

    open spec fn view(&self) -> AttributeView {
        AttributeView { kind: self.kind, value: self.value@ }
    }
}

/// The attribute at the start of `bytes`, or why there is none.
#[verifier::opaque]
pub open spec fn spec_attribute(order: Endianness, bytes: Seq<u8>) -> Result<
    AttributeView,
    DecodeFailure,
> {
    if bytes.len() < 4 {
        Err(DecodeFailure::Truncated { needed: 4, available: bytes.len() as usize })
    } else {
        let declared = u16_value(order, bytes);
        let tag = u16_value(order, bytes.skip(2));
        if bytes.len() < declared {
            Err(
                DecodeFailure::Truncated {
                    needed: declared as usize,
                    available: bytes.len() as usize,
                },
            )
        } else if declared < 4 {
            Err(DecodeFailure::InvalidLength { declared })
        } else {
            Ok(
                AttributeView {
                    kind: spec_kind_of_tag(tag),
                    value: bytes.subrange(4, declared as int),
                },
            )
        }
    }
}

/// How far the next sibling lies behind the start of `attribute` in `bytes`:
/// behind its padding, or at the end of the bytes where the padding is cut.
pub open spec fn spec_stride(bytes: Seq<u8>, attribute: AttributeView) -> int {
    let padded = spec_encoded_length(attribute.value.len() as int);
    if padded < bytes.len() {
        padded
    } else {
        bytes.len() as int
    }
}

/// The view of what a step over a buffer gives.
pub open spec fn spec_item_view(item: Result<Attribute<'_>, DecodeFailure>) -> Result<
    AttributeView,
    DecodeFailure,
> {
    match item {
        Ok(attribute) => Ok(attribute@),
        Err(e) => Err(e),
    }
}

impl<'a> Attribute<'a> {
    /// Reads the attribute at the start of `buffer`: its header, and the
    /// value that the header declares.
    pub fn parse(order: Endianness, buffer: &'a [u8]) -> (r: Result<Attribute<'a>, DecodeFailure>)
        ensures
            spec_item_view(r) == spec_attribute(order, buffer@),
    {
        proof {
            reveal(spec_attribute);
        }
        let available = buffer.len();
        if available < HEADER_LEN {
            return Err(DecodeFailure::Truncated { needed: HEADER_LEN, available });
        }
        let declared = read_u16(order, buffer);
        let tag = read_u16(order, vstd::slice::slice_subrange(buffer, 2, available));
        assert(buffer@.subrange(2, available as int) == buffer@.skip(2));
        if available < declared as usize {
            Err(DecodeFailure::Truncated { needed: declared as usize, available })
        } else if (declared as usize) < HEADER_LEN {
            Err(DecodeFailure::InvalidLength { declared })
        } else {
            let kind = tag & 0x3fff;
            assert(tag & 0x3fff == tag % 0x4000) by (bit_vector);
            let value = vstd::slice::slice_subrange(buffer, HEADER_LEN, declared as usize);
            Ok(Attribute { kind, value })
        }
    }
}

/// What is left of `bytes` behind the attribute at their start: the bytes
/// behind its padding, or nothing where there is no attribute.
pub open spec fn spec_after(order: Endianness, bytes: Seq<u8>) -> Seq<u8> {
    match spec_attribute(order, bytes) {
        Ok(attribute) => bytes.skip(spec_stride(bytes, attribute)),
        Err(_) => Seq::empty(),
    }
}

/// The siblings that `bytes` hold, in their order. The sequence ends at the
/// end of the bytes, or with the first failure.
pub open spec fn spec_attributes(order: Endianness, bytes: Seq<u8>) -> Seq<
    Result<AttributeView, DecodeFailure>,
>
    decreases bytes.len(),
{
    if bytes.len() == 0 {
        Seq::empty()
    } else {
        seq![spec_attribute(order, bytes)] + spec_attributes(order, spec_after(order, bytes))
    }
}

/// A walk over the sibling attributes of a buffer.
pub struct Attributes<'a> {
    order: Endianness,
    remaining: &'a [u8],
}

impl<'a> Attributes<'a> {
    /// The byte order in which the headers are read.
    pub closed spec fn order(&self) -> Endianness {
        self.order
    }

    /// The bytes that the walk has not passed yet.
    pub closed spec fn remaining(&self) -> Seq<u8> {
        self.remaining@
    }

    /// A walk that starts at the first byte of `buffer`.
    pub fn new(order: Endianness, buffer: &'a [u8]) -> (walk: Self)
        ensures
            walk.order() == order,
            walk.remaining() == buffer@,
    {
        Attributes { order, remaining: buffer }
    }

    /// The next sibling, if any bytes are left. After a failure nothing is
    /// left.
    pub fn next(&mut self) -> (item: Option<Result<Attribute<'a>, DecodeFailure>>)
        ensures
            final(self).order() == old(self).order(),
            old(self).remaining().len() == 0 ==> item is None,
            old(self).remaining().len() == 0 ==> final(self).remaining() == old(self).remaining(),
            old(self).remaining().len() > 0 ==> item is Some,
            old(self).remaining().len() > 0 ==> spec_item_view(item.unwrap()) == spec_attribute(
                old(self).order(),
                old(self).remaining(),
            ),
            old(self).remaining().len() > 0 ==> final(self).remaining() == spec_after(
                old(self).order(),
                old(self).remaining(),
            ),
    {
        proof {
            reveal(spec_attribute);
        }
        let buffer = self.remaining;
        let available = buffer.len();
        if available == 0 {
            return None;
        }
        match Attribute::parse(self.order, buffer) {
            Ok(attribute) => {
                let padded = encoded_length(attribute.value.len());
                let stride = if padded < available {
                    padded
                } else {
                    available
                };
                self.remaining = vstd::slice::slice_subrange(buffer, stride, available);
                assert(buffer@.subrange(stride as int, available as int) == buffer@.skip(
                    stride as int,
                ));
                Some(Ok(attribute))
            },
            Err(e) => {
                self.remaining = vstd::slice::slice_subrange(buffer, available, available);
                assert(buffer@.subrange(available as int, available as int) == Seq::<u8>::empty());
                Some(Err(e))
            },
        }
    }
}

/// The header of an attribute of the given tag with a value of `value_len`
/// bytes.
pub open spec fn spec_header(order: Endianness, tag: u16, value_len: int) -> Seq<u8> {
    u16_bytes(order, (4 + value_len) as u16) + u16_bytes(order, tag)
}

/// An attribute on the wire, without its padding.
pub open spec fn spec_emit(order: Endianness, tag: u16, value: Seq<u8>) -> Seq<u8> {
    spec_header(order, tag, value.len() as int) + value
}

/// Writes the header of an attribute over the first four bytes of `buffer`.
pub fn emit_header(order: Endianness, buffer: &mut [u8], tag: u16, value_len: usize)
    requires
        old(buffer)@.len() >= 4,
        value_len <= MAX_VALUE_LEN,
    ensures
        final(buffer)@ == spec_header(order, tag, value_len as int) + old(buffer)@.skip(4),
{
    let (length_field, rest) = buffer.split_at_mut(2);
    write_u16(order, length_field, (value_len + HEADER_LEN) as u16);
    write_u16(order, rest, tag);
}

/// A buffer that is shorter than a header, or shorter than the length that
/// its header declares, holds no attribute: the failure is a truncation.
pub proof fn lemma_truncated_is_rejected(order: Endianness, bytes: Seq<u8>)
    requires
        bytes.len() < 4 || bytes.len() < u16_value(order, bytes),
    ensures
        spec_attribute(order, bytes) is Err,
        spec_attribute(order, bytes)->Err_0 is Truncated,
{
    reveal(spec_attribute);
}

/// A header that declares exactly its own four bytes is an attribute with
/// an empty value.
pub proof fn lemma_empty_value_is_accepted(order: Endianness, bytes: Seq<u8>)
    requires
        bytes.len() >= 4,
        u16_value(order, bytes) == 4,
    ensures
        spec_attribute(order, bytes) is Ok,
        spec_attribute(order, bytes)->Ok_0.value.len() == 0,
{
    reveal(spec_attribute);
}

/// What was emitted is read back: the kind without its flags, and the
/// value, whatever follows the value in the buffer.
pub proof fn lemma_emitted_is_parsed(order: Endianness, tag: u16, value: Seq<u8>, rest: Seq<u8>)
    requires
        value.len() <= MAX_VALUE_LEN,
    ensures
        spec_attribute(order, spec_emit(order, tag, value) + rest) == Ok::<
            AttributeView,
            DecodeFailure,
        >(AttributeView { kind: spec_kind_of_tag(tag), value }),
{
    reveal(spec_attribute);
    let bytes = spec_emit(order, tag, value) + rest;
    let declared = (4 + value.len()) as u16;
    crate::endian::lemma_u16_round_trip(order, declared);
    crate::endian::lemma_u16_round_trip(order, tag);
    assert(u16_value(order, bytes) == declared);
    assert(bytes.skip(2).subrange(0, 2) == u16_bytes(order, tag));
    assert(u16_value(order, bytes.skip(2)) == tag);
    assert(bytes.subrange(4, declared as int) == value);
}


/// The walk goes on behind the padding of what was emitted, whatever the
/// padding holds.
pub proof fn lemma_emitted_is_passed(
    order: Endianness,
    tag: u16,
    value: Seq<u8>,
    padding: Seq<u8>,
    behind: Seq<u8>,
)
    requires
        value.len() <= MAX_VALUE_LEN,
        padding.len() == aligned(value.len() as int) - value.len(),
    ensures
        spec_after(order, spec_emit(order, tag, value) + padding + behind) == behind,
{
    let bytes = spec_emit(order, tag, value) + padding + behind;
    assert(bytes =~= spec_emit(order, tag, value) + (padding + behind));
    lemma_emitted_is_parsed(order, tag, value, padding + behind);
    assert(bytes.len() == 4 + value.len() + padding.len() + behind.len());
    assert(bytes.skip(4 + aligned(value.len() as int)) =~= behind);
}

} // verus!

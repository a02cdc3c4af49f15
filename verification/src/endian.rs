//! Fixed-width integers on the wire.
//!
//! Netlink carries integers in the byte order of the host. The order is a
//! value here, so that every function is verified for both orders;
//! [`native_order`] finds the one of the running machine.

use byteorder::{BigEndian, ByteOrder, LittleEndian, NativeEndian};
use vstd::prelude::*;

verus! {

/// The order of the bytes of an integer on the wire.
#[derive(Clone, Copy, Debug, PartialEq, Eq, Structural)]
pub enum Endianness {
    /// Least significant byte first.
    Little,
    /// Most significant byte first.
    Big,
}

/// The two bytes of `value` in the given order.
pub open spec fn u16_bytes(order: Endianness, value: u16) -> Seq<u8> {
    let low = (value % 256) as u8;
    let high = (value / 256) as u8;
    match order {
        Endianness::Little => seq![low, high],
        Endianness::Big => seq![high, low],
    }
}

/// The integer that the first two bytes of `bytes` hold in the given order.
pub open spec fn u16_value(order: Endianness, bytes: Seq<u8>) -> u16
    recommends
        bytes.len() >= 2,
{
    match order {
        Endianness::Little => (bytes[0] + 256 * bytes[1]) as u16,
        Endianness::Big => (256 * bytes[0] + bytes[1]) as u16,
    }
}

/// The four bytes of `value` in the given order.
pub open spec fn u32_bytes(order: Endianness, value: u32) -> Seq<u8> {
    let b0 = (value % 256) as u8;
    let b1 = (value / 256 % 256) as u8;
    let b2 = (value / 256 / 256 % 256) as u8;
    let b3 = (value / 256 / 256 / 256) as u8;
    match order {
        Endianness::Little => seq![b0, b1, b2, b3],
        Endianness::Big => seq![b3, b2, b1, b0],
    }
}

/// The integer that the first four bytes of `bytes` hold in the given order.
pub open spec fn u32_value(order: Endianness, bytes: Seq<u8>) -> u32
    recommends
        bytes.len() >= 4,
{
    match order {
        Endianness::Little => (bytes[0] + 256 * bytes[1] + 65536 * bytes[2] + 16777216
            * bytes[3]) as u32,
        Endianness::Big => (16777216 * bytes[0] + 65536 * bytes[1] + 256 * bytes[2]
            + bytes[3]) as u32,
    }
}

/// Reading back what was written gives the integer again.
pub proof fn lemma_u16_round_trip(order: Endianness, value: u16)
    ensures
        u16_bytes(order, value).len() == 2,
        u16_value(order, u16_bytes(order, value)) == value,
{
}

/// Reading back what was written gives the integer again.
pub proof fn lemma_u32_round_trip(order: Endianness, value: u32)
    ensures
        u32_bytes(order, value).len() == 4,
        u32_value(order, u32_bytes(order, value)) == value,
{
    let q1 = value / 256;
    let q2 = q1 / 256;
    let q3 = q2 / 256;
    assert(value == 256 * q1 + value % 256);
    assert(q1 == 256 * q2 + q1 % 256);
    assert(q2 == 256 * q3 + q2 % 256);
    assert(q3 < 256);
    assert(value == value % 256 + 256 * (q1 % 256) + 65536 * (q2 % 256) + 16777216 * q3);
}

/// `byteorder::LittleEndian::read_u16`: the first two bytes of `buf` read
/// least significant byte first. It panics on a shorter buffer.
#[verifier::external_body]
fn read_u16_le(buf: &[u8]) -> (value: u16)
    requires
        buf@.len() >= 2,
    ensures
        value == u16_value(Endianness::Little, buf@),
{
    LittleEndian::read_u16(buf)
}

/// `byteorder::BigEndian::read_u16`: the first two bytes of `buf` read most
/// significant byte first. It panics on a shorter buffer.
#[verifier::external_body]
fn read_u16_be(buf: &[u8]) -> (value: u16)
    requires
        buf@.len() >= 2,
    ensures
        value == u16_value(Endianness::Big, buf@),
{
    BigEndian::read_u16(buf)
}

/// `byteorder::LittleEndian::read_u32`: the first four bytes of `buf` read
/// least significant byte first. It panics on a shorter buffer.
#[verifier::external_body]
fn read_u32_le(buf: &[u8]) -> (value: u32)
    requires
        buf@.len() >= 4,
    ensures
        value == u32_value(Endianness::Little, buf@),
{
    LittleEndian::read_u32(buf)
}

/// `byteorder::BigEndian::read_u32`: the first four bytes of `buf` read most
/// significant byte first. It panics on a shorter buffer.
#[verifier::external_body]
fn read_u32_be(buf: &[u8]) -> (value: u32)
    requires
        buf@.len() >= 4,
    ensures
        value == u32_value(Endianness::Big, buf@),
{
    BigEndian::read_u32(buf)
}

/// `byteorder::LittleEndian::write_u16`: overwrites the first two bytes of
/// `buf` with `value`, least significant byte first, and leaves the rest as
/// it was. It panics on a shorter buffer.
#[verifier::external_body]
fn write_u16_le(buf: &mut [u8], value: u16)
    requires
        old(buf)@.len() >= 2,
    ensures
        final(buf)@ == u16_bytes(Endianness::Little, value) + old(buf)@.skip(2),
{
    LittleEndian::write_u16(buf, value)
}

/// `byteorder::BigEndian::write_u16`: overwrites the first two bytes of `buf`
/// with `value`, most significant byte first, and leaves the rest as it was.
/// It panics on a shorter buffer.
#[verifier::external_body]
fn write_u16_be(buf: &mut [u8], value: u16)
    requires
        old(buf)@.len() >= 2,
    ensures
        final(buf)@ == u16_bytes(Endianness::Big, value) + old(buf)@.skip(2),
{
    BigEndian::write_u16(buf, value)
}

/// `byteorder::LittleEndian::write_u32`: overwrites the first four bytes of
/// `buf` with `value`, least significant byte first, and leaves the rest as
/// it was. It panics on a shorter buffer.
#[verifier::external_body]
fn write_u32_le(buf: &mut [u8], value: u32)
    requires
        old(buf)@.len() >= 4,
    ensures
        final(buf)@ == u32_bytes(Endianness::Little, value) + old(buf)@.skip(4),
{
    LittleEndian::write_u32(buf, value)
}

/// `byteorder::BigEndian::write_u32`: overwrites the first four bytes of `buf`
/// with `value`, most significant byte first, and leaves the rest as it was.
/// It panics on a shorter buffer.
#[verifier::external_body]
fn write_u32_be(buf: &mut [u8], value: u32)
    requires
        old(buf)@.len() >= 4,
    ensures
        final(buf)@ == u32_bytes(Endianness::Big, value) + old(buf)@.skip(4),
{
    BigEndian::write_u32(buf, value)
}

/// `byteorder::NativeEndian::read_u16`: the first two bytes of `buf` read in
/// the order of the machine, which is one of the two orders. It panics on a
/// shorter buffer.
#[verifier::external_body]
fn read_u16_native(buf: &[u8]) -> (value: u16)
    requires
        buf@.len() >= 2,
    ensures
        value == u16_value(Endianness::Little, buf@) || value == u16_value(
            Endianness::Big,
            buf@,
        ),
{
    NativeEndian::read_u16(buf)
}

/// Reads a 16-bit integer from the first two bytes of `buf`.
pub fn read_u16(order: Endianness, buf: &[u8]) -> (value: u16)
    requires
        buf@.len() >= 2,
    ensures
        value == u16_value(order, buf@),
{
    match order {
        Endianness::Little => read_u16_le(buf),
        Endianness::Big => read_u16_be(buf),
    }
}

/// Reads a 32-bit integer from the first four bytes of `buf`.
pub fn read_u32(order: Endianness, buf: &[u8]) -> (value: u32)
    requires
        buf@.len() >= 4,
    ensures
        value == u32_value(order, buf@),
{
    match order {
        Endianness::Little => read_u32_le(buf),
        Endianness::Big => read_u32_be(buf),
    }
}

/// Writes `value` over the first two bytes of `buf`.
pub fn write_u16(order: Endianness, buf: &mut [u8], value: u16)
    requires
        old(buf)@.len() >= 2,
    ensures
        final(buf)@ == u16_bytes(order, value) + old(buf)@.skip(2),
{
    match order {
        Endianness::Little => write_u16_le(buf, value),
        Endianness::Big => write_u16_be(buf, value),
    }
}

/// Writes `value` over the first four bytes of `buf`.
pub fn write_u32(order: Endianness, buf: &mut [u8], value: u32)
    requires
        old(buf)@.len() >= 4,
    ensures
        final(buf)@ == u32_bytes(order, value) + old(buf)@.skip(4),
{
    match order {
        Endianness::Little => write_u32_le(buf, value),
        Endianness::Big => write_u32_be(buf, value),
    }
}

/// The order in which the bytes `[1, 0]` hold `probe`, the little one where
/// they hold 1.
pub open spec fn order_reading(probe: u16) -> Endianness {
    if probe == 1 {
        Endianness::Little
    } else {
        Endianness::Big
    }
}

/// Tells the byte order from what a machine read in the bytes `[1, 0]`.
pub fn order_of_probe(probe: u16) -> (order: Endianness)
    ensures
        order == order_reading(probe),
{
    if probe == 1 {
        Endianness::Little
    } else {
        Endianness::Big
    }
}

/// What an order reads in the bytes `[1, 0]` tells the order.
pub proof fn lemma_probe_tells_order(order: Endianness)
    ensures
        order_reading(u16_value(order, seq![1u8, 0u8])) == order,
{
}

/// The byte order of the running machine: the order in which it reads the
/// integer that it holds in the bytes `[1, 0]`. Nothing is known of it
/// before the machine is asked.
pub fn native_order() -> (order: Endianness) {
    let probe: [u8; 2] = [1, 0];
    let seen = read_u16_native(probe.as_slice());
    order_of_probe(seen)
}

} // verus!

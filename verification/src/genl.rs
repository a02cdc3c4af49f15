//! The payload of a generic netlink message: one byte of command, one byte
//! of version, two reserved bytes, and then the attributes.

use crate::error::DecodeFailure;
use vstd::prelude::*;

verus! {

/// The size of the header that stands before the attributes.
pub const GENL_HEADER_LEN: usize = 4;

/// A buffer that holds the payload of a generic netlink message.
pub struct GenericBuffer<T> {
    buffer: T,
}

impl<T> GenericBuffer<T> {
    /// The buffer that is wrapped.
    pub closed spec fn spec_buffer(&self) -> T {
        self.buffer
    }

    /// Wraps `buffer`. Nothing is asked of its length: the accessors ask
    /// for the bytes that they read.
    pub fn new(buffer: T) -> (wrapped: Self)
        ensures
            wrapped.spec_buffer() == buffer,
    {
        GenericBuffer { buffer }
    }
}

impl<'a> View for GenericBuffer<&'a [u8]> {
    type V = Seq<u8>;

    open spec fn view(&self) -> Seq<u8> {
        self.spec_buffer()@
    }
}

impl<'a> View for GenericBuffer<&'a mut [u8]> {
    type V = Seq<u8>;

    open spec fn view(&self) -> Seq<u8> {
        self.spec_buffer()@
    }
}

impl<'a> GenericBuffer<&'a [u8]> {
    /// The number of bytes in the buffer.
    pub fn length(&self) -> (len: usize)
        ensures
            len == self@.len(),
    {
        self.buffer.len()
    }

    /// Wraps `buffer`, if it holds the header: a buffer of fewer than four
    /// bytes is truncated. The accessors of a checked buffer find the
    /// bytes that they read.
    pub fn new_checked(buffer: &'a [u8]) -> (r: Result<Self, DecodeFailure>)
        ensures
            buffer@.len() < 4 ==> r == Err::<Self, DecodeFailure>(
                DecodeFailure::Truncated { needed: 4, available: buffer@.len() as usize },
            ),
            buffer@.len() >= 4 ==> r is Ok && r->Ok_0@ == buffer@,
    {
        let available = buffer.len();
        if available < GENL_HEADER_LEN {
            Err(DecodeFailure::Truncated { needed: GENL_HEADER_LEN, available })
        } else {
            Ok(Self::new(buffer))
        }
    }

    /// All bytes of the buffer.
    pub fn inner(&self) -> (bytes: &'a [u8])
        ensures
            bytes@ == self@,
    {
        self.buffer
    }

    /// The command of the message: its first byte.
    pub fn command(&self) -> (command: u8)
        requires
            self@.len() >= 1,
        ensures
            command == self@[0],
    {
        self.buffer[0]
    }

    /// The version of the message: its second byte.
    pub fn version(&self) -> (version: u8)
        requires
            self@.len() >= 2,
        ensures
            version == self@[1],
    {
        self.buffer[1]
    }

    /// The attributes of the message: what follows the four bytes of the
    /// header.
    pub fn attributes(&self) -> (attributes: &'a [u8])
        requires
            self@.len() >= 4,
        ensures
            attributes@ == self@.skip(4),
    {
        let len = self.buffer.len();
        let attributes = vstd::slice::slice_subrange(self.buffer, GENL_HEADER_LEN, len);
        assert(attributes@ == self@.skip(4));
        attributes
    }
}

impl<'a> GenericBuffer<&'a mut [u8]> {
    /// The number of bytes in the buffer.
    pub fn length(&self) -> (len: usize)
        ensures
            len == self@.len(),
    {
        self.buffer.len()
    }

    /// All bytes of the buffer, to be written.
    pub fn inner_mut(&mut self) -> (bytes: &mut [u8])
        ensures
            bytes@ == old(self)@,
            final(self)@ == final(bytes)@,
    {
        &mut *self.buffer
    }
}

} // verus!

//! Why a buffer could not be decoded.

use vstd::prelude::*;

verus! {

/// The records that are read from a list of sibling attributes.
#[derive(Clone, Copy, Debug, PartialEq, Eq, Structural)]
pub enum RecordKind {
    /// One operation of a family.
    Operation,
    /// One multicast group of a family.
    MulticastGroup,
    /// The description of a family.
    NewFamily,
    /// The list of the operations of a family.
    OperationList,
    /// The list of the multicast groups of a family.
    MulticastGroupList,
}

/// A failed decoding. Nothing is accepted in part: the first failure met
/// while walking a buffer is the result for the whole buffer.
#[derive(Clone, Copy, Debug, PartialEq, Eq, Structural)]
pub enum DecodeFailure {
    /// Fewer bytes are left than an attribute header, or the length declared
    /// in one, asks for.
    Truncated { needed: usize, available: usize },
    /// An attribute declares a length that does not even cover its header.
    InvalidLength { declared: u16 },
    /// The value of the attribute `kind` is not of the form that its type
    /// requires: not of the width of the integer, or not UTF-8.
    InvalidValue { kind: u16 },
    /// An attribute whose tag the record does not know.
    UnknownTag { record: RecordKind, kind: u16 },
    /// No attribute carried the tag of a field of the record.
    MissingField { record: RecordKind, tag: u16 },
    /// A command that the addressed family does not define here.
    UnsupportedCommand { command: u8 },
    /// A message type that is no family known here.
    UnknownMessageType { message_type: u16 },
}

impl DecodeFailure {
    /// True of the failures that come from a buffer that ends too early.
    pub open spec fn spec_is_truncation(&self) -> bool {
        self is Truncated
    }

    /// Tells whether the buffer ended too early.
    #[verifier::when_used_as_spec(spec_is_truncation)]
    pub fn is_truncation(&self) -> (truncated: bool)
        ensures
            truncated == self.spec_is_truncation(),
    {
        match self {
            DecodeFailure::Truncated { .. } => true,
            _ => false,
        }
    }
}

} // verus!

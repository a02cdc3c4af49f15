//! The wireless family, as far as one request goes: the request for an
//! interface, addressed with the id that the control family gave.

use crate::attribute::{spec_emit, spec_encoded_length, Attribute};
use crate::controller::{
    spec_deserialize, ControlMessage, ControlMessageView, FamilyId, FamilyName, NewFamily,
};
use crate::endian::{u32_bytes, write_u32, Endianness};
use crate::error::DecodeFailure;
use crate::typed::{
    emit_string, lemma_string_value_round_trip, lemma_u32_value_round_trip, parse_string,
    parse_u32, spec_parse_string, spec_parse_u32, TypedAttribute,
};
use vstd::prelude::*;
use vstd::std_specs::convert::FromSpecImpl;
use vstd::utf8::encode_utf8;

verus! {

/// The command that asks for an interface.
pub const NL80211_CMD_GET_INTERFACE: u8 = 5;

/// The tag of the index of an interface.
pub const NL80211_ATTR_IFINDEX: u16 = 3;

/// The tag of the name of an interface.
pub const NL80211_ATTR_IFNAME: u16 = 4;

/// The index of a network interface.
#[derive(Debug, Copy, Clone, PartialEq, Eq)]
pub struct InterfaceIndex(pub u32);

impl View for InterfaceIndex {
    type V = u32;

    open spec fn view(&self) -> u32 {
        self.0
    }
}

impl TypedAttribute for InterfaceIndex {
    open spec fn spec_kind() -> u16 {
        NL80211_ATTR_IFINDEX
    }

    open spec fn spec_value(order: Endianness, value: u32) -> Seq<u8> {
        u32_bytes(order, value)
    }

    open spec fn spec_value_len(value: u32) -> nat {
        4
    }

    open spec fn spec_parse_value(order: Endianness, bytes: Seq<u8>) -> Option<u32> {
        spec_parse_u32(order, bytes)
    }

    open spec fn spec_reads_back(value: u32) -> bool {
        true
    }

    proof fn lemma_value_round_trip(order: Endianness, value: u32) {
        lemma_u32_value_round_trip(order, value);
    }

    proof fn lemma_value_len(order: Endianness, value: u32) {
    }

    fn kind(&self) -> u16 {
        NL80211_ATTR_IFINDEX
    }

    fn value_len(&self) -> usize {
        4
    }

    fn emit_value(&self, order: Endianness, buffer: &mut [u8]) {
        write_u32(order, buffer, self.0)
    }

    fn parse(order: Endianness, attribute: &Attribute<'_>) -> (r: Result<Self, DecodeFailure>) {
        match parse_u32(order, attribute.kind, attribute.value) {
            Ok(value) => Ok(InterfaceIndex(value)),
            Err(e) => Err(e),
        }
    }
}

impl From<u32> for InterfaceIndex {
    fn from(v: u32) -> (attr: Self) {
        InterfaceIndex(v)
    }
}

impl FromSpecImpl<u32> for InterfaceIndex {
    open spec fn obeys_from_spec() -> bool {
        true
    }

    open spec fn from_spec(v: u32) -> Self {
        InterfaceIndex(v)
    }
}

impl From<InterfaceIndex> for u32 {
    fn from(attr: InterfaceIndex) -> (v: u32) {
        attr.0
    }
}

impl FromSpecImpl<InterfaceIndex> for u32 {
    open spec fn obeys_from_spec() -> bool {
        true
    }

    open spec fn from_spec(attr: InterfaceIndex) -> u32 {
        attr.0
    }
}

/// The name of a network interface.
#[derive(Debug, Clone, PartialEq, Eq)]
pub struct InterfaceName(pub String);

impl View for InterfaceName {
    type V = Seq<char>;

    open spec fn view(&self) -> Seq<char> {
        self.0@
    }
}

impl TypedAttribute for InterfaceName {
    open spec fn spec_kind() -> u16 {
        NL80211_ATTR_IFNAME
    }

    open spec fn spec_value(order: Endianness, value: Seq<char>) -> Seq<u8> {
        encode_utf8(value)
    }

    open spec fn spec_value_len(value: Seq<char>) -> nat {
        encode_utf8(value).len()
    }

    open spec fn spec_parse_value(order: Endianness, bytes: Seq<u8>) -> Option<Seq<char>> {
        spec_parse_string(bytes)
    }

    open spec fn spec_reads_back(value: Seq<char>) -> bool {
        encode_utf8(value).len() == 0 || encode_utf8(value).last() != 0
    }

    proof fn lemma_value_round_trip(order: Endianness, value: Seq<char>) {
        lemma_string_value_round_trip(value);
    }

    proof fn lemma_value_len(order: Endianness, value: Seq<char>) {
    }

    fn kind(&self) -> u16 {
        NL80211_ATTR_IFNAME
    }

    fn value_len(&self) -> usize {
        self.0.as_str().as_bytes().len()
    }

    fn emit_value(&self, order: Endianness, buffer: &mut [u8]) {
        emit_string(buffer, self.0.as_str())
    }

    fn parse(order: Endianness, attribute: &Attribute<'_>) -> (r: Result<Self, DecodeFailure>) {
        match parse_string(attribute.kind, attribute.value) {
            Ok(value) => Ok(InterfaceName(value)),
            Err(e) => Err(e),
        }
    }
}

impl From<String> for InterfaceName {
    fn from(v: String) -> (attr: Self) {
        InterfaceName(v)
    }
}

impl FromSpecImpl<String> for InterfaceName {
    open spec fn obeys_from_spec() -> bool {
        true
    }

    open spec fn from_spec(v: String) -> Self {
        InterfaceName(v)
    }
}

impl From<InterfaceName> for String {
    fn from(attr: InterfaceName) -> (v: String) {
        attr.0
    }
}

impl FromSpecImpl<InterfaceName> for String {
    open spec fn obeys_from_spec() -> bool {
        true
    }

    open spec fn from_spec(attr: InterfaceName) -> String {
        attr.0
    }
}

impl InterfaceIndex {
    /// The index that a lookup by name gave. The lookup answers 0 where no
    /// interface has the name, and 0 is no index.
    pub fn from_lookup(index: u32) -> (found: Option<Self>)
        ensures
            index == 0 ==> found is None,
            index != 0 ==> found == Some(InterfaceIndex(index)),
    {
        if index == 0 {
            None
        } else {
            Some(InterfaceIndex(index))
        }
    }
}

/// The requests to the wireless family.
#[derive(Debug, Clone, PartialEq, Eq)]
pub enum Nl80221Message {
    /// Asks for the interface of the given index.
    GetInterface(InterfaceIndex),
}

/// The wireless family as the control family described it.
#[derive(Debug)]
pub struct Nl80221Family {
    pub family: NewFamily,
}

/// What a tagged message is made of.
pub struct Nl80221TaggedMessageView {
    pub family_id: u16,
    pub message: Nl80221Message,
}

/// A request together with the id of the family that it goes to.
#[derive(Debug, Clone, PartialEq, Eq)]
pub struct Nl80221TaggedMessage {
    family_id: FamilyId,
    pub message: Nl80221Message,
}

impl View for Nl80221TaggedMessage {
    type V = Nl80221TaggedMessageView;

    closed spec fn view(&self) -> Nl80221TaggedMessageView {
        Nl80221TaggedMessageView { family_id: self.family_id.0, message: self.message }
    }
}

impl Nl80221Family {
    /// The family that `family` describes.
    pub fn new(family: NewFamily) -> (resolved: Self)
        ensures
            resolved.family == family,
    {
        Self { family }
    }

    /// Addresses `message` to this family: the message will travel under
    /// the id that the description of the family holds.
    pub fn tag_message(&self, message: Nl80221Message) -> (tagged: Nl80221TaggedMessage)
        ensures
            tagged@.family_id == self.family@.id,
            tagged@.message == message,
    {
        Nl80221TaggedMessage { message, family_id: FamilyId(self.family.id().0) }
    }
}

/// The bytes that the attributes of a request take up, padding included.
pub open spec fn spec_attribute_size(message: Nl80221Message) -> int {
    match message {
        Nl80221Message::GetInterface(_) => spec_encoded_length(4),
    }
}

/// The command byte of a request.
pub open spec fn spec_command(message: Nl80221Message) -> u8 {
    match message {
        Nl80221Message::GetInterface(_) => NL80211_CMD_GET_INTERFACE,
    }
}

/// The attributes of a request on the wire.
pub open spec fn spec_emitted_attributes(order: Endianness, message: Nl80221Message) -> Seq<u8> {
    match message {
        Nl80221Message::GetInterface(index) => spec_emit(
            order,
            NL80211_ATTR_IFINDEX,
            u32_bytes(order, index.0),
        ),
    }
}

/// The payload of a request on the wire: command, version 0, two reserved
/// bytes that are zero, and the attributes.
pub open spec fn spec_serialize(order: Endianness, message: Nl80221Message) -> Seq<u8> {
    seq![spec_command(message), 0u8, 0u8, 0u8] + spec_emitted_attributes(order, message)
}

impl Nl80221Message {
    /// The bytes that the attributes of the request take up.
    pub fn attribute_size(&self) -> (size: usize)
        ensures
            size == spec_attribute_size(*self),
    {
        match self {
            Self::GetInterface(index) => index.buffer_len(),
        }
    }

    /// The command byte of the request, from the commands of the wireless
    /// family.
    pub fn command(&self) -> (command: u8)
        ensures
            command == spec_command(*self),
    {
        match self {
            Self::GetInterface(_) => NL80211_CMD_GET_INTERFACE,
        }
    }

    /// The version byte of the request.
    pub fn version(&self) -> (version: u8)
        ensures
            version == 0,
    {
        0
    }

    /// Writes the attributes of the request over the start of `buffer`.
    pub fn emit_attributes(&self, order: Endianness, buffer: &mut [u8])
        requires
            old(buffer)@.len() >= spec_emitted_attributes(order, *self).len(),
        ensures
            final(buffer)@ == spec_emitted_attributes(order, *self) + old(buffer)@.skip(
                spec_emitted_attributes(order, *self).len() as int,
            ),
    {
        match self {
            Self::GetInterface(index) => index.emit(order, buffer),
        }
    }
}

impl Nl80221TaggedMessage {
    /// The request that was addressed.
    pub fn message(&self) -> (message: &Nl80221Message)
        ensures
            *message == self@.message,
    {
        &self.message
    }

    /// The size of the payload: the header and the attributes.
    pub fn buffer_len(&self) -> (len: usize)
        ensures
            len == 4 + spec_attribute_size(self@.message),
    {
        4 + self.message.attribute_size()
    }

    /// The message type under which the request travels: the id of the
    /// family that it was addressed to.
    pub fn message_type(&self) -> (message_type: u16)
        ensures
            message_type == self@.family_id,
    {
        self.family_id.0
    }

    /// Writes the payload of the request over the start of `buffer`.
    pub fn serialize(&self, order: Endianness, buffer: &mut [u8])
        requires
            old(buffer)@.len() >= spec_serialize(order, self@.message).len(),
        ensures
            final(buffer)@ == spec_serialize(order, self@.message) + old(buffer)@.skip(
                spec_serialize(order, self@.message).len() as int,
            ),
    {
        let ghost before = buffer@;
        buffer[0] = self.message.command();
        buffer[1] = self.message.version();
        buffer[2] = 0;
        buffer[3] = 0;
        let (header, attributes) = buffer.split_at_mut(4);
        self.message.emit_attributes(order, attributes);
        assert(header@ + attributes@ =~= spec_serialize(order, self@.message) + before.skip(
            spec_serialize(order, self@.message).len() as int,
        ));
    }
}

/// How far the resolution of the wireless family has come.
#[derive(Debug)]
pub enum Resolution {
    /// No description of the family was read yet.
    Unresolved,
    /// The control family has described the family.
    Resolved(Nl80221Family),
}

impl Resolution {
    /// The request that starts a resolution: it asks the control family
    /// for the family of the given name.
    pub fn request(name: &str) -> (message: ControlMessage)
        ensures
            message@ == ControlMessageView::GetFamily(name@),
    {
        ControlMessage::GetFamily(FamilyName::new(name))
    }

    /// Takes one answer of the control channel, whatever it holds. An
    /// answer that describes a family resolves; after any other answer, a
    /// cut-short one too, the state is what it was.
    pub fn receive(self, order: Endianness, message_type: u16, payload: &[u8]) -> (next: Self)
        ensures
            match spec_deserialize(order, message_type, payload@) {
                Ok(ControlMessageView::NewFamily(family)) => next is Resolved
                    && next->Resolved_0.family@ == family,
                _ => next == self,
            },
    {
        match ControlMessage::deserialize(order, message_type, payload) {
            Ok(ControlMessage::NewFamily(family)) => Resolution::Resolved(
                Nl80221Family::new(family),
            ),
            _ => self,
        }
    }
}

} // verus!

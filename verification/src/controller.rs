//! The control family: the one family with a well-known id, which resolves
//! the names of the other families to their ids.

use crate::attribute::{
    aligned, lemma_emitted_is_parsed, lemma_emitted_is_passed, spec_after, spec_attribute,
    spec_attributes, spec_emit, spec_encoded_length, spec_kind_of_tag, Attribute, AttributeView,
    MAX_VALUE_LEN,
};
use crate::endian::{u16_bytes, u32_bytes, write_u16, write_u32, Endianness};
use crate::error::{DecodeFailure, RecordKind};
use crate::genl::GenericBuffer;
use crate::record::{lemma_fill_takes_one, parse_record, spec_fill, spec_parse_record, Schema};
use crate::typed::{
    emit_string, lemma_string_value_round_trip, lemma_typed_round_trip,
    lemma_u16_value_round_trip, lemma_u32_value_round_trip, parse_string, parse_u16, parse_u32,
    spec_option_view,
    spec_parse_string, spec_parse_typed, spec_parse_u16, spec_parse_u32, spec_result_view,
    spec_views, TypedAttribute,
};
use vstd::prelude::*;
use vstd::std_specs::convert::FromSpecImpl;
use vstd::utf8::encode_utf8;

verus! {

/// The message type of the control family.
pub const GENL_ID_CTRL: u16 = 0x10;

/// No command.
pub const CTRL_CMD_UNSPEC: u8 = 0;

/// The command of the answer that describes a family.
pub const CTRL_CMD_NEWFAMILY: u8 = 1;

/// The command that tells that a family is gone.
pub const CTRL_CMD_DELFAMILY: u8 = 2;

/// The command of the request for a family.
pub const CTRL_CMD_GETFAMILY: u8 = 3;

/// The command of the answer that lists operations.
pub const CTRL_CMD_NEWOPS: u8 = 4;

/// The command that tells that operations are gone.
pub const CTRL_CMD_DELOPS: u8 = 5;

/// The command of the request for operations.
pub const CTRL_CMD_GETOPS: u8 = 6;

/// The command of the answer that lists multicast groups.
pub const CTRL_CMD_NEWMCAST_GRP: u8 = 7;

/// The command that tells that multicast groups are gone.
pub const CTRL_CMD_DELMCAST_GRP: u8 = 8;

/// The command of the request for multicast groups.
pub const CTRL_CMD_GETMCAST_GRP: u8 = 9;

/// No attribute of a family.
pub const CTRL_ATTR_UNSPEC: u16 = 0;

/// The tag of the id of a family.
pub const CTRL_ATTR_FAMILY_ID: u16 = 1;

/// The tag of the name of a family.
pub const CTRL_ATTR_FAMILY_NAME: u16 = 2;

/// The tag of the version of a family.
pub const CTRL_ATTR_VERSION: u16 = 3;

/// The tag of the size of the header of a family.
pub const CTRL_ATTR_HDRSIZE: u16 = 4;

/// The tag of the highest attribute tag of a family.
pub const CTRL_ATTR_MAXATTR: u16 = 5;

/// The tag of the list of the operations of a family.
pub const CTRL_ATTR_OPS: u16 = 6;

/// The tag of the list of the multicast groups of a family.
pub const CTRL_ATTR_MCAST_GROUPS: u16 = 7;

/// No attribute of an operation.
pub const CTRL_ATTR_OP_UNSPEC: u16 = 0;

/// The tag of the command of an operation.
pub const CTRL_ATTR_OP_ID: u16 = 1;

/// The tag of the flags of an operation.
pub const CTRL_ATTR_OP_FLAGS: u16 = 2;

/// No attribute of a multicast group.
pub const CTRL_ATTR_MCAST_GRP_UNSPEC: u16 = 0;

/// The tag of the name of a multicast group.
pub const CTRL_ATTR_MCAST_GRP_NAME: u16 = 1;

/// The tag of the id of a multicast group.
pub const CTRL_ATTR_MCAST_GRP_ID: u16 = 2;

/// The id under which a family is addressed.
#[derive(Debug, Clone, PartialEq, Eq, Default)]
pub struct FamilyId(pub u16);

impl View for FamilyId {
    type V = u16;

    open spec fn view(&self) -> u16 {
        self.0
    }
}

impl TypedAttribute for FamilyId {
    open spec fn spec_kind() -> u16 {
        CTRL_ATTR_FAMILY_ID
    }

    open spec fn spec_value(order: Endianness, value: u16) -> Seq<u8> {
        u16_bytes(order, value)
    }

    open spec fn spec_value_len(value: u16) -> nat {
        2
    }

    open spec fn spec_parse_value(order: Endianness, bytes: Seq<u8>) -> Option<u16> {
        spec_parse_u16(order, bytes)
    }

    open spec fn spec_reads_back(value: u16) -> bool {
        true
    }

    proof fn lemma_value_round_trip(order: Endianness, value: u16) {
        lemma_u16_value_round_trip(order, value);
    }

    proof fn lemma_value_len(order: Endianness, value: u16) {
    }

    fn kind(&self) -> u16 {
        CTRL_ATTR_FAMILY_ID
    }

    fn value_len(&self) -> usize {
        2
    }

    fn emit_value(&self, order: Endianness, buffer: &mut [u8]) {
        write_u16(order, buffer, self.0)
    }

    fn parse(order: Endianness, attribute: &Attribute<'_>) -> (r: Result<Self, DecodeFailure>) {
        match parse_u16(order, attribute.kind, attribute.value) {
            Ok(value) => Ok(FamilyId(value)),
            Err(e) => Err(e),
        }
    }
}

impl From<u16> for FamilyId {
    fn from(v: u16) -> (attr: Self) {
        FamilyId(v)
    }
}

impl FromSpecImpl<u16> for FamilyId {
    open spec fn obeys_from_spec() -> bool {
        true
    }

    open spec fn from_spec(v: u16) -> Self {
        FamilyId(v)
    }
}

impl From<FamilyId> for u16 {
    fn from(attr: FamilyId) -> (v: u16) {
        attr.0
    }
}

impl FromSpecImpl<FamilyId> for u16 {
    open spec fn obeys_from_spec() -> bool {
        true
    }

    open spec fn from_spec(attr: FamilyId) -> u16 {
        attr.0
    }
}

/// The name of a family.
#[derive(Debug, Clone, PartialEq, Eq, Default)]
pub struct FamilyName(pub String);

impl View for FamilyName {
    type V = Seq<char>;

    open spec fn view(&self) -> Seq<char> {
        self.0@
    }
}

impl TypedAttribute for FamilyName {
    open spec fn spec_kind() -> u16 {
        CTRL_ATTR_FAMILY_NAME
    }

    open spec fn spec_value(order: Endianness, value: Seq<char>) -> Seq<u8> {
        encode_utf8(value)
    }

    open spec fn spec_value_len(value: Seq<char>) -> nat {
        encode_utf8(value).len()
    }

    open spec fn spec_parse_value(order: Endianness, bytes: Seq<u8>) -> Option<Seq<char>> {
        spec_parse_string(bytes)
    }

    open spec fn spec_reads_back(value: Seq<char>) -> bool {
        encode_utf8(value).len() == 0 || encode_utf8(value).last() != 0
    }

    proof fn lemma_value_round_trip(order: Endianness, value: Seq<char>) {
        lemma_string_value_round_trip(value);
    }

    proof fn lemma_value_len(order: Endianness, value: Seq<char>) {
    }

    fn kind(&self) -> u16 {
        CTRL_ATTR_FAMILY_NAME
    }

    fn value_len(&self) -> usize {
        self.0.as_str().as_bytes().len()
    }

    fn emit_value(&self, order: Endianness, buffer: &mut [u8]) {
        emit_string(buffer, self.0.as_str())
    }

    fn parse(order: Endianness, attribute: &Attribute<'_>) -> (r: Result<Self, DecodeFailure>) {
        match parse_string(attribute.kind, attribute.value) {
            Ok(value) => Ok(FamilyName(value)),
            Err(e) => Err(e),
        }
    }
}

impl From<String> for FamilyName {
    fn from(v: String) -> (attr: Self) {
        FamilyName(v)
    }
}

impl FromSpecImpl<String> for FamilyName {
    open spec fn obeys_from_spec() -> bool {
        true
    }

    open spec fn from_spec(v: String) -> Self {
        FamilyName(v)
    }
}

impl From<FamilyName> for String {
    fn from(attr: FamilyName) -> (v: String) {
        attr.0
    }
}

impl FromSpecImpl<FamilyName> for String {
    open spec fn obeys_from_spec() -> bool {
        true
    }

    open spec fn from_spec(attr: FamilyName) -> String {
        attr.0
    }
}

/// The version of a family.
#[derive(Debug, Clone, PartialEq, Eq, Default)]
pub struct Version(pub u32);

impl View for Version {
    type V = u32;

    open spec fn view(&self) -> u32 {
        self.0
    }
}

impl TypedAttribute for Version {
    open spec fn spec_kind() -> u16 {
        CTRL_ATTR_VERSION
    }

    open spec fn spec_value(order: Endianness, value: u32) -> Seq<u8> {
        u32_bytes(order, value)
    }

    open spec fn spec_value_len(value: u32) -> nat {
        4
    }

    open spec fn spec_parse_value(order: Endianness, bytes: Seq<u8>) -> Option<u32> {
        spec_parse_u32(order, bytes)
    }

    open spec fn spec_reads_back(value: u32) -> bool {
        true
    }

    proof fn lemma_value_round_trip(order: Endianness, value: u32) {
        lemma_u32_value_round_trip(order, value);
    }

    proof fn lemma_value_len(order: Endianness, value: u32) {
    }

    fn kind(&self) -> u16 {
        CTRL_ATTR_VERSION
    }

    fn value_len(&self) -> usize {
        4
    }

    fn emit_value(&self, order: Endianness, buffer: &mut [u8]) {
        write_u32(order, buffer, self.0)
    }

    fn parse(order: Endianness, attribute: &Attribute<'_>) -> (r: Result<Self, DecodeFailure>) {
        match parse_u32(order, attribute.kind, attribute.value) {
            Ok(value) => Ok(Version(value)),
            Err(e) => Err(e),
        }
    }
}

impl From<u32> for Version {
    fn from(v: u32) -> (attr: Self) {
        Version(v)
    }
}

impl FromSpecImpl<u32> for Version {
    open spec fn obeys_from_spec() -> bool {
        true
    }

    open spec fn from_spec(v: u32) -> Self {
        Version(v)
    }
}

impl From<Version> for u32 {
    fn from(attr: Version) -> (v: u32) {
        attr.0
    }
}

impl FromSpecImpl<Version> for u32 {
    open spec fn obeys_from_spec() -> bool {
        true
    }

    open spec fn from_spec(attr: Version) -> u32 {
        attr.0
    }
}

/// The size of the header that a family puts before its attributes.
#[derive(Debug, Clone, PartialEq, Eq, Default)]
pub struct HeaderSize(pub u32);

impl View for HeaderSize {
    type V = u32;

    open spec fn view(&self) -> u32 {
        self.0
    }
}

impl TypedAttribute for HeaderSize {
    open spec fn spec_kind() -> u16 {
        CTRL_ATTR_HDRSIZE
    }

    open spec fn spec_value(order: Endianness, value: u32) -> Seq<u8> {
        u32_bytes(order, value)
    }

    open spec fn spec_value_len(value: u32) -> nat {
        4
    }

    open spec fn spec_parse_value(order: Endianness, bytes: Seq<u8>) -> Option<u32> {
        spec_parse_u32(order, bytes)
    }

    open spec fn spec_reads_back(value: u32) -> bool {
        true
    }

    proof fn lemma_value_round_trip(order: Endianness, value: u32) {
        lemma_u32_value_round_trip(order, value);
    }

    proof fn lemma_value_len(order: Endianness, value: u32) {
    }

    fn kind(&self) -> u16 {
        CTRL_ATTR_HDRSIZE
    }

    fn value_len(&self) -> usize {
        4
    }

    fn emit_value(&self, order: Endianness, buffer: &mut [u8]) {
        write_u32(order, buffer, self.0)
    }

    fn parse(order: Endianness, attribute: &Attribute<'_>) -> (r: Result<Self, DecodeFailure>) {
        match parse_u32(order, attribute.kind, attribute.value) {
            Ok(value) => Ok(HeaderSize(value)),
            Err(e) => Err(e),
        }
    }
}

impl From<u32> for HeaderSize {
    fn from(v: u32) -> (attr: Self) {
        HeaderSize(v)
    }
}

impl FromSpecImpl<u32> for HeaderSize {
    open spec fn obeys_from_spec() -> bool {
        true
    }

    open spec fn from_spec(v: u32) -> Self {
        HeaderSize(v)
    }
}

impl From<HeaderSize> for u32 {
    fn from(attr: HeaderSize) -> (v: u32) {
        attr.0
    }
}

impl FromSpecImpl<HeaderSize> for u32 {
    open spec fn obeys_from_spec() -> bool {
        true
    }

    open spec fn from_spec(attr: HeaderSize) -> u32 {
        attr.0
    }
}

/// The highest attribute tag of a family.
#[derive(Debug, Clone, PartialEq, Eq, Default)]
pub struct MaxAttributes(pub u32);

impl View for MaxAttributes {
    type V = u32;

    open spec fn view(&self) -> u32 {
        self.0
    }
}

impl TypedAttribute for MaxAttributes {
    open spec fn spec_kind() -> u16 {
        CTRL_ATTR_MAXATTR
    }

    open spec fn spec_value(order: Endianness, value: u32) -> Seq<u8> {
        u32_bytes(order, value)
    }

    open spec fn spec_value_len(value: u32) -> nat {
        4
    }

    open spec fn spec_parse_value(order: Endianness, bytes: Seq<u8>) -> Option<u32> {
        spec_parse_u32(order, bytes)
    }

    open spec fn spec_reads_back(value: u32) -> bool {
        true
    }

    proof fn lemma_value_round_trip(order: Endianness, value: u32) {
        lemma_u32_value_round_trip(order, value);
    }

    proof fn lemma_value_len(order: Endianness, value: u32) {
    }

    fn kind(&self) -> u16 {
        CTRL_ATTR_MAXATTR
    }

    fn value_len(&self) -> usize {
        4
    }

    fn emit_value(&self, order: Endianness, buffer: &mut [u8]) {
        write_u32(order, buffer, self.0)
    }

    fn parse(order: Endianness, attribute: &Attribute<'_>) -> (r: Result<Self, DecodeFailure>) {
        match parse_u32(order, attribute.kind, attribute.value) {
            Ok(value) => Ok(MaxAttributes(value)),
            Err(e) => Err(e),
        }
    }
}

impl From<u32> for MaxAttributes {
    fn from(v: u32) -> (attr: Self) {
        MaxAttributes(v)
    }
}

impl FromSpecImpl<u32> for MaxAttributes {
    open spec fn obeys_from_spec() -> bool {
        true
    }

    open spec fn from_spec(v: u32) -> Self {
        MaxAttributes(v)
    }
}

impl From<MaxAttributes> for u32 {
    fn from(attr: MaxAttributes) -> (v: u32) {
        attr.0
    }
}

impl FromSpecImpl<MaxAttributes> for u32 {
    open spec fn obeys_from_spec() -> bool {
        true
    }

    open spec fn from_spec(attr: MaxAttributes) -> u32 {
        attr.0
    }
}

/// The command of an operation of a family.
#[derive(Debug, Clone, PartialEq, Eq, Default)]
pub struct OperationId(pub u32);

impl View for OperationId {
    type V = u32;

    open spec fn view(&self) -> u32 {
        self.0
    }
}

impl TypedAttribute for OperationId {
    open spec fn spec_kind() -> u16 {
        CTRL_ATTR_OP_ID
    }

    open spec fn spec_value(order: Endianness, value: u32) -> Seq<u8> {
        u32_bytes(order, value)
    }

    open spec fn spec_value_len(value: u32) -> nat {
        4
    }

    open spec fn spec_parse_value(order: Endianness, bytes: Seq<u8>) -> Option<u32> {
        spec_parse_u32(order, bytes)
    }

    open spec fn spec_reads_back(value: u32) -> bool {
        true
    }

    proof fn lemma_value_round_trip(order: Endianness, value: u32) {
        lemma_u32_value_round_trip(order, value);
    }

    proof fn lemma_value_len(order: Endianness, value: u32) {
    }

    fn kind(&self) -> u16 {
        CTRL_ATTR_OP_ID
    }

    fn value_len(&self) -> usize {
        4
    }

    fn emit_value(&self, order: Endianness, buffer: &mut [u8]) {
        write_u32(order, buffer, self.0)
    }

    fn parse(order: Endianness, attribute: &Attribute<'_>) -> (r: Result<Self, DecodeFailure>) {
        match parse_u32(order, attribute.kind, attribute.value) {
            Ok(value) => Ok(OperationId(value)),
            Err(e) => Err(e),
        }
    }
}

impl From<u32> for OperationId {
    fn from(v: u32) -> (attr: Self) {
        OperationId(v)
    }
}

impl FromSpecImpl<u32> for OperationId {
    open spec fn obeys_from_spec() -> bool {
        true
    }

    open spec fn from_spec(v: u32) -> Self {
        OperationId(v)
    }
}

impl From<OperationId> for u32 {
    fn from(attr: OperationId) -> (v: u32) {
        attr.0
    }
}

impl FromSpecImpl<OperationId> for u32 {
    open spec fn obeys_from_spec() -> bool {
        true
    }

    open spec fn from_spec(attr: OperationId) -> u32 {
        attr.0
    }
}

/// The flags of an operation of a family.
#[derive(Debug, Clone, PartialEq, Eq, Default)]
pub struct OperationFlags(pub u32);

impl View for OperationFlags {
    type V = u32;

    open spec fn view(&self) -> u32 {
        self.0
    }
}

impl TypedAttribute for OperationFlags {
    open spec fn spec_kind() -> u16 {
        CTRL_ATTR_OP_FLAGS
    }

    open spec fn spec_value(order: Endianness, value: u32) -> Seq<u8> {
        u32_bytes(order, value)
    }

    open spec fn spec_value_len(value: u32) -> nat {
        4
    }

    open spec fn spec_parse_value(order: Endianness, bytes: Seq<u8>) -> Option<u32> {
        spec_parse_u32(order, bytes)
    }

    open spec fn spec_reads_back(value: u32) -> bool {
        true
    }

    proof fn lemma_value_round_trip(order: Endianness, value: u32) {
        lemma_u32_value_round_trip(order, value);
    }

    proof fn lemma_value_len(order: Endianness, value: u32) {
    }

    fn kind(&self) -> u16 {
        CTRL_ATTR_OP_FLAGS
    }

    fn value_len(&self) -> usize {
        4
    }

    fn emit_value(&self, order: Endianness, buffer: &mut [u8]) {
        write_u32(order, buffer, self.0)
    }

    fn parse(order: Endianness, attribute: &Attribute<'_>) -> (r: Result<Self, DecodeFailure>) {
        match parse_u32(order, attribute.kind, attribute.value) {
            Ok(value) => Ok(OperationFlags(value)),
            Err(e) => Err(e),
        }
    }
}

impl From<u32> for OperationFlags {
    fn from(v: u32) -> (attr: Self) {
        OperationFlags(v)
    }
}

impl FromSpecImpl<u32> for OperationFlags {
    open spec fn obeys_from_spec() -> bool {
        true
    }

    open spec fn from_spec(v: u32) -> Self {
        OperationFlags(v)
    }
}

impl From<OperationFlags> for u32 {
    fn from(attr: OperationFlags) -> (v: u32) {
        attr.0
    }
}

impl FromSpecImpl<OperationFlags> for u32 {
    open spec fn obeys_from_spec() -> bool {
        true
    }

    open spec fn from_spec(attr: OperationFlags) -> u32 {
        attr.0
    }
}

/// The id of a multicast group of a family.
#[derive(Debug, Clone, PartialEq, Eq, Default)]
pub struct MulticastGroupId(pub u32);

impl View for MulticastGroupId {
    type V = u32;

    open spec fn view(&self) -> u32 {
        self.0
    }
}

impl TypedAttribute for MulticastGroupId {
    open spec fn spec_kind() -> u16 {
        CTRL_ATTR_MCAST_GRP_ID
    }

    open spec fn spec_value(order: Endianness, value: u32) -> Seq<u8> {
        u32_bytes(order, value)
    }

    open spec fn spec_value_len(value: u32) -> nat {
        4
    }

    open spec fn spec_parse_value(order: Endianness, bytes: Seq<u8>) -> Option<u32> {
        spec_parse_u32(order, bytes)
    }

    open spec fn spec_reads_back(value: u32) -> bool {
        true
    }

    proof fn lemma_value_round_trip(order: Endianness, value: u32) {
        lemma_u32_value_round_trip(order, value);
    }

    proof fn lemma_value_len(order: Endianness, value: u32) {
    }

    fn kind(&self) -> u16 {
        CTRL_ATTR_MCAST_GRP_ID
    }

    fn value_len(&self) -> usize {
        4
    }

    fn emit_value(&self, order: Endianness, buffer: &mut [u8]) {
        write_u32(order, buffer, self.0)
    }

    fn parse(order: Endianness, attribute: &Attribute<'_>) -> (r: Result<Self, DecodeFailure>) {
        match parse_u32(order, attribute.kind, attribute.value) {
            Ok(value) => Ok(MulticastGroupId(value)),
            Err(e) => Err(e),
        }
    }
}

impl From<u32> for MulticastGroupId {
    fn from(v: u32) -> (attr: Self) {
        MulticastGroupId(v)
    }
}

impl FromSpecImpl<u32> for MulticastGroupId {
    open spec fn obeys_from_spec() -> bool {
        true
    }

    open spec fn from_spec(v: u32) -> Self {
        MulticastGroupId(v)
    }
}

impl From<MulticastGroupId> for u32 {
    fn from(attr: MulticastGroupId) -> (v: u32) {
        attr.0
    }
}

impl FromSpecImpl<MulticastGroupId> for u32 {
    open spec fn obeys_from_spec() -> bool {
        true
    }

    open spec fn from_spec(attr: MulticastGroupId) -> u32 {
        attr.0
    }
}

/// The name of a multicast group of a family.
#[derive(Debug, Clone, PartialEq, Eq, Default)]
pub struct MulticastGroupName(pub String);

impl View for MulticastGroupName {
    type V = Seq<char>;

    open spec fn view(&self) -> Seq<char> {
        self.0@
    }
}

impl TypedAttribute for MulticastGroupName {
    open spec fn spec_kind() -> u16 {
        CTRL_ATTR_MCAST_GRP_NAME
    }

    open spec fn spec_value(order: Endianness, value: Seq<char>) -> Seq<u8> {
        encode_utf8(value)
    }

    open spec fn spec_value_len(value: Seq<char>) -> nat {
        encode_utf8(value).len()
    }

    open spec fn spec_parse_value(order: Endianness, bytes: Seq<u8>) -> Option<Seq<char>> {
        spec_parse_string(bytes)
    }

    open spec fn spec_reads_back(value: Seq<char>) -> bool {
        encode_utf8(value).len() == 0 || encode_utf8(value).last() != 0
    }

    proof fn lemma_value_round_trip(order: Endianness, value: Seq<char>) {
        lemma_string_value_round_trip(value);
    }

    proof fn lemma_value_len(order: Endianness, value: Seq<char>) {
    }

    fn kind(&self) -> u16 {
        CTRL_ATTR_MCAST_GRP_NAME
    }

    fn value_len(&self) -> usize {
        self.0.as_str().as_bytes().len()
    }

    fn emit_value(&self, order: Endianness, buffer: &mut [u8]) {
        emit_string(buffer, self.0.as_str())
    }

    fn parse(order: Endianness, attribute: &Attribute<'_>) -> (r: Result<Self, DecodeFailure>) {
        match parse_string(attribute.kind, attribute.value) {
            Ok(value) => Ok(MulticastGroupName(value)),
            Err(e) => Err(e),
        }
    }
}

impl From<String> for MulticastGroupName {
    fn from(v: String) -> (attr: Self) {
        MulticastGroupName(v)
    }
}

impl FromSpecImpl<String> for MulticastGroupName {
    open spec fn obeys_from_spec() -> bool {
        true
    }

    open spec fn from_spec(v: String) -> Self {
        MulticastGroupName(v)
    }
}

impl From<MulticastGroupName> for String {
    fn from(attr: MulticastGroupName) -> (v: String) {
        attr.0
    }
}

impl FromSpecImpl<MulticastGroupName> for String {
    open spec fn obeys_from_spec() -> bool {
        true
    }

    open spec fn from_spec(attr: MulticastGroupName) -> String {
        attr.0
    }
}

impl FamilyName {
    /// The name that `s` spells.
    pub fn new(s: &str) -> (name: Self)
        ensures
            name@ == s@,
    {
        FamilyName(s.to_owned())
    }
}

/// An operation as a value.
pub struct OperationView {
    pub id: u32,
    pub flags: u32,
}

/// One operation of a family: a command of the family and its flags.
#[derive(Debug, Clone, PartialEq, Eq, Default)]
pub struct Operation {
    id: OperationId,
    flags: OperationFlags,
}

impl View for Operation {
    type V = OperationView;

    closed spec fn view(&self) -> OperationView {
        OperationView { id: self.id.0, flags: self.flags.0 }
    }
}

/// The fields of an operation, each set or not.
pub struct OperationSlotsView {
    pub id: Option<u32>,
    pub flags: Option<u32>,
}

/// An operation while it is read.
pub struct OperationSlots {
    id: Option<OperationId>,
    flags: Option<OperationFlags>,
}

impl View for OperationSlots {
    type V = OperationSlotsView;

    closed spec fn view(&self) -> OperationSlotsView {
        OperationSlotsView { id: spec_option_view(self.id), flags: spec_option_view(self.flags) }
    }
}

impl Schema for OperationSlots {
    type Record = Operation;

    open spec fn spec_record() -> RecordKind {
        RecordKind::Operation
    }

    open spec fn spec_knows(kind: u16) -> bool {
        kind == CTRL_ATTR_OP_ID || kind == CTRL_ATTR_OP_FLAGS
    }

    open spec fn spec_required() -> Seq<u16> {
        seq![CTRL_ATTR_OP_ID, CTRL_ATTR_OP_FLAGS]
    }

    open spec fn spec_is_set(slots: OperationSlotsView, tag: u16) -> bool {
        (tag == CTRL_ATTR_OP_ID && slots.id is Some) || (tag == CTRL_ATTR_OP_FLAGS && slots.flags is Some)
    }

    proof fn lemma_empty(tag: u16) {
    }

    proof fn lemma_step(
        order: Endianness,
        slots: OperationSlotsView,
        attribute: AttributeView,
        tag: u16,
    ) {
    }

    proof fn lemma_finish(slots: OperationSlotsView, index: int) {
    }

    open spec fn spec_empty() -> OperationSlotsView {
        OperationSlotsView { id: None, flags: None }
    }

    open spec fn spec_step(
        order: Endianness,
        slots: OperationSlotsView,
        attribute: AttributeView,
    ) -> Result<OperationSlotsView, DecodeFailure> {
        if attribute.kind == CTRL_ATTR_OP_ID {
            match spec_parse_typed::<OperationId>(order, attribute) {
                Ok(id) => Ok(OperationSlotsView { id: Some(id), ..slots }),
                Err(e) => Err(e),
            }
        } else if attribute.kind == CTRL_ATTR_OP_FLAGS {
            match spec_parse_typed::<OperationFlags>(order, attribute) {
                Ok(flags) => Ok(OperationSlotsView { flags: Some(flags), ..slots }),
                Err(e) => Err(e),
            }
        } else {
            Err(DecodeFailure::UnknownTag { record: RecordKind::Operation, kind: attribute.kind })
        }
    }

    open spec fn spec_finish(slots: OperationSlotsView) -> Result<OperationView, DecodeFailure> {
        if slots.id is None {
            Err(DecodeFailure::MissingField { record: RecordKind::Operation, tag: CTRL_ATTR_OP_ID })
        } else if slots.flags is None {
            Err(
                DecodeFailure::MissingField {
                    record: RecordKind::Operation,
                    tag: CTRL_ATTR_OP_FLAGS,
                },
            )
        } else {
            Ok(OperationView { id: slots.id.unwrap(), flags: slots.flags.unwrap() })
        }
    }

    fn empty() -> (slots: Self) {
        OperationSlots { id: None, flags: None }
    }

    fn step(self, order: Endianness, attribute: &Attribute<'_>) -> (r: Result<
        Self,
        DecodeFailure,
    >) {
        if attribute.kind == CTRL_ATTR_OP_ID {
            match OperationId::parse(order, attribute) {
                Ok(id) => Ok(OperationSlots { id: Some(id), ..self }),
                Err(e) => Err(e),
            }
        } else if attribute.kind == CTRL_ATTR_OP_FLAGS {
            match OperationFlags::parse(order, attribute) {
                Ok(flags) => Ok(OperationSlots { flags: Some(flags), ..self }),
                Err(e) => Err(e),
            }
        } else {
            Err(DecodeFailure::UnknownTag { record: RecordKind::Operation, kind: attribute.kind })
        }
    }

    fn finish(self) -> (r: Result<Operation, DecodeFailure>) {
        match self.id {
            None => Err(
                DecodeFailure::MissingField {
                    record: RecordKind::Operation,
                    tag: CTRL_ATTR_OP_ID,
                },
            ),
            Some(id) => match self.flags {
                None => Err(
                    DecodeFailure::MissingField {
                        record: RecordKind::Operation,
                        tag: CTRL_ATTR_OP_FLAGS,
                    },
                ),
                Some(flags) => Ok(Operation { id, flags }),
            },
        }
    }
}

impl Operation {
    /// The command of the operation.
    pub fn id(&self) -> (id: &OperationId)
        ensures
            id@ == self@.id,
    {
        &self.id
    }

    /// The flags of the operation.
    pub fn flags(&self) -> (flags: &OperationFlags)
        ensures
            flags@ == self@.flags,
    {
        &self.flags
    }

    /// Reads an operation from its sibling attributes.
    pub fn parse(order: Endianness, buffer: &[u8]) -> (r: Result<Operation, DecodeFailure>)
        ensures
            spec_result_view(r) == spec_parse_record::<OperationSlots>(order, buffer@),
    {
        parse_record::<OperationSlots>(order, buffer)
    }
}

/// A multicast group as a value.
pub struct MulticastGroupView {
    pub id: u32,
    pub name: Seq<char>,
}

/// One multicast group of a family.
#[derive(Debug, Clone, PartialEq, Eq, Default)]
pub struct MulticastGroup {
    id: MulticastGroupId,
    name: MulticastGroupName,
}

impl View for MulticastGroup {
    type V = MulticastGroupView;

    closed spec fn view(&self) -> MulticastGroupView {
        MulticastGroupView { id: self.id.0, name: self.name.0@ }
    }
}

/// The fields of a multicast group, each set or not.
pub struct MulticastGroupSlotsView {
    pub id: Option<u32>,
    pub name: Option<Seq<char>>,
}

/// A multicast group while it is read.
pub struct MulticastGroupSlots {
    id: Option<MulticastGroupId>,
    name: Option<MulticastGroupName>,
}

impl View for MulticastGroupSlots {
    type V = MulticastGroupSlotsView;

    closed spec fn view(&self) -> MulticastGroupSlotsView {
        MulticastGroupSlotsView {
            id: spec_option_view(self.id),
            name: spec_option_view(self.name),
        }
    }
}

impl Schema for MulticastGroupSlots {
    type Record = MulticastGroup;

    open spec fn spec_record() -> RecordKind {
        RecordKind::MulticastGroup
    }

    open spec fn spec_knows(kind: u16) -> bool {
        kind == CTRL_ATTR_MCAST_GRP_NAME || kind == CTRL_ATTR_MCAST_GRP_ID
    }

    open spec fn spec_required() -> Seq<u16> {
        seq![CTRL_ATTR_MCAST_GRP_NAME, CTRL_ATTR_MCAST_GRP_ID]
    }

    open spec fn spec_is_set(slots: MulticastGroupSlotsView, tag: u16) -> bool {
        (tag == CTRL_ATTR_MCAST_GRP_NAME && slots.name is Some) || (tag == CTRL_ATTR_MCAST_GRP_ID
            && slots.id is Some)
    }

    proof fn lemma_empty(tag: u16) {
    }

    proof fn lemma_step(
        order: Endianness,
        slots: MulticastGroupSlotsView,
        attribute: AttributeView,
        tag: u16,
    ) {
    }

    proof fn lemma_finish(slots: MulticastGroupSlotsView, index: int) {
    }

    open spec fn spec_empty() -> MulticastGroupSlotsView {
        MulticastGroupSlotsView { id: None, name: None }
    }

    open spec fn spec_step(
        order: Endianness,
        slots: MulticastGroupSlotsView,
        attribute: AttributeView,
    ) -> Result<MulticastGroupSlotsView, DecodeFailure> {
        if attribute.kind == CTRL_ATTR_MCAST_GRP_NAME {
            match spec_parse_typed::<MulticastGroupName>(order, attribute) {
                Ok(name) => Ok(MulticastGroupSlotsView { name: Some(name), ..slots }),
                Err(e) => Err(e),
            }
        } else if attribute.kind == CTRL_ATTR_MCAST_GRP_ID {
            match spec_parse_typed::<MulticastGroupId>(order, attribute) {
                Ok(id) => Ok(MulticastGroupSlotsView { id: Some(id), ..slots }),
                Err(e) => Err(e),
            }
        } else {
            Err(
                DecodeFailure::UnknownTag {
                    record: RecordKind::MulticastGroup,
                    kind: attribute.kind,
                },
            )
        }
    }

    open spec fn spec_finish(slots: MulticastGroupSlotsView) -> Result<
        MulticastGroupView,
        DecodeFailure,
    > {
        if slots.name is None {
            Err(
                DecodeFailure::MissingField {
                    record: RecordKind::MulticastGroup,
                    tag: CTRL_ATTR_MCAST_GRP_NAME,
                },
            )
        } else if slots.id is None {
            Err(
                DecodeFailure::MissingField {
                    record: RecordKind::MulticastGroup,
                    tag: CTRL_ATTR_MCAST_GRP_ID,
                },
            )
        } else {
            Ok(MulticastGroupView { id: slots.id.unwrap(), name: slots.name.unwrap() })
        }
    }

    fn empty() -> (slots: Self) {
        MulticastGroupSlots { id: None, name: None }
    }

    fn step(self, order: Endianness, attribute: &Attribute<'_>) -> (r: Result<
        Self,
        DecodeFailure,
    >) {
        if attribute.kind == CTRL_ATTR_MCAST_GRP_NAME {
            match MulticastGroupName::parse(order, attribute) {
                Ok(name) => Ok(MulticastGroupSlots { name: Some(name), ..self }),
                Err(e) => Err(e),
            }
        } else if attribute.kind == CTRL_ATTR_MCAST_GRP_ID {
            match MulticastGroupId::parse(order, attribute) {
                Ok(id) => Ok(MulticastGroupSlots { id: Some(id), ..self }),
                Err(e) => Err(e),
            }
        } else {
            Err(
                DecodeFailure::UnknownTag {
                    record: RecordKind::MulticastGroup,
                    kind: attribute.kind,
                },
            )
        }
    }

    fn finish(self) -> (r: Result<MulticastGroup, DecodeFailure>) {
        match self.name {
            None => Err(
                DecodeFailure::MissingField {
                    record: RecordKind::MulticastGroup,
                    tag: CTRL_ATTR_MCAST_GRP_NAME,
                },
            ),
            Some(name) => match self.id {
                None => Err(
                    DecodeFailure::MissingField {
                        record: RecordKind::MulticastGroup,
                        tag: CTRL_ATTR_MCAST_GRP_ID,
                    },
                ),
                Some(id) => Ok(MulticastGroup { id, name }),
            },
        }
    }
}

impl MulticastGroup {
    /// The id of the group.
    pub fn id(&self) -> (id: &MulticastGroupId)
        ensures
            id@ == self@.id,
    {
        &self.id
    }

    /// The name of the group.
    pub fn name(&self) -> (name: &MulticastGroupName)
        ensures
            name@ == self@.name,
    {
        &self.name
    }

    /// Reads a multicast group from its sibling attributes.
    pub fn parse(order: Endianness, buffer: &[u8]) -> (r: Result<MulticastGroup, DecodeFailure>)
        ensures
            spec_result_view(r) == spec_parse_record::<MulticastGroupSlots>(order, buffer@),
    {
        parse_record::<MulticastGroupSlots>(order, buffer)
    }
}

/// The operations of a family, in their order on the wire.
#[derive(Debug, Clone, PartialEq, Eq, Default)]
pub struct OperationList {
    operations: Vec<Operation>,
}

impl View for OperationList {
    type V = Seq<OperationView>;

    closed spec fn view(&self) -> Seq<OperationView> {
        spec_views(self.operations@)
    }
}

impl Schema for OperationList {
    type Record = OperationList;

    open spec fn spec_record() -> RecordKind {
        RecordKind::OperationList
    }

    open spec fn spec_knows(kind: u16) -> bool {
        true
    }

    open spec fn spec_required() -> Seq<u16> {
        Seq::empty()
    }

    open spec fn spec_is_set(slots: Seq<OperationView>, tag: u16) -> bool {
        false
    }

    proof fn lemma_empty(tag: u16) {
    }

    proof fn lemma_step(
        order: Endianness,
        slots: Seq<OperationView>,
        attribute: AttributeView,
        tag: u16,
    ) {
    }

    proof fn lemma_finish(slots: Seq<OperationView>, index: int) {
    }

    open spec fn spec_empty() -> Seq<OperationView> {
        Seq::empty()
    }

    open spec fn spec_step(
        order: Endianness,
        slots: Seq<OperationView>,
        attribute: AttributeView,
    ) -> Result<Seq<OperationView>, DecodeFailure> {
        match spec_parse_record::<OperationSlots>(order, attribute.value) {
            Ok(item) => Ok(slots.push(item)),
            Err(e) => Err(e),
        }
    }

    open spec fn spec_finish(slots: Seq<OperationView>) -> Result<Seq<OperationView>, DecodeFailure> {
        Ok(slots)
    }

    fn empty() -> (slots: Self) {
        let slots = OperationList { operations: Vec::new() };
        assert(slots@ =~= Seq::empty());
        slots
    }

    fn step(self, order: Endianness, attribute: &Attribute<'_>) -> (r: Result<
        Self,
        DecodeFailure,
    >) {
        match Operation::parse(order, attribute.value) {
            Ok(item) => {
                let mut operations = self.operations;
                operations.push(item);
                let next = OperationList { operations };
                assert(next@ =~= self@.push(item@));
                Ok(next)
            },
            Err(e) => Err(e),
        }
    }

    fn finish(self) -> (r: Result<OperationList, DecodeFailure>) {
        Ok(self)
    }
}

impl OperationList {
    /// The operations, in their order on the wire.
    pub fn operations(&self) -> (operations: &Vec<Operation>)
        ensures
            spec_views(operations@) == self@,
    {
        &self.operations
    }

    /// Reads the list from the attribute that holds it: each sibling in its
    /// value is one operation, whatever the tag of the sibling is.
    pub fn parse(order: Endianness, attribute: &Attribute<'_>) -> (r: Result<OperationList, DecodeFailure>)
        ensures
            spec_result_view(r) == spec_parse_record::<OperationList>(order, attribute@.value),
    {
        parse_record::<OperationList>(order, attribute.value)
    }
}

/// The multicast groups of a family, in their order on the wire.
#[derive(Debug, Clone, PartialEq, Eq, Default)]
pub struct MulticastGroupList {
    groups: Vec<MulticastGroup>,
}

impl View for MulticastGroupList {
    type V = Seq<MulticastGroupView>;

    closed spec fn view(&self) -> Seq<MulticastGroupView> {
        spec_views(self.groups@)
    }
}

impl Schema for MulticastGroupList {
    type Record = MulticastGroupList;

    open spec fn spec_record() -> RecordKind {
        RecordKind::MulticastGroupList
    }

    open spec fn spec_knows(kind: u16) -> bool {
        true
    }

    open spec fn spec_required() -> Seq<u16> {
        Seq::empty()
    }

    open spec fn spec_is_set(slots: Seq<MulticastGroupView>, tag: u16) -> bool {
        false
    }

    proof fn lemma_empty(tag: u16) {
    }

    proof fn lemma_step(
        order: Endianness,
        slots: Seq<MulticastGroupView>,
        attribute: AttributeView,
        tag: u16,
    ) {
    }

    proof fn lemma_finish(slots: Seq<MulticastGroupView>, index: int) {
    }

    open spec fn spec_empty() -> Seq<MulticastGroupView> {
        Seq::empty()
    }

    open spec fn spec_step(
        order: Endianness,
        slots: Seq<MulticastGroupView>,
        attribute: AttributeView,
    ) -> Result<Seq<MulticastGroupView>, DecodeFailure> {
        match spec_parse_record::<MulticastGroupSlots>(order, attribute.value) {
            Ok(item) => Ok(slots.push(item)),
            Err(e) => Err(e),
        }
    }

    open spec fn spec_finish(slots: Seq<MulticastGroupView>) -> Result<Seq<MulticastGroupView>, DecodeFailure> {
        Ok(slots)
    }

    fn empty() -> (slots: Self) {
        let slots = MulticastGroupList { groups: Vec::new() };
        assert(slots@ =~= Seq::empty());
        slots
    }

    fn step(self, order: Endianness, attribute: &Attribute<'_>) -> (r: Result<
        Self,
        DecodeFailure,
    >) {
        match MulticastGroup::parse(order, attribute.value) {
            Ok(item) => {
                let mut groups = self.groups;
                groups.push(item);
                let next = MulticastGroupList { groups };
                assert(next@ =~= self@.push(item@));
                Ok(next)
            },
            Err(e) => Err(e),
        }
    }

    fn finish(self) -> (r: Result<MulticastGroupList, DecodeFailure>) {
        Ok(self)
    }
}

impl MulticastGroupList {
    /// The groups, in their order on the wire.
    pub fn groups(&self) -> (groups: &Vec<MulticastGroup>)
        ensures
            spec_views(groups@) == self@,
    {
        &self.groups
    }

    /// Reads the list from the attribute that holds it: each sibling in its
    /// value is one multicast group, whatever the tag of the sibling is.
    pub fn parse(order: Endianness, attribute: &Attribute<'_>) -> (r: Result<MulticastGroupList, DecodeFailure>)
        ensures
            spec_result_view(r) == spec_parse_record::<MulticastGroupList>(order, attribute@.value),
    {
        parse_record::<MulticastGroupList>(order, attribute.value)
    }
}

/// The description of a family as a value.
pub struct NewFamilyView {
    pub id: u16,
    pub name: Seq<char>,
    pub version: u32,
    pub header_size: u32,
    pub max_attributes: u32,
    pub operations: Seq<OperationView>,
    pub multicast_groups: Seq<MulticastGroupView>,
}

/// What the control family tells of a family: its id, and what it offers.
#[derive(Debug, Clone, PartialEq, Eq)]
pub struct NewFamily {
    id: FamilyId,
    name: FamilyName,
    version: Version,
    header_size: HeaderSize,
    max_attributes: MaxAttributes,
    operations: OperationList,
    multicast_groups: MulticastGroupList,
}

impl View for NewFamily {
    type V = NewFamilyView;

    closed spec fn view(&self) -> NewFamilyView {
        NewFamilyView {
            id: self.id@,
            name: self.name@,
            version: self.version@,
            header_size: self.header_size@,
            max_attributes: self.max_attributes@,
            operations: self.operations@,
            multicast_groups: self.multicast_groups@,
        }
    }
}

/// The fields of the description of a family, each set or not.
pub struct NewFamilySlotsView {
    pub id: Option<u16>,
    pub name: Option<Seq<char>>,
    pub version: Option<u32>,
    pub header_size: Option<u32>,
    pub max_attributes: Option<u32>,
    pub operations: Option<Seq<OperationView>>,
    pub multicast_groups: Option<Seq<MulticastGroupView>>,
}

/// The description of a family while it is read.
pub struct NewFamilySlots {
    id: Option<FamilyId>,
    name: Option<FamilyName>,
    version: Option<Version>,
    header_size: Option<HeaderSize>,
    max_attributes: Option<MaxAttributes>,
    operations: Option<OperationList>,
    multicast_groups: Option<MulticastGroupList>,
}

impl View for NewFamilySlots {
    type V = NewFamilySlotsView;

    closed spec fn view(&self) -> NewFamilySlotsView {
        NewFamilySlotsView {
            id: spec_option_view(self.id),
            name: spec_option_view(self.name),
            version: spec_option_view(self.version),
            header_size: spec_option_view(self.header_size),
            max_attributes: spec_option_view(self.max_attributes),
            operations: spec_option_view(self.operations),
            multicast_groups: spec_option_view(self.multicast_groups),
        }
    }
}

impl Schema for NewFamilySlots {
    type Record = NewFamily;

    open spec fn spec_record() -> RecordKind {
        RecordKind::NewFamily
    }

    open spec fn spec_knows(kind: u16) -> bool {
        CTRL_ATTR_FAMILY_ID <= kind <= CTRL_ATTR_MCAST_GROUPS
    }

    open spec fn spec_required() -> Seq<u16> {
        seq![
            CTRL_ATTR_FAMILY_NAME,
            CTRL_ATTR_FAMILY_ID,
            CTRL_ATTR_VERSION,
            CTRL_ATTR_HDRSIZE,
            CTRL_ATTR_MAXATTR,
            CTRL_ATTR_OPS,
            CTRL_ATTR_MCAST_GROUPS,
        ]
    }

    open spec fn spec_is_set(slots: NewFamilySlotsView, tag: u16) -> bool {
        (tag == CTRL_ATTR_FAMILY_NAME && slots.name is Some)
            || (tag == CTRL_ATTR_FAMILY_ID && slots.id is Some)
            || (tag == CTRL_ATTR_VERSION && slots.version is Some)
            || (tag == CTRL_ATTR_HDRSIZE && slots.header_size is Some)
            || (tag == CTRL_ATTR_MAXATTR && slots.max_attributes is Some)
            || (tag == CTRL_ATTR_OPS && slots.operations is Some)
            || (tag == CTRL_ATTR_MCAST_GROUPS && slots.multicast_groups is Some)
    }

    proof fn lemma_empty(tag: u16) {
    }

    proof fn lemma_step(
        order: Endianness,
        slots: NewFamilySlotsView,
        attribute: AttributeView,
        tag: u16,
    ) {
    }

    proof fn lemma_finish(slots: NewFamilySlotsView, index: int) {
    }

    open spec fn spec_empty() -> NewFamilySlotsView {
        NewFamilySlotsView {
            id: None,
            name: None,
            version: None,
            header_size: None,
            max_attributes: None,
            operations: None,
            multicast_groups: None,
        }
    }

    open spec fn spec_step(
        order: Endianness,
        slots: NewFamilySlotsView,
        attribute: AttributeView,
    ) -> Result<NewFamilySlotsView, DecodeFailure> {
        if attribute.kind == CTRL_ATTR_FAMILY_NAME {
            match spec_parse_typed::<FamilyName>(order, attribute) {
                Ok(name) => Ok(NewFamilySlotsView { name: Some(name), ..slots }),
                Err(e) => Err(e),
            }
        } else if attribute.kind == CTRL_ATTR_FAMILY_ID {
            match spec_parse_typed::<FamilyId>(order, attribute) {
                Ok(id) => Ok(NewFamilySlotsView { id: Some(id), ..slots }),
                Err(e) => Err(e),
            }
        } else if attribute.kind == CTRL_ATTR_VERSION {
            match spec_parse_typed::<Version>(order, attribute) {
                Ok(version) => Ok(NewFamilySlotsView { version: Some(version), ..slots }),
                Err(e) => Err(e),
            }
        } else if attribute.kind == CTRL_ATTR_HDRSIZE {
            match spec_parse_typed::<HeaderSize>(order, attribute) {
                Ok(header_size) => Ok(NewFamilySlotsView { header_size: Some(header_size), ..slots }),
                Err(e) => Err(e),
            }
        } else if attribute.kind == CTRL_ATTR_MAXATTR {
            match spec_parse_typed::<MaxAttributes>(order, attribute) {
                Ok(max_attributes) => Ok(NewFamilySlotsView { max_attributes: Some(max_attributes), ..slots }),
                Err(e) => Err(e),
            }
        } else if attribute.kind == CTRL_ATTR_OPS {
            match spec_parse_record::<OperationList>(order, attribute.value) {
                Ok(operations) => Ok(NewFamilySlotsView { operations: Some(operations), ..slots }),
                Err(e) => Err(e),
            }
        } else if attribute.kind == CTRL_ATTR_MCAST_GROUPS {
            match spec_parse_record::<MulticastGroupList>(order, attribute.value) {
                Ok(multicast_groups) => Ok(NewFamilySlotsView { multicast_groups: Some(multicast_groups), ..slots }),
                Err(e) => Err(e),
            }
        } else {
            Err(DecodeFailure::UnknownTag { record: RecordKind::NewFamily, kind: attribute.kind })
        }
    }

    open spec fn spec_finish(slots: NewFamilySlotsView) -> Result<NewFamilyView, DecodeFailure> {
        if slots.name is None {
            Err(DecodeFailure::MissingField { record: RecordKind::NewFamily, tag: CTRL_ATTR_FAMILY_NAME })
        } else if slots.id is None {
            Err(DecodeFailure::MissingField { record: RecordKind::NewFamily, tag: CTRL_ATTR_FAMILY_ID })
        } else if slots.version is None {
            Err(DecodeFailure::MissingField { record: RecordKind::NewFamily, tag: CTRL_ATTR_VERSION })
        } else if slots.header_size is None {
            Err(DecodeFailure::MissingField { record: RecordKind::NewFamily, tag: CTRL_ATTR_HDRSIZE })
        } else if slots.max_attributes is None {
            Err(DecodeFailure::MissingField { record: RecordKind::NewFamily, tag: CTRL_ATTR_MAXATTR })
        } else if slots.operations is None {
            Err(DecodeFailure::MissingField { record: RecordKind::NewFamily, tag: CTRL_ATTR_OPS })
        } else if slots.multicast_groups is None {
            Err(DecodeFailure::MissingField { record: RecordKind::NewFamily, tag: CTRL_ATTR_MCAST_GROUPS })
        } else {
            Ok(
                NewFamilyView {
                    id: slots.id.unwrap(),
                    name: slots.name.unwrap(),
                    version: slots.version.unwrap(),
                    header_size: slots.header_size.unwrap(),
                    max_attributes: slots.max_attributes.unwrap(),
                    operations: slots.operations.unwrap(),
                    multicast_groups: slots.multicast_groups.unwrap(),
                },
            )
        }
    }

    fn empty() -> (slots: Self) {
        NewFamilySlots {
            id: None,
            name: None,
            version: None,
            header_size: None,
            max_attributes: None,
            operations: None,
            multicast_groups: None,
        }
    }

    fn step(self, order: Endianness, attribute: &Attribute<'_>) -> (r: Result<
        Self,
        DecodeFailure,
    >) {
        if attribute.kind == CTRL_ATTR_FAMILY_NAME {
            match FamilyName::parse(order, attribute) {
                Ok(name) => Ok(NewFamilySlots { name: Some(name), ..self }),
                Err(e) => Err(e),
            }
        } else if attribute.kind == CTRL_ATTR_FAMILY_ID {
            match FamilyId::parse(order, attribute) {
                Ok(id) => Ok(NewFamilySlots { id: Some(id), ..self }),
                Err(e) => Err(e),
            }
        } else if attribute.kind == CTRL_ATTR_VERSION {
            match Version::parse(order, attribute) {
                Ok(version) => Ok(NewFamilySlots { version: Some(version), ..self }),
                Err(e) => Err(e),
            }
        } else if attribute.kind == CTRL_ATTR_HDRSIZE {
            match HeaderSize::parse(order, attribute) {
                Ok(header_size) => Ok(NewFamilySlots { header_size: Some(header_size), ..self }),
                Err(e) => Err(e),
            }
        } else if attribute.kind == CTRL_ATTR_MAXATTR {
            match MaxAttributes::parse(order, attribute) {
                Ok(max_attributes) => Ok(NewFamilySlots { max_attributes: Some(max_attributes), ..self }),
                Err(e) => Err(e),
            }
        } else if attribute.kind == CTRL_ATTR_OPS {
            match OperationList::parse(order, attribute) {
                Ok(operations) => Ok(NewFamilySlots { operations: Some(operations), ..self }),
                Err(e) => Err(e),
            }
        } else if attribute.kind == CTRL_ATTR_MCAST_GROUPS {
            match MulticastGroupList::parse(order, attribute) {
                Ok(multicast_groups) => Ok(NewFamilySlots { multicast_groups: Some(multicast_groups), ..self }),
                Err(e) => Err(e),
            }
        } else {
            Err(DecodeFailure::UnknownTag { record: RecordKind::NewFamily, kind: attribute.kind })
        }
    }

    fn finish(self) -> (r: Result<NewFamily, DecodeFailure>) {
        let name = match self.name {
            Some(name) => name,
            None => {
                return Err(
                    DecodeFailure::MissingField { record: RecordKind::NewFamily, tag: CTRL_ATTR_FAMILY_NAME },
                );
            },
        };
        let id = match self.id {
            Some(id) => id,
            None => {
                return Err(
                    DecodeFailure::MissingField { record: RecordKind::NewFamily, tag: CTRL_ATTR_FAMILY_ID },
                );
            },
        };
        let version = match self.version {
            Some(version) => version,
            None => {
                return Err(
                    DecodeFailure::MissingField { record: RecordKind::NewFamily, tag: CTRL_ATTR_VERSION },
                );
            },
        };
        let header_size = match self.header_size {
            Some(header_size) => header_size,
            None => {
                return Err(
                    DecodeFailure::MissingField { record: RecordKind::NewFamily, tag: CTRL_ATTR_HDRSIZE },
                );
            },
        };
        let max_attributes = match self.max_attributes {
            Some(max_attributes) => max_attributes,
            None => {
                return Err(
                    DecodeFailure::MissingField { record: RecordKind::NewFamily, tag: CTRL_ATTR_MAXATTR },
                );
            },
        };
        let operations = match self.operations {
            Some(operations) => operations,
            None => {
                return Err(
                    DecodeFailure::MissingField { record: RecordKind::NewFamily, tag: CTRL_ATTR_OPS },
                );
            },
        };
        let multicast_groups = match self.multicast_groups {
            Some(multicast_groups) => multicast_groups,
            None => {
                return Err(
                    DecodeFailure::MissingField { record: RecordKind::NewFamily, tag: CTRL_ATTR_MCAST_GROUPS },
                );
            },
        };
        Ok(NewFamily { id, name, version, header_size, max_attributes, operations, multicast_groups })
    }
}

impl NewFamily {
    /// The id under which the family is addressed.
    pub fn id(&self) -> (id: &FamilyId)
        ensures
            id@ == self@.id,
    {
        &self.id
    }

    /// The name of the family.
    pub fn name(&self) -> (name: &FamilyName)
        ensures
            name@ == self@.name,
    {
        &self.name
    }

    /// The version of the family.
    pub fn version(&self) -> (version: &Version)
        ensures
            version@ == self@.version,
    {
        &self.version
    }

    /// The size of the header of the family.
    pub fn header_size(&self) -> (header_size: &HeaderSize)
        ensures
            header_size@ == self@.header_size,
    {
        &self.header_size
    }

    /// The highest attribute tag of the family.
    pub fn max_attributes(&self) -> (max_attributes: &MaxAttributes)
        ensures
            max_attributes@ == self@.max_attributes,
    {
        &self.max_attributes
    }

    /// The operations of the family.
    pub fn operations(&self) -> (operations: &OperationList)
        ensures
            operations@ == self@.operations,
    {
        &self.operations
    }

    /// The multicast groups of the family.
    pub fn multicast_groups(&self) -> (multicast_groups: &MulticastGroupList)
        ensures
            multicast_groups@ == self@.multicast_groups,
    {
        &self.multicast_groups
    }

    /// Reads the description of a family from its sibling attributes.
    pub fn parse(order: Endianness, buffer: &[u8]) -> (r: Result<NewFamily, DecodeFailure>)
        ensures
            spec_result_view(r) == spec_parse_record::<NewFamilySlots>(order, buffer@),
    {
        parse_record::<NewFamilySlots>(order, buffer)
    }
}

/// A message of the control family as a value.
pub enum ControlMessageView {
    NewFamily(NewFamilyView),
    GetFamily(Seq<char>),
}

/// The messages of the control family that take part in the resolution of
/// a family: the request by name, and the answer.
#[derive(Debug, Clone, PartialEq, Eq)]
pub enum ControlMessage {
    /// The answer: the description of a family.
    NewFamily(NewFamily),
    /// The request for the family of the given name.
    GetFamily(FamilyName),
}

impl View for ControlMessage {
    type V = ControlMessageView;

    open spec fn view(&self) -> ControlMessageView {
        match self {
            ControlMessage::NewFamily(family) => ControlMessageView::NewFamily(family@),
            ControlMessage::GetFamily(name) => ControlMessageView::GetFamily(name@),
        }
    }
}

/// The bytes that the attributes of a message take up, padding included.
pub open spec fn spec_attribute_size(message: ControlMessageView) -> int {
    match message {
        ControlMessageView::NewFamily(family) => spec_encoded_length(2) + spec_encoded_length(
            encode_utf8(family.name).len() as int,
        ),
        ControlMessageView::GetFamily(name) => spec_encoded_length(encode_utf8(name).len() as int),
    }
}

/// The command byte of a message.
pub open spec fn spec_command(message: ControlMessageView) -> u8 {
    match message {
        ControlMessageView::NewFamily(_) => CTRL_CMD_NEWFAMILY,
        ControlMessageView::GetFamily(_) => CTRL_CMD_GETFAMILY,
    }
}

/// The version byte of a message.
pub open spec fn spec_version(message: ControlMessageView) -> u8 {
    match message {
        ControlMessageView::NewFamily(_) => 2,
        ControlMessageView::GetFamily(_) => 1,
    }
}

/// The messages that can be written: the requests. The answers are only
/// read.
pub open spec fn spec_can_emit(message: ControlMessageView) -> bool {
    message is GetFamily
}

/// The attributes of a request on the wire, without the padding of the last
/// one.
pub open spec fn spec_emitted_attributes(order: Endianness, message: ControlMessageView) -> Seq<u8>
    recommends
        spec_can_emit(message),
{
    match message {
        ControlMessageView::GetFamily(name) => spec_emit(
            order,
            CTRL_ATTR_FAMILY_NAME,
            encode_utf8(name),
        ),
        ControlMessageView::NewFamily(_) => Seq::empty(),
    }
}

/// The payload of a request on the wire: command, version, two reserved
/// bytes that are zero, and the attributes.
pub open spec fn spec_serialize(order: Endianness, message: ControlMessageView) -> Seq<u8>
    recommends
        spec_can_emit(message),
{
    seq![spec_command(message), spec_version(message), 0u8, 0u8] + spec_emitted_attributes(
        order,
        message,
    )
}

/// The message that a buffer of the given message type holds, where the
/// bytes that decide are there.
///
/// The message type selects the family, the first byte of the buffer the
/// command; the attributes behind the header are the body.
pub open spec fn spec_parse_with_param(
    order: Endianness,
    message_type: u16,
    payload: Seq<u8>,
) -> Result<ControlMessageView, DecodeFailure>
    recommends
        spec_has_header(message_type, payload),
{
    if message_type != GENL_ID_CTRL {
        Err(DecodeFailure::UnknownMessageType { message_type })
    } else if payload[0] != CTRL_CMD_NEWFAMILY {
        Err(DecodeFailure::UnsupportedCommand { command: payload[0] })
    } else {
        match spec_parse_record::<NewFamilySlots>(order, payload.skip(4)) {
            Ok(family) => Ok(ControlMessageView::NewFamily(family)),
            Err(e) => Err(e),
        }
    }
}

/// The message that a payload of the given message type holds.
///
/// A payload that is shorter than the header of four bytes is truncated,
/// whatever the message type is. Behind the header the message type
/// selects the family and the command the message.
pub open spec fn spec_deserialize(order: Endianness, message_type: u16, payload: Seq<u8>) -> Result<
    ControlMessageView,
    DecodeFailure,
> {
    if payload.len() < 4 {
        Err(DecodeFailure::Truncated { needed: 4, available: payload.len() as usize })
    } else {
        spec_parse_with_param(order, message_type, payload)
    }
}

/// The payloads in which the bytes that decide are there: for the control
/// family the command, and for a description of a family the whole header.
pub open spec fn spec_has_header(message_type: u16, payload: Seq<u8>) -> bool {
    message_type == GENL_ID_CTRL ==> payload.len() >= 1 && (payload[0] == CTRL_CMD_NEWFAMILY
        ==> payload.len() >= 4)
}

/// Tells whether the bytes that decide are there: whether
/// `parse_with_param` can be asked for the message in `payload`.
pub fn has_header(message_type: u16, payload: &[u8]) -> (has: bool)
    ensures
        has == spec_has_header(message_type, payload@),
{
    if message_type == GENL_ID_CTRL {
        payload.len() >= 1 && (payload[0] != CTRL_CMD_NEWFAMILY || payload.len() >= 4)
    } else {
        true
    }
}

impl ControlMessage {
    /// The bytes that the attributes of the message take up, padding
    /// included. Of a description of a family only its id and its name
    /// count.
    pub fn attribute_size(&self) -> (size: usize)
        requires
            spec_attribute_size(self@) <= usize::MAX,
        ensures
            size == spec_attribute_size(self@),
    {
        match self {
            ControlMessage::NewFamily(family) => family.id.buffer_len() + family.name.buffer_len(),
            ControlMessage::GetFamily(name) => name.buffer_len(),
        }
    }

    /// The command byte of the message.
    pub fn command(&self) -> (command: u8)
        ensures
            command == spec_command(self@),
    {
        match self {
            ControlMessage::NewFamily(_) => CTRL_CMD_NEWFAMILY,
            ControlMessage::GetFamily(_) => CTRL_CMD_GETFAMILY,
        }
    }

    /// The version byte of the message.
    pub fn version(&self) -> (version: u8)
        ensures
            version == spec_version(self@),
    {
        match self {
            ControlMessage::NewFamily(_) => 2,
            _ => 1,
        }
    }

    /// Tells whether the message can be written: a request can, an answer
    /// cannot.
    pub fn can_emit(&self) -> (can: bool)
        ensures
            can == spec_can_emit(self@),
    {
        match self {
            ControlMessage::NewFamily(_) => false,
            ControlMessage::GetFamily(_) => true,
        }
    }

    /// Writes the attributes of a request over the start of `buffer`.
    pub fn emit_attributes(&self, order: Endianness, buffer: &mut [u8])
        requires
            spec_can_emit(self@),
            spec_emitted_attributes(order, self@).len() <= 4 + MAX_VALUE_LEN,
            old(buffer)@.len() >= spec_emitted_attributes(order, self@).len(),
        ensures
            final(buffer)@ == spec_emitted_attributes(order, self@) + old(buffer)@.skip(
                spec_emitted_attributes(order, self@).len() as int,
            ),
    {
        match self {
            ControlMessage::NewFamily(_) => {},
            ControlMessage::GetFamily(name) => name.emit(order, buffer),
        }
    }

    /// The size of the payload: the header and the attributes.
    pub fn buffer_len(&self) -> (len: usize)
        requires
            4 + spec_attribute_size(self@) <= usize::MAX,
        ensures
            len == 4 + spec_attribute_size(self@),
    {
        4 + self.attribute_size()
    }

    /// The message type under which the message travels: the id of the
    /// control family.
    pub fn message_type(&self) -> (message_type: u16)
        ensures
            message_type == GENL_ID_CTRL,
    {
        GENL_ID_CTRL
    }

    /// Writes the payload of a request over the start of `buffer`. The
    /// padding behind the last attribute is left as it is.
    pub fn serialize(&self, order: Endianness, buffer: &mut [u8])
        requires
            spec_can_emit(self@),
            spec_serialize(order, self@).len() <= 8 + MAX_VALUE_LEN,
            old(buffer)@.len() >= spec_serialize(order, self@).len(),
        ensures
            final(buffer)@ == spec_serialize(order, self@) + old(buffer)@.skip(
                spec_serialize(order, self@).len() as int,
            ),
    {
        let ghost before = buffer@;
        buffer[0] = self.command();
        buffer[1] = self.version();
        buffer[2] = 0;
        buffer[3] = 0;
        let (header, attributes) = buffer.split_at_mut(4);
        self.emit_attributes(order, attributes);
        assert(header@ + attributes@ =~= spec_serialize(order, self@) + before.skip(
            spec_serialize(order, self@).len() as int,
        ));
    }

    /// Reads the message that `buffer` holds. The message type selects the
    /// family and the command the message; of the control family only the
    /// description of a family is read. The buffer may be one whose length
    /// nobody has looked at: the bytes that decide have to be there.
    pub fn parse_with_param(order: Endianness, buffer: &GenericBuffer<&[u8]>, message_type: u16) -> (r:
        Result<ControlMessage, DecodeFailure>)
        requires
            spec_has_header(message_type, buffer@),
        ensures
            spec_result_view(r) == spec_parse_with_param(order, message_type, buffer@),
    {
        if message_type == GENL_ID_CTRL {
            let command = buffer.command();
            if command == CTRL_CMD_NEWFAMILY {
                match NewFamily::parse(order, buffer.attributes()) {
                    Ok(family) => Ok(ControlMessage::NewFamily(family)),
                    Err(e) => Err(e),
                }
            } else {
                Err(DecodeFailure::UnsupportedCommand { command })
            }
        } else {
            Err(DecodeFailure::UnknownMessageType { message_type })
        }
    }

    /// Reads the message in the payload of a netlink message whose header
    /// holds `message_type`. Every payload is taken: one that ends inside
    /// the header of four bytes is refused as truncated.
    pub fn deserialize(order: Endianness, message_type: u16, payload: &[u8]) -> (r: Result<
        ControlMessage,
        DecodeFailure,
    >)
        ensures
            spec_result_view(r) == spec_deserialize(order, message_type, payload@),
    {
        match GenericBuffer::new_checked(payload) {
            Ok(buffer) => ControlMessage::parse_with_param(order, &buffer, message_type),
            Err(e) => Err(e),
        }
    }
}

/// An operation on the wire: its command and its flags, one attribute
/// behind the other.
pub open spec fn spec_operation_bytes(order: Endianness, operation: OperationView) -> Seq<u8> {
    spec_emit(order, CTRL_ATTR_OP_ID, u32_bytes(order, operation.id)) + spec_emit(
        order,
        CTRL_ATTR_OP_FLAGS,
        u32_bytes(order, operation.flags),
    )
}

/// A list of operations on the wire: each operation is the value of an
/// attribute of its own, under the tag that stands beside it.
pub open spec fn spec_operation_list_bytes(
    order: Endianness,
    operations: Seq<(u16, OperationView)>,
) -> Seq<u8>
    decreases operations.len(),
{
    if operations.len() == 0 {
        Seq::empty()
    } else {
        spec_emit(order, operations.first().0, spec_operation_bytes(order, operations.first().1))
            + spec_operation_list_bytes(order, operations.drop_first())
    }
}

/// The operations of a list without the tags under which they travel.
pub open spec fn spec_untagged(operations: Seq<(u16, OperationView)>) -> Seq<OperationView> {
    Seq::new(operations.len(), |i: int| operations[i].1)
}

/// An operation that was written is read back.
pub proof fn lemma_operation_round_trip(order: Endianness, operation: OperationView)
    ensures
        spec_operation_bytes(order, operation).len() == 16,
        spec_parse_record::<OperationSlots>(order, spec_operation_bytes(order, operation)) == Ok::<
            OperationView,
            DecodeFailure,
        >(operation),
{
    let id = spec_emit(order, CTRL_ATTR_OP_ID, u32_bytes(order, operation.id));
    let flags = spec_emit(order, CTRL_ATTR_OP_FLAGS, u32_bytes(order, operation.flags));
    let bytes = id + flags;
    let nothing = Seq::<u8>::empty();
    let empty = OperationSlots::spec_empty();
    let one = OperationSlotsView { id: Some(operation.id), flags: None };
    let two = OperationSlotsView { id: Some(operation.id), flags: Some(operation.flags) };
    assert(id.len() == 8 && flags.len() == 8);
    lemma_typed_round_trip::<OperationId>(order, operation.id, flags);
    lemma_typed_round_trip::<OperationFlags>(order, operation.flags, nothing);
    assert(flags + nothing =~= flags);
    let first = spec_attribute(order, bytes)->Ok_0;
    let second = spec_attribute(order, flags)->Ok_0;
    assert(first.value.len() == 4 && second.value.len() == 4) by {
        lemma_emitted_is_parsed(order, CTRL_ATTR_OP_ID, u32_bytes(order, operation.id), flags);
        lemma_emitted_is_parsed(
            order,
            CTRL_ATTR_OP_FLAGS,
            u32_bytes(order, operation.flags),
            nothing,
        );
    }
    assert(spec_after(order, bytes) =~= flags);
    assert(spec_after(order, flags) =~= nothing);
    let last = spec_attributes(order, nothing);
    assert(last =~= Seq::empty());
    let later = spec_attributes(order, flags);
    assert(later =~= seq![spec_attribute(order, flags)] + last);
    let items = spec_attributes(order, bytes);
    assert(items =~= seq![spec_attribute(order, bytes)] + later);
    assert(items.drop_first() =~= later);
    assert(later.drop_first() =~= last);
    assert(spec_fill::<OperationSlots>(order, last, two) == Ok::<
        OperationSlotsView,
        DecodeFailure,
    >(two));
    assert(OperationSlots::spec_step(order, one, second) == Ok::<
        OperationSlotsView,
        DecodeFailure,
    >(two));
    assert(spec_fill::<OperationSlots>(order, later, one) == Ok::<
        OperationSlotsView,
        DecodeFailure,
    >(two));
    assert(OperationSlots::spec_step(order, empty, first) == Ok::<
        OperationSlotsView,
        DecodeFailure,
    >(one));
    assert(spec_fill::<OperationSlots>(order, items, empty) == Ok::<
        OperationSlotsView,
        DecodeFailure,
    >(two));
}

/// An operation that was written as the value of an attribute, with
/// anything behind it: the walk finds the attribute with the operation as
/// its value, and goes on behind it.
pub proof fn lemma_operation_item_is_found(
    order: Endianness,
    tag: u16,
    operation: OperationView,
    behind: Seq<u8>,
)
    ensures
        spec_attribute(
            order,
            spec_emit(order, tag, spec_operation_bytes(order, operation)) + behind,
        ) == Ok::<AttributeView, DecodeFailure>(
            AttributeView {
                kind: spec_kind_of_tag(tag),
                value: spec_operation_bytes(order, operation),
            },
        ),
        spec_after(order, spec_emit(order, tag, spec_operation_bytes(order, operation)) + behind)
            == behind,
        (spec_emit(order, tag, spec_operation_bytes(order, operation)) + behind).len() == 20
            + behind.len(),
{
    let value = spec_operation_bytes(order, operation);
    let bytes = spec_emit(order, tag, value) + behind;
    assert(value.len() == 16);
    lemma_emitted_is_parsed(order, tag, value, behind);
    lemma_emitted_is_passed(order, tag, value, Seq::empty(), behind);
    assert(spec_emit(order, tag, value) + Seq::<u8>::empty() + behind =~= bytes);
}

/// A list that takes an attribute whose value is an operation gets the
/// operation.
pub proof fn lemma_operation_item_is_taken(
    order: Endianness,
    attribute: AttributeView,
    operation: OperationView,
    found: Seq<OperationView>,
)
    requires
        attribute.value == spec_operation_bytes(order, operation),
    ensures
        OperationList::spec_step(order, found, attribute) == Ok::<
            Seq<OperationView>,
            DecodeFailure,
        >(found.push(operation)),
{
    lemma_operation_round_trip(order, operation);
}

/// What the operations that were written add to a list that is read:
/// themselves, in their order.
pub proof fn lemma_operation_list_is_filled(
    order: Endianness,
    operations: Seq<(u16, OperationView)>,
    found: Seq<OperationView>,
)
    ensures
        spec_fill::<OperationList>(
            order,
            spec_attributes(order, spec_operation_list_bytes(order, operations)),
            found,
        ) == Ok::<Seq<OperationView>, DecodeFailure>(found + spec_untagged(operations)),
    decreases operations.len(),
{
    let bytes = spec_operation_list_bytes(order, operations);
    if operations.len() == 0 {
        assert(bytes =~= Seq::<u8>::empty());
        assert(found + spec_untagged(operations) =~= found);
    } else {
        let tag = operations.first().0;
        let operation = operations.first().1;
        let rest = operations.drop_first();
        let behind = spec_operation_list_bytes(order, rest);
        let head = spec_emit(order, tag, spec_operation_bytes(order, operation));
        let attribute = AttributeView {
            kind: spec_kind_of_tag(tag),
            value: spec_operation_bytes(order, operation),
        };
        let next = found.push(operation);
        assert(bytes == head + behind);
        assert(bytes.len() > 0 && spec_attribute(order, bytes) == Ok::<
            AttributeView,
            DecodeFailure,
        >(attribute) && spec_after(order, bytes) == behind) by {
            lemma_operation_item_is_found(order, tag, operation, behind);
        }
        assert(OperationList::spec_step(order, found, attribute) == Ok::<
            Seq<OperationView>,
            DecodeFailure,
        >(next)) by {
            lemma_operation_item_is_taken(order, attribute, operation, found);
        }
        assert(spec_fill::<OperationList>(order, spec_attributes(order, bytes), found)
            == spec_fill::<OperationList>(order, spec_attributes(order, behind), next)) by {
            lemma_fill_takes_one::<OperationList>(order, bytes, found, next);
        }
        lemma_operation_list_is_filled(order, rest, next);
        assert(next + spec_untagged(rest) =~= found + spec_untagged(operations));
    }
}

/// Nested list round trip: a list of operations that was written, each
/// operation in an attribute of its own, is read back as it was, whatever
/// tags those attributes have.
pub proof fn lemma_operation_list_round_trip(
    order: Endianness,
    operations: Seq<(u16, OperationView)>,
)
    ensures
        spec_parse_record::<OperationList>(order, spec_operation_list_bytes(order, operations))
            == Ok::<Seq<OperationView>, DecodeFailure>(spec_untagged(operations)),
{
    lemma_operation_list_is_filled(order, operations, Seq::empty());
    assert(Seq::<OperationView>::empty() + spec_untagged(operations) =~= spec_untagged(operations));
}

/// Alignment of a request: the attributes of a request for a family take
/// up the smallest multiple of four that holds the header of the name and
/// the bytes of the name.
pub proof fn lemma_attribute_size_is_least(name: Seq<char>, other: int)
    requires
        other % 4 == 0,
        other >= 4 + encode_utf8(name).len(),
    ensures
        spec_attribute_size(ControlMessageView::GetFamily(name)) % 4 == 0,
        spec_attribute_size(ControlMessageView::GetFamily(name)) >= 4 + encode_utf8(name).len(),
        spec_attribute_size(ControlMessageView::GetFamily(name)) <= other,
{
}

/// A payload that ends inside the header of four bytes holds no message:
/// the failure is a truncation, whatever the message type is.
pub proof fn lemma_short_payload_is_truncated(
    order: Endianness,
    message_type: u16,
    payload: Seq<u8>,
)
    requires
        payload.len() < 4,
    ensures
        spec_deserialize(order, message_type, payload) == Err::<ControlMessageView, DecodeFailure>(
            DecodeFailure::Truncated { needed: 4, available: payload.len() as usize },
        ),
{
}

/// Behind a whole header the message type decides first, then the command.
pub proof fn lemma_dispatch(order: Endianness, message_type: u16, payload: Seq<u8>)
    requires
        payload.len() >= 4,
    ensures
        message_type != GENL_ID_CTRL ==> spec_deserialize(order, message_type, payload) == Err::<
            ControlMessageView,
            DecodeFailure,
        >(DecodeFailure::UnknownMessageType { message_type }),
        message_type == GENL_ID_CTRL && payload[0] != CTRL_CMD_NEWFAMILY ==> spec_deserialize(
            order,
            message_type,
            payload,
        ) == Err::<ControlMessageView, DecodeFailure>(
            DecodeFailure::UnsupportedCommand { command: payload[0] },
        ),
{
}

/// The padding behind a value of `len` bytes, as zeros.
pub open spec fn spec_zero_padding(len: int) -> Seq<u8> {
    Seq::new((aligned(len) - len) as nat, |i: int| 0u8)
}

/// A multicast group on the wire: its name without a terminator, padded
/// with zeros, and its id behind it.
pub open spec fn spec_group_bytes(order: Endianness, group: MulticastGroupView) -> Seq<u8> {
    spec_emit(order, CTRL_ATTR_MCAST_GRP_NAME, encode_utf8(group.name)) + spec_zero_padding(
        encode_utf8(group.name).len() as int,
    ) + spec_emit(order, CTRL_ATTR_MCAST_GRP_ID, u32_bytes(order, group.id))
}

/// The groups that a list can carry and give back: the name is read back
/// as it is written, and the group is no longer than the length field of
/// the attribute around it can declare.
pub open spec fn spec_group_travels(group: MulticastGroupView) -> bool {
    &&& MulticastGroupName::spec_reads_back(group.name)
    &&& 12 + aligned(encode_utf8(group.name).len() as int) <= MAX_VALUE_LEN
}

/// A list of multicast groups on the wire: each group is the value of an
/// attribute of its own, under the tag that stands beside it.
pub open spec fn spec_group_list_bytes(
    order: Endianness,
    groups: Seq<(u16, MulticastGroupView)>,
) -> Seq<u8>
    decreases groups.len(),
{
    if groups.len() == 0 {
        Seq::empty()
    } else {
        spec_emit(order, groups.first().0, spec_group_bytes(order, groups.first().1))
            + spec_group_list_bytes(order, groups.drop_first())
    }
}

/// The groups of a list without the tags under which they travel.
pub open spec fn spec_untagged_groups(groups: Seq<(u16, MulticastGroupView)>) -> Seq<
    MulticastGroupView,
> {
    Seq::new(groups.len(), |i: int| groups[i].1)
}

/// A multicast group that was written is read back.
pub proof fn lemma_group_round_trip(order: Endianness, group: MulticastGroupView)
    requires
        spec_group_travels(group),
    ensures
        spec_group_bytes(order, group).len() == 12 + aligned(
            encode_utf8(group.name).len() as int,
        ),
        spec_parse_record::<MulticastGroupSlots>(order, spec_group_bytes(order, group)) == Ok::<
            MulticastGroupView,
            DecodeFailure,
        >(group),
{
    let text = encode_utf8(group.name);
    let name = spec_emit(order, CTRL_ATTR_MCAST_GRP_NAME, text);
    let padding = spec_zero_padding(text.len() as int);
    let id = spec_emit(order, CTRL_ATTR_MCAST_GRP_ID, u32_bytes(order, group.id));
    let bytes = name + padding + id;
    let nothing = Seq::<u8>::empty();
    let empty = MulticastGroupSlots::spec_empty();
    let one = MulticastGroupSlotsView { id: None, name: Some(group.name) };
    let two = MulticastGroupSlotsView { id: Some(group.id), name: Some(group.name) };
    assert(name.len() == 4 + text.len() && id.len() == 8);
    assert(bytes =~= name + (padding + id));
    lemma_typed_round_trip::<MulticastGroupName>(order, group.name, padding + id);
    lemma_typed_round_trip::<MulticastGroupId>(order, group.id, nothing);
    assert(id + nothing =~= id);
    let first = spec_attribute(order, bytes)->Ok_0;
    let second = spec_attribute(order, id)->Ok_0;
    assert(spec_after(order, bytes) == id) by {
        lemma_emitted_is_passed(order, CTRL_ATTR_MCAST_GRP_NAME, text, padding, id);
    }
    assert(spec_after(order, id) == nothing) by {
        lemma_emitted_is_passed(
            order,
            CTRL_ATTR_MCAST_GRP_ID,
            u32_bytes(order, group.id),
            nothing,
            nothing,
        );
        assert(id + nothing + nothing =~= id);
    }
    let last = spec_attributes(order, nothing);
    assert(last =~= Seq::empty());
    assert(MulticastGroupSlots::spec_step(order, empty, first) == Ok::<
        MulticastGroupSlotsView,
        DecodeFailure,
    >(one));
    assert(MulticastGroupSlots::spec_step(order, one, second) == Ok::<
        MulticastGroupSlotsView,
        DecodeFailure,
    >(two));
    assert(spec_fill::<MulticastGroupSlots>(order, last, two) == Ok::<
        MulticastGroupSlotsView,
        DecodeFailure,
    >(two));
    lemma_fill_takes_one::<MulticastGroupSlots>(order, id, one, two);
    lemma_fill_takes_one::<MulticastGroupSlots>(order, bytes, empty, one);
}

/// A multicast group that was written as the value of an attribute, with
/// anything behind it: the walk finds the attribute with the group as its
/// value, and goes on behind it.
pub proof fn lemma_group_item_is_found(
    order: Endianness,
    tag: u16,
    group: MulticastGroupView,
    behind: Seq<u8>,
)
    requires
        spec_group_travels(group),
    ensures
        spec_attribute(order, spec_emit(order, tag, spec_group_bytes(order, group)) + behind)
            == Ok::<AttributeView, DecodeFailure>(
            AttributeView { kind: spec_kind_of_tag(tag), value: spec_group_bytes(order, group) },
        ),
        spec_after(order, spec_emit(order, tag, spec_group_bytes(order, group)) + behind)
            == behind,
        (spec_emit(order, tag, spec_group_bytes(order, group)) + behind).len() > 0,
{
    let value = spec_group_bytes(order, group);
    let bytes = spec_emit(order, tag, value) + behind;
    lemma_group_round_trip(order, group);
    lemma_emitted_is_parsed(order, tag, value, behind);
    lemma_emitted_is_passed(order, tag, value, Seq::empty(), behind);
    assert(spec_emit(order, tag, value) + Seq::<u8>::empty() + behind =~= bytes);
}

/// A list that takes an attribute whose value is a multicast group gets
/// the group.
pub proof fn lemma_group_item_is_taken(
    order: Endianness,
    attribute: AttributeView,
    group: MulticastGroupView,
    found: Seq<MulticastGroupView>,
)
    requires
        spec_group_travels(group),
        attribute.value == spec_group_bytes(order, group),
    ensures
        MulticastGroupList::spec_step(order, found, attribute) == Ok::<
            Seq<MulticastGroupView>,
            DecodeFailure,
        >(found.push(group)),
{
    lemma_group_round_trip(order, group);
}

/// What the groups that were written add to a list that is read:
/// themselves, in their order.
pub proof fn lemma_group_list_is_filled(
    order: Endianness,
    groups: Seq<(u16, MulticastGroupView)>,
    found: Seq<MulticastGroupView>,
)
    requires
        forall|i: int| 0 <= i < groups.len() ==> spec_group_travels((#[trigger] groups[i]).1),
    ensures
        spec_fill::<MulticastGroupList>(
            order,
            spec_attributes(order, spec_group_list_bytes(order, groups)),
            found,
        ) == Ok::<Seq<MulticastGroupView>, DecodeFailure>(found + spec_untagged_groups(groups)),
    decreases groups.len(),
{
    let bytes = spec_group_list_bytes(order, groups);
    if groups.len() == 0 {
        assert(bytes =~= Seq::<u8>::empty());
        assert(found + spec_untagged_groups(groups) =~= found);
    } else {
        let tag = groups.first().0;
        let group = groups.first().1;
        let rest = groups.drop_first();
        let behind = spec_group_list_bytes(order, rest);
        let head = spec_emit(order, tag, spec_group_bytes(order, group));
        let attribute = AttributeView {
            kind: spec_kind_of_tag(tag),
            value: spec_group_bytes(order, group),
        };
        let next = found.push(group);
        assert(spec_group_travels(groups[0].1));
        assert(forall|i: int| 0 <= i < rest.len() ==> spec_group_travels((#[trigger] rest[i]).1))
            by {
            assert forall|i: int| 0 <= i < rest.len() implies spec_group_travels(
                (#[trigger] rest[i]).1,
            ) by {
                assert(rest[i] == groups[i + 1]);
            }
        }
        assert(bytes == head + behind);
        assert(bytes.len() > 0 && spec_attribute(order, bytes) == Ok::<
            AttributeView,
            DecodeFailure,
        >(attribute) && spec_after(order, bytes) == behind) by {
            lemma_group_item_is_found(order, tag, group, behind);
        }
        assert(MulticastGroupList::spec_step(order, found, attribute) == Ok::<
            Seq<MulticastGroupView>,
            DecodeFailure,
        >(next)) by {
            lemma_group_item_is_taken(order, attribute, group, found);
        }
        assert(spec_fill::<MulticastGroupList>(order, spec_attributes(order, bytes), found)
            == spec_fill::<MulticastGroupList>(order, spec_attributes(order, behind), next)) by {
            lemma_fill_takes_one::<MulticastGroupList>(order, bytes, found, next);
        }
        lemma_group_list_is_filled(order, rest, next);
        assert(next + spec_untagged_groups(rest) =~= found + spec_untagged_groups(groups));
    }
}

/// Nested list round trip: a list of multicast groups that was written,
/// each group in an attribute of its own, is read back as it was, whatever
/// tags those attributes have. This holds of groups whose names do not end
/// in a NUL and that the length field can declare.
pub proof fn lemma_group_list_round_trip(
    order: Endianness,
    groups: Seq<(u16, MulticastGroupView)>,
)
    requires
        forall|i: int| 0 <= i < groups.len() ==> spec_group_travels((#[trigger] groups[i]).1),
    ensures
        spec_parse_record::<MulticastGroupList>(order, spec_group_list_bytes(order, groups))
            == Ok::<Seq<MulticastGroupView>, DecodeFailure>(spec_untagged_groups(groups)),
{
    lemma_group_list_is_filled(order, groups, Seq::empty());
    assert(Seq::<MulticastGroupView>::empty() + spec_untagged_groups(groups)
        =~= spec_untagged_groups(groups));
}

} // verus!

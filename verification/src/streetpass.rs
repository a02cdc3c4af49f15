//! The StreetPass tag that a handheld console puts into its probe
//! requests: a vendor-specific element that names the console and the
//! services that it offers.
//!
//! The tag is a list of entries, each one byte of id, one byte of length,
//! and the data. Integers are big-endian.

use bytes::{Buf, BufMut};
use vstd::prelude::*;

verus! {

/// The tag of a vendor-specific element in a management frame.
pub const VENDOR_SPECIFIC: u8 = 0xdd;

/// The id of the entry that lists the services.
pub const ENTRY_SERVICES: u8 = 0x11;

/// The id of the entry that holds the id of the console.
pub const ENTRY_CONSOLE_ID: u8 = 0xf0;

/// The size of a service on the wire.
pub const SERVICE_LEN: usize = 5;

/// Why a tag could not be read or written.
#[derive(Clone, Copy, Debug, PartialEq, Eq, Structural)]
pub enum StreetpassError {
    /// The frame has no tagged parameters at all.
    NoParameters,
    /// A vendor-specific element is too short for the vendor and the type.
    VendorTagTooShort,
    /// Fewer than five bytes are left where a service should stand.
    ServiceTooShort,
    /// No entry of the tag holds the id of the console.
    NoConsoleId,
    /// The buffer cannot take the fixed part of a tag.
    TagNoSpace,
    /// The buffer cannot take one more service.
    ServiceNoSpace,
    /// More services than the length byte can count.
    TooManyServices,
}

/// The integer that the first four bytes hold, most significant byte first.
pub open spec fn spec_u32_be(bytes: Seq<u8>) -> u32
    recommends
        bytes.len() >= 4,
{
    (16777216 * bytes[0] + 65536 * bytes[1] + 256 * bytes[2] + bytes[3]) as u32
}

/// The four bytes of an integer, most significant byte first.
pub open spec fn spec_u32_be_bytes(value: u32) -> Seq<u8> {
    seq![
        (value / 256 / 256 / 256) as u8,
        (value / 256 / 256 % 256) as u8,
        (value / 256 % 256) as u8,
        (value % 256) as u8,
    ]
}

/// The integer that the first eight bytes hold, most significant byte
/// first.
pub open spec fn spec_u64_be(bytes: Seq<u8>) -> u64
    recommends
        bytes.len() >= 8,
{
    (4294967296 * spec_u32_be(bytes) + spec_u32_be(bytes.skip(4))) as u64
}

/// The eight bytes of an integer, most significant byte first.
pub open spec fn spec_u64_be_bytes(value: u64) -> Seq<u8> {
    spec_u32_be_bytes((value / 4294967296) as u32) + spec_u32_be_bytes((value % 4294967296) as u32)
}

/// `bytes::Buf::get_u32` on a slice: the first four bytes, read most
/// significant byte first. It panics where fewer than four bytes are left.
#[verifier::external_body]
fn buf_get_u32(data: &[u8]) -> (value: u32)
    requires
        data@.len() >= 4,
    ensures
        value == spec_u32_be(data@),
{
    let mut cursor = data;
    cursor.get_u32()
}

/// `bytes::Buf::get_u64` on a slice: the first eight bytes, read most
/// significant byte first. It panics where fewer than eight bytes are
/// left.
#[verifier::external_body]
fn buf_get_u64(data: &[u8]) -> (value: u64)
    requires
        data@.len() >= 8,
    ensures
        value == spec_u64_be(data@),
{
    let mut cursor = data;
    cursor.get_u64()
}

/// `bytes::BufMut::put_u32` on a slice: overwrites the first four bytes
/// with `value`, most significant byte first, and leaves the rest as it
/// was. It panics where the slice is shorter.
#[verifier::external_body]
fn buf_put_u32(buffer: &mut [u8], value: u32)
    requires
        old(buffer)@.len() >= 4,
    ensures
        final(buffer)@ == spec_u32_be_bytes(value) + old(buffer)@.skip(4),
{
    let mut cursor = buffer;
    cursor.put_u32(value)
}

/// `bytes::BufMut::put_u64` on a slice: overwrites the first eight bytes
/// with `value`, most significant byte first, and leaves the rest as it
/// was. It panics where the slice is shorter.
#[verifier::external_body]
fn buf_put_u64(buffer: &mut [u8], value: u64)
    requires
        old(buffer)@.len() >= 8,
    ensures
        final(buffer)@ == spec_u64_be_bytes(value) + old(buffer)@.skip(8),
{
    let mut cursor = buffer;
    cursor.put_u64(value)
}

/// At most the first `limit` bytes of `buffer`.
pub fn shorten(buffer: &[u8], limit: usize) -> (head: &[u8])
    ensures
        head@ == if limit < buffer@.len() {
            buffer@.take(limit as int)
        } else {
            buffer@
        },
{
    if limit < buffer.len() {
        let head = vstd::slice::slice_subrange(buffer, 0, limit);
        assert(head@ == buffer@.take(limit as int));
        head
    } else {
        buffer
    }
}

/// The head of a vendor-specific element: who defined it, and which of
/// their elements it is.
#[derive(Clone, Copy, Debug, PartialEq, Eq)]
pub struct VendorSpecificTag {
    pub oui: [u8; 3],
    pub oui_type: u8,
}

impl VendorSpecificTag {
    /// Reads the head of a vendor-specific element, and hands back what
    /// follows it.
    pub fn parse(buffer: &[u8]) -> (r: Result<(VendorSpecificTag, &[u8]), StreetpassError>)
        ensures
            buffer@.len() < 4 ==> r == Err::<(VendorSpecificTag, &[u8]), StreetpassError>(
                StreetpassError::VendorTagTooShort,
            ),
            buffer@.len() >= 4 ==> r is Ok && r->Ok_0.0.oui@ == buffer@.take(3)
                && r->Ok_0.0.oui_type == buffer@[3] && r->Ok_0.1@ == buffer@.skip(4),
    {
        let len = buffer.len();
        if len >= 4 {
            let tag = VendorSpecificTag {
                oui: [buffer[0], buffer[1], buffer[2]],
                oui_type: buffer[3],
            };
            let rest = vstd::slice::slice_subrange(buffer, 4, len);
            assert(tag.oui@ =~= buffer@.take(3));
            assert(rest@ == buffer@.skip(4));
            Ok((tag, rest))
        } else {
            Err(StreetpassError::VendorTagTooShort)
        }
    }

    /// Tells whether the element is the StreetPass tag of Nintendo.
    pub fn is_streetpass(&self) -> (yes: bool)
        ensures
            yes == (self.oui@ == seq![0x00u8, 0x1f, 0x32] && self.oui_type == 1),
    {
        let yes = self.oui[0] == 0x00 && self.oui[1] == 0x1f && self.oui[2] == 0x32
            && self.oui_type == 1;
        assert(yes ==> self.oui@ =~= seq![0x00u8, 0x1f, 0x32]);
        yes
    }
}

/// A service that a console offers.
#[derive(Clone, Copy, Debug, PartialEq, Eq, Structural)]
pub struct StreetpassService {
    pub id: u32,
    pub flags: u8,
}

/// The service that the first five bytes hold.
pub open spec fn spec_service(bytes: Seq<u8>) -> StreetpassService
    recommends
        bytes.len() >= 5,
{
    StreetpassService { id: spec_u32_be(bytes), flags: bytes[4] }
}

/// The five bytes of a service.
pub open spec fn spec_service_bytes(service: StreetpassService) -> Seq<u8> {
    spec_u32_be_bytes(service.id).push(service.flags)
}

/// The services that `bytes` hold, one behind the other. Bytes that are
/// left over and are no whole service are a failure.
pub open spec fn spec_services(bytes: Seq<u8>) -> Result<Seq<StreetpassService>, StreetpassError>
    decreases bytes.len(),
{
    if bytes.len() == 0 {
        Ok(Seq::empty())
    } else if bytes.len() < 5 {
        Err(StreetpassError::ServiceTooShort)
    } else {
        match spec_services(bytes.skip(5)) {
            Ok(rest) => Ok(seq![spec_service(bytes)] + rest),
            Err(e) => Err(e),
        }
    }
}

impl StreetpassService {
    /// Reads one service, and hands back what follows it.
    pub fn parse(buffer: &[u8]) -> (r: Result<(StreetpassService, &[u8]), StreetpassError>)
        ensures
            buffer@.len() < 5 ==> r == Err::<(StreetpassService, &[u8]), StreetpassError>(
                StreetpassError::ServiceTooShort,
            ),
            buffer@.len() >= 5 ==> r is Ok && r->Ok_0.0 == spec_service(buffer@) && r->Ok_0.1@
                == buffer@.skip(5),
    {
        let len = buffer.len();
        if len >= SERVICE_LEN {
            let service = StreetpassService { id: buf_get_u32(buffer), flags: buffer[4] };
            let rest = vstd::slice::slice_subrange(buffer, SERVICE_LEN, len);
            assert(rest@ == buffer@.skip(5));
            Ok((service, rest))
        } else {
            Err(StreetpassError::ServiceTooShort)
        }
    }

    /// Writes the service over the first five bytes of `buffer`, if there
    /// are five.
    pub fn emit(&self, buffer: &mut [u8]) -> (r: Result<(), StreetpassError>)
        ensures
            old(buffer)@.len() < 5 ==> r == Err::<(), StreetpassError>(
                StreetpassError::ServiceNoSpace,
            ) && final(buffer)@ == old(buffer)@,
            old(buffer)@.len() >= 5 ==> r is Ok && final(buffer)@ == spec_service_bytes(*self)
                + old(buffer)@.skip(5),
    {
        if buffer.len() >= SERVICE_LEN {
            let ghost before = buffer@;
            buf_put_u32(buffer, self.id);
            buffer[4] = self.flags;
            assert(buffer@ =~= spec_service_bytes(*self) + before.skip(5));
            Ok(())
        } else {
            Err(StreetpassError::ServiceNoSpace)
        }
    }
}

/// Reads the services that `data` holds, one behind the other.
pub fn parse_services(data: &[u8]) -> (r: Result<Vec<StreetpassService>, StreetpassError>)
    ensures
        match r {
            Ok(services) => spec_services(data@) == Ok::<Seq<StreetpassService>, StreetpassError>(
                services@,
            ),
            Err(e) => spec_services(data@) == Err::<Seq<StreetpassService>, StreetpassError>(e),
        },
{
    let mut services: Vec<StreetpassService> = Vec::new();
    let mut remaining = data;
    while remaining.len() > 0
        invariant
            spec_services(data@) == match spec_services(remaining@) {
                Ok(rest) => Ok::<Seq<StreetpassService>, StreetpassError>(services@ + rest),
                Err(e) => Err(e),
            },
        decreases remaining@.len(),
    {
        match StreetpassService::parse(remaining) {
            Ok((service, rest)) => {
                proof {
                    let ghost behind = spec_services(rest@);
                    if behind is Ok {
                        assert(services@.push(service) + behind->Ok_0 =~= services@ + (
                        seq![service] + behind->Ok_0));
                    }
                }
                services.push(service);
                remaining = rest;
            },
            Err(e) => {
                return Err(e);
            },
        }
    }
    assert(services@ + Seq::<StreetpassService>::empty() =~= services@);
    Ok(services)
}

/// A tag as a value.
pub struct StreetpassTagView {
    pub services: Seq<StreetpassService>,
    pub console_id: u64,
}

/// What the entries of a tag have told so far.
pub struct StreetpassEntries {
    pub services: Option<Seq<StreetpassService>>,
    pub console_id: Option<u64>,
}

/// The data of the entry at the start of `bytes`: as many bytes as its
/// length byte says, or all that are left where they are fewer.
pub open spec fn spec_entry_data(bytes: Seq<u8>) -> Seq<u8>
    recommends
        bytes.len() >= 2,
{
    if 2 + bytes[1] <= bytes.len() {
        bytes.subrange(2, 2 + bytes[1])
    } else {
        bytes.skip(2)
    }
}

/// What is known after the entries in `bytes`, starting from `found`. A
/// later entry of an id replaces an earlier one; an entry of another id,
/// and a console id that is not eight bytes, is passed over; a byte that
/// is left alone at the end is passed over too.
pub open spec fn spec_entries(bytes: Seq<u8>, found: StreetpassEntries) -> Result<
    StreetpassEntries,
    StreetpassError,
>
    decreases bytes.len(),
{
    if bytes.len() < 2 {
        Ok(found)
    } else {
        let data = spec_entry_data(bytes);
        let rest = bytes.skip(2 + data.len() as int);
        if bytes[0] == ENTRY_SERVICES {
            match spec_services(data) {
                Ok(services) => spec_entries(
                    rest,
                    StreetpassEntries { services: Some(services), ..found },
                ),
                Err(e) => Err(e),
            }
        } else if bytes[0] == ENTRY_CONSOLE_ID && data.len() == 8 {
            spec_entries(rest, StreetpassEntries { console_id: Some(spec_u64_be(data)), ..found })
        } else {
            spec_entries(rest, found)
        }
    }
}

/// The tag that `bytes` hold. The id of the console has to be there; where
/// no entry lists services there are none.
pub open spec fn spec_tag(bytes: Seq<u8>) -> Result<StreetpassTagView, StreetpassError> {
    match spec_entries(bytes, StreetpassEntries { services: None, console_id: None }) {
        Err(e) => Err(e),
        Ok(found) => match found.console_id {
            None => Err(StreetpassError::NoConsoleId),
            Some(console_id) => Ok(
                StreetpassTagView {
                    services: match found.services {
                        Some(services) => services,
                        None => Seq::empty(),
                    },
                    console_id,
                },
            ),
        },
    }
}

/// The bytes of some services, one behind the other.
pub open spec fn spec_services_bytes(services: Seq<StreetpassService>) -> Seq<u8>
    decreases services.len(),
{
    if services.len() == 0 {
        Seq::empty()
    } else {
        spec_services_bytes(services.drop_last()) + spec_service_bytes(services.last())
    }
}

/// A tag on the wire: the entry of the services, whose length byte counts
/// the services, and the entry of the id of the console.
pub open spec fn spec_tag_bytes(tag: StreetpassTagView) -> Seq<u8> {
    seq![ENTRY_SERVICES, tag.services.len() as u8] + spec_services_bytes(tag.services)
        + seq![ENTRY_CONSOLE_ID, 8u8] + spec_u64_be_bytes(tag.console_id)
}

/// The StreetPass tag of a console.
#[derive(Debug)]
pub struct StreetpassTag {
    services: Vec<StreetpassService>,
    console_id: u64,
}

impl View for StreetpassTag {
    type V = StreetpassTagView;

    closed spec fn view(&self) -> StreetpassTagView {
        StreetpassTagView { services: self.services@, console_id: self.console_id }
    }
}

impl StreetpassTag {
    /// A tag of the given console with the given services.
    pub fn new(console_id: u64, services: Vec<StreetpassService>) -> (tag: Self)
        ensures
            tag@ == (StreetpassTagView { services: services@, console_id }),
    {
        StreetpassTag { services, console_id }
    }

    /// The id of the console.
    pub fn console_id(&self) -> (console_id: u64)
        ensures
            console_id == self@.console_id,
    {
        self.console_id
    }

    /// The services that the console offers.
    pub fn services(&self) -> (services: &[StreetpassService])
        ensures
            services@ == self@.services,
    {
        self.services.as_slice()
    }

    /// Reads a tag from the entries in `buffer`.
    pub fn parse(buffer: &[u8]) -> (r: Result<StreetpassTag, StreetpassError>)
        ensures
            match r {
                Ok(tag) => spec_tag(buffer@) == Ok::<StreetpassTagView, StreetpassError>(tag@),
                Err(e) => spec_tag(buffer@) == Err::<StreetpassTagView, StreetpassError>(e),
            },
    {
        let mut remaining = buffer;
        let mut services: Option<Vec<StreetpassService>> = None;
        let mut console_id: Option<u64> = None;
        while remaining.len() >= 2
            invariant
                spec_entries(buffer@, StreetpassEntries { services: None, console_id: None })
                    == spec_entries(
                    remaining@,
                    StreetpassEntries {
                        services: match services {
                            Some(list) => Some(list@),
                            None => None,
                        },
                        console_id,
                    },
                ),
            decreases remaining@.len(),
        {
            let id = remaining[0];
            let len = remaining[1] as usize;
            let available = remaining.len() - 2;
            let taken = if len <= available {
                len
            } else {
                available
            };
            let data = vstd::slice::slice_subrange(remaining, 2, 2 + taken);
            assert(data@ == spec_entry_data(remaining@));
            if id == ENTRY_SERVICES {
                match parse_services(data) {
                    Ok(list) => {
                        services = Some(list);
                    },
                    Err(e) => {
                        return Err(e);
                    },
                }
            } else if id == ENTRY_CONSOLE_ID && taken == 8 {
                console_id = Some(buf_get_u64(data));
            }
            let behind = vstd::slice::slice_subrange(remaining, 2 + taken, remaining.len());
            assert(behind@ == remaining@.skip(2 + taken));
            remaining = behind;
        }
        match console_id {
            None => Err(StreetpassError::NoConsoleId),
            Some(console_id) => {
                let services = match services {
                    Some(list) => list,
                    None => Vec::new(),
                };
                Ok(StreetpassTag { services, console_id })
            },
        }
    }

    /// Writes the tag over the start of `buffer` and tells how many bytes
    /// it took.
    ///
    /// A buffer of fewer than twelve bytes is left as it is. Otherwise
    /// writing starts, and stops at what does not fit: at the count of
    /// more than 255 services, or at the first service for which fewer
    /// than five bytes are left.
    pub fn emit(&self, buffer: &mut [u8]) -> (r: Result<usize, StreetpassError>)
        requires
            old(buffer)@.len() >= 12 && old(buffer)@.len() >= 2 + 5 * self@.services.len()
                ==> old(buffer)@.len() >= 12 + 5 * self@.services.len(),
        ensures
            final(buffer)@.len() == old(buffer)@.len(),
            old(buffer)@.len() < 12 ==> r == Err::<usize, StreetpassError>(
                StreetpassError::TagNoSpace,
            ) && final(buffer)@ == old(buffer)@,
            old(buffer)@.len() >= 12 && self@.services.len() > 255 ==> r == Err::<
                usize,
                StreetpassError,
            >(StreetpassError::TooManyServices) && final(buffer)@ == old(buffer)@.update(
                0,
                ENTRY_SERVICES,
            ),
            old(buffer)@.len() >= 12 && self@.services.len() <= 255 && old(buffer)@.len() < 2 + 5
                * self@.services.len() ==> r == Err::<usize, StreetpassError>(
                StreetpassError::ServiceNoSpace,
            ) && final(buffer)@ == seq![ENTRY_SERVICES, self@.services.len() as u8]
                + spec_services_bytes(self@.services.take((old(buffer)@.len() - 2) / 5)) + old(
                buffer,
            )@.skip(2 + 5 * ((old(buffer)@.len() - 2) / 5)),
            old(buffer)@.len() >= 12 && self@.services.len() <= 255 && old(buffer)@.len() >= 2 + 5
                * self@.services.len() ==> r == Ok::<usize, StreetpassError>(
                (12 + 5 * self@.services.len()) as usize,
            ) && final(buffer)@ == spec_tag_bytes(self@) + old(buffer)@.skip(
                12 + 5 * self@.services.len() as int,
            ),
    {
        let ghost before = buffer@;
        let len = buffer.len();
        if len < 12 {
            return Err(StreetpassError::TagNoSpace);
        }
        buffer[0] = ENTRY_SERVICES;
        let count = self.services.len();
        if count > 255 {
            return Err(StreetpassError::TooManyServices);
        }
        buffer[1] = count as u8;
        let ghost head = seq![ENTRY_SERVICES, count as u8];
        assert(buffer@ =~= head + before.skip(2));
        assert(spec_services_bytes(self@.services.take(0)) =~= Seq::<u8>::empty());
        let mut offset: usize = 2;
        let mut i: usize = 0;
        while i < count
            invariant
                i <= count,
                count == self@.services.len(),
                count <= 255,
                offset == 2 + 5 * i,
                offset <= len,
                len == before.len(),
                len >= 12,
                before == old(buffer)@,
                buffer@.len() == len,
                head == seq![ENTRY_SERVICES, count as u8],
                buffer@ == head + spec_services_bytes(self@.services.take(i as int)) + before.skip(
                    offset as int,
                ),
                spec_services_bytes(self@.services.take(i as int)).len() == 5 * i,
            decreases count - i,
        {
            let ghost current = buffer@;
            let ghost written = spec_services_bytes(self@.services.take(i as int));
            let (front, tail) = buffer.split_at_mut(offset);
            match self.services[i].emit(tail) {
                Ok(()) => {},
                Err(e) => {
                    assert(front@ + tail@ =~= current);
                    assert(i == (len - 2) / 5);
                    return Err(e);
                },
            }
            proof {
                let next = self@.services.take(i + 1);
                assert(next.drop_last() =~= self@.services.take(i as int));
                assert(next.last() == self@.services[i as int]);
                assert(front@ =~= head + written);
                assert(front@ + tail@ =~= head + spec_services_bytes(next) + before.skip(
                    offset + 5,
                ));
            }
            offset += 5;
            i += 1;
        }
        assert(self@.services.take(count as int) =~= self@.services);
        buffer[offset] = ENTRY_CONSOLE_ID;
        buffer[offset + 1] = 8;
        let ghost current = buffer@;
        let (front, tail) = buffer.split_at_mut(offset + 2);
        buf_put_u64(tail, self.console_id);
        assert(front@ + tail@ =~= spec_tag_bytes(self@) + before.skip(offset + 10));
        Ok(offset + 10)
    }
}

/// A tagged parameter of a management frame: its tag and its data.
#[derive(Clone, Debug, PartialEq, Eq)]
pub struct TaggedParameter {
    pub tag: u8,
    pub data: Vec<u8>,
}

/// What the vendor-specific parameter with the given data tells: the tag
/// of a console, a failure, or nothing where the element is not the
/// StreetPass tag.
pub open spec fn spec_vendor_element(data: Seq<u8>) -> Result<
    Option<StreetpassTagView>,
    StreetpassError,
> {
    if data.len() < 4 {
        Err(StreetpassError::VendorTagTooShort)
    } else if data.take(3) == seq![0x00u8, 0x1f, 0x32] && data[3] == 1 {
        match spec_tag(data.skip(4)) {
            Ok(tag) => Ok(Some(tag)),
            Err(e) => Err(e),
        }
    } else {
        Ok(None)
    }
}

/// What the parameters of a probe request tell: the first vendor-specific
/// parameter that is a StreetPass tag or is broken decides.
pub open spec fn spec_probe_request(parameters: Seq<TaggedParameter>) -> Result<
    Option<StreetpassTagView>,
    StreetpassError,
>
    decreases parameters.len(),
{
    if parameters.len() == 0 {
        Ok(None)
    } else if parameters[0].tag == VENDOR_SPECIFIC {
        match spec_vendor_element(parameters[0].data@) {
            Ok(None) => spec_probe_request(parameters.drop_first()),
            decided => decided,
        }
    } else {
        spec_probe_request(parameters.drop_first())
    }
}

/// Looks for the StreetPass tag among the tagged parameters of a probe
/// request. `None` for the parameters stands for a frame that has none.
pub fn parse_probe_request(parameters: Option<&[TaggedParameter]>) -> (r: Result<
    Option<StreetpassTag>,
    StreetpassError,
>)
    ensures
        parameters is None ==> r == Err::<Option<StreetpassTag>, StreetpassError>(
            StreetpassError::NoParameters,
        ),
        parameters is Some ==> match r {
            Ok(Some(tag)) => spec_probe_request(parameters->Some_0@) == Ok::<
                Option<StreetpassTagView>,
                StreetpassError,
            >(Some(tag@)),
            Ok(None) => spec_probe_request(parameters->Some_0@) == Ok::<
                Option<StreetpassTagView>,
                StreetpassError,
            >(None),
            Err(e) => spec_probe_request(parameters->Some_0@) == Err::<
                Option<StreetpassTagView>,
                StreetpassError,
            >(e),
        },
{
    let list = match parameters {
        Some(list) => list,
        None => {
            return Err(StreetpassError::NoParameters);
        },
    };
    assert(list@.skip(0) =~= list@);
    let mut i: usize = 0;
    while i < list.len()
        invariant
            i <= list@.len(),
            parameters == Some(list),
            spec_probe_request(list@) == spec_probe_request(list@.skip(i as int)),
        decreases list@.len() - i,
    {
        let parameter = &list[i];
        assert(list@.skip(i as int)[0] == list@[i as int]);
        assert(list@.skip(i as int).drop_first() =~= list@.skip(i + 1));
        if parameter.tag == VENDOR_SPECIFIC {
            match VendorSpecificTag::parse(parameter.data.as_slice()) {
                Err(e) => {
                    return Err(e);
                },
                Ok((vendor, rest)) => {
                    if vendor.is_streetpass() {
                        return match StreetpassTag::parse(rest) {
                            Ok(tag) => Ok(Some(tag)),
                            Err(e) => Err(e),
                        };
                    }
                },
            }
        }
        i += 1;
    }
    Ok(None)
}


} // verus!

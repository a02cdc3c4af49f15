use genetlink::controller::{has_header, ControlMessage, FamilyName, NewFamily, GENL_ID_CTRL};
use genetlink::endian::{native_order, Endianness};
use genetlink::error::{DecodeFailure, RecordKind};
use genetlink::genl::GenericBuffer;
use genetlink::nl80211::{
    InterfaceIndex, Nl80221Family, Nl80221Message, Nl80221TaggedMessage, Resolution,
};

fn le_attribute(tag: u16, value: &[u8]) -> Vec<u8> {
    let mut bytes = Vec::new();
    bytes.extend_from_slice(&((value.len() + 4) as u16).to_le_bytes());
    bytes.extend_from_slice(&tag.to_le_bytes());
    bytes.extend_from_slice(value);
    while bytes.len() % 4 != 0 {
        bytes.push(0);
    }
    bytes
}

fn ne_attribute(tag: u16, value: &[u8]) -> Vec<u8> {
    let mut bytes = Vec::new();
    bytes.extend_from_slice(&((value.len() + 4) as u16).to_ne_bytes());
    bytes.extend_from_slice(&tag.to_ne_bytes());
    bytes.extend_from_slice(value);
    while bytes.len() % 4 != 0 {
        bytes.push(0);
    }
    bytes
}

fn le_family_payload() -> Vec<u8> {
    let mut payload = vec![1u8, 2, 0, 0];
    payload.extend(le_attribute(2, b"nl80211\0"));
    payload.extend(le_attribute(1, &0x13u16.to_le_bytes()));
    payload.extend(le_attribute(3, &1u32.to_le_bytes()));
    payload.extend(le_attribute(4, &0u32.to_le_bytes()));
    payload.extend(le_attribute(5, &0u32.to_le_bytes()));
    payload.extend(le_attribute(6, &[]));
    payload.extend(le_attribute(7, &[]));
    payload
}

fn ne_family_payload() -> Vec<u8> {
    let mut payload = vec![1u8, 2, 0, 0];
    payload.extend(ne_attribute(2, b"nl80211\0"));
    payload.extend(ne_attribute(1, &0x13u16.to_ne_bytes()));
    payload.extend(ne_attribute(3, &1u32.to_ne_bytes()));
    payload.extend(ne_attribute(4, &0u32.to_ne_bytes()));
    payload.extend(ne_attribute(5, &0u32.to_ne_bytes()));
    payload.extend(ne_attribute(6, &[]));
    payload.extend(ne_attribute(7, &[]));
    payload
}

fn le_family() -> NewFamily {
    match ControlMessage::deserialize(Endianness::Little, 0x10, &le_family_payload()).unwrap() {
        ControlMessage::NewFamily(family) => family,
        other => panic!("not a family: {:?}", other),
    }
}

#[test]
fn generic_buffer_reads_the_header() {
    let payload = [3u8, 1, 0, 0, 9, 9];
    let buffer = GenericBuffer::new(&payload[..]);
    assert_eq!(buffer.length(), 6);
    assert_eq!(buffer.command(), 3);
    assert_eq!(buffer.version(), 1);
    assert_eq!(buffer.attributes(), &[9, 9]);
    assert_eq!(buffer.inner(), &payload);
}

#[test]
fn checked_generic_buffer_holds_the_header() {
    for len in 0usize..4 {
        let short = vec![1u8; len];
        assert_eq!(
            GenericBuffer::new_checked(&short[..]).err(),
            Some(DecodeFailure::Truncated { needed: 4, available: len })
        );
    }
    let header_only = [1u8, 2, 0, 0];
    let buffer = GenericBuffer::new_checked(&header_only[..]).unwrap();
    assert_eq!(buffer.length(), 4);
    assert_eq!(buffer.command(), 1);
    assert_eq!(buffer.version(), 2);
    assert_eq!(buffer.attributes().len(), 0);
    let longer = [3u8, 1, 0, 0, 9];
    let buffer = GenericBuffer::new_checked(&longer[..]).unwrap();
    assert_eq!(buffer.inner(), &longer);
}

#[test]
fn unchecked_generic_buffer_takes_every_buffer() {
    let empty: [u8; 0] = [];
    let buffer = GenericBuffer::new(&empty[..]);
    assert_eq!(buffer.length(), 0);
    assert_eq!(buffer.inner().len(), 0);
}

#[test]
fn generic_buffer_hands_out_its_bytes_for_writing() {
    let mut payload = [0u8; 4];
    {
        let mut buffer = GenericBuffer::new(&mut payload[..]);
        buffer.inner_mut()[0] = 3;
        buffer.inner_mut()[1] = 1;
    }
    assert_eq!(payload, [3, 1, 0, 0]);
}

#[test]
fn get_family_is_framed() {
    let message = ControlMessage::GetFamily(FamilyName::new("nl80211"));
    assert!(message.can_emit());
    assert_eq!(message.message_type(), 0x10);
    assert_eq!(message.message_type(), GENL_ID_CTRL);
    assert_eq!(message.command(), 3);
    assert_eq!(message.version(), 1);
    assert_eq!(message.attribute_size(), 12);
    assert_eq!(message.buffer_len(), 16);
    let mut buffer = vec![0xeeu8; message.buffer_len()];
    message.serialize(Endianness::Little, &mut buffer);
    assert_eq!(
        buffer,
        [3, 1, 0, 0, 11, 0, 2, 0, b'n', b'l', b'8', b'0', b'2', b'1', b'1', 0xee]
    );
    let mut buffer = vec![0u8; message.buffer_len()];
    message.serialize(Endianness::Big, &mut buffer);
    assert_eq!(buffer, [3, 1, 0, 0, 0, 11, 0, 2, b'n', b'l', b'8', b'0', b'2', b'1', b'1', 0]);
}

#[test]
fn get_family_attributes_are_emitted() {
    let message = ControlMessage::GetFamily(FamilyName::new("ab"));
    let mut buffer = [0x77u8; 8];
    message.emit_attributes(Endianness::Little, &mut buffer);
    assert_eq!(buffer, [6, 0, 2, 0, b'a', b'b', 0x77, 0x77]);
}

#[test]
fn new_family_is_read_from_its_payload() {
    let family = le_family();
    assert_eq!(u16::from(family.id().clone()), 0x13);
    assert_eq!(String::from(family.name().clone()), "nl80211");
    assert_eq!(u32::from(family.version().clone()), 1);
    assert_eq!(u32::from(family.header_size().clone()), 0);
    assert_eq!(u32::from(family.max_attributes().clone()), 0);
    assert_eq!(family.operations().operations().len(), 0);
    assert_eq!(family.multicast_groups().groups().len(), 0);
}

#[test]
fn new_family_is_an_answer_only() {
    let message = ControlMessage::NewFamily(le_family());
    assert!(!message.can_emit());
    assert_eq!(message.command(), 1);
    assert_eq!(message.version(), 2);
    assert_eq!(message.message_type(), 0x10);
    assert_eq!(message.attribute_size(), 8 + 12);
    assert_eq!(message.buffer_len(), 4 + 8 + 12);
}

#[test]
fn parse_with_param_reads_from_a_generic_buffer() {
    let payload = le_family_payload();
    let buffer = GenericBuffer::new(&payload[..]);
    let message = ControlMessage::parse_with_param(Endianness::Little, &buffer, 0x10).unwrap();
    assert_eq!(message, ControlMessage::NewFamily(le_family()));
}

#[test]
fn unknown_message_type_is_rejected() {
    let payload = le_family_payload();
    assert_eq!(
        ControlMessage::deserialize(Endianness::Little, 0x11, &payload).unwrap_err(),
        DecodeFailure::UnknownMessageType { message_type: 0x11 }
    );
    assert_eq!(
        ControlMessage::deserialize(Endianness::Little, 0x13, &[0, 0, 0, 0]).unwrap_err(),
        DecodeFailure::UnknownMessageType { message_type: 0x13 }
    );
}

#[test]
fn payload_shorter_than_the_header_is_truncated() {
    for order in [Endianness::Little, Endianness::Big] {
        for message_type in [0x10u16, 0x11, 0x13] {
            for command in [0u8, 1, 3] {
                for len in 0usize..4 {
                    let payload = vec![command; len];
                    let e = ControlMessage::deserialize(order, message_type, &payload)
                        .unwrap_err();
                    assert_eq!(e, DecodeFailure::Truncated { needed: 4, available: len });
                    assert!(e.is_truncation());
                }
            }
        }
    }
    assert_eq!(
        ControlMessage::deserialize(Endianness::Little, 0x10, &[1, 2, 0]).unwrap_err(),
        DecodeFailure::Truncated { needed: 4, available: 3 }
    );
}

#[test]
fn parse_with_param_decides_on_an_unchecked_buffer() {
    let only_command = [3u8];
    let buffer = GenericBuffer::new(&only_command[..]);
    assert!(has_header(0x10, &only_command));
    assert_eq!(
        ControlMessage::parse_with_param(Endianness::Big, &buffer, 0x10).unwrap_err(),
        DecodeFailure::UnsupportedCommand { command: 3 }
    );
    let nothing: [u8; 0] = [];
    let buffer = GenericBuffer::new(&nothing[..]);
    assert!(has_header(0x22, &nothing));
    assert_eq!(
        ControlMessage::parse_with_param(Endianness::Big, &buffer, 0x22).unwrap_err(),
        DecodeFailure::UnknownMessageType { message_type: 0x22 }
    );
}

#[test]
fn unknown_command_is_rejected() {
    for command in [0u8, 2, 3, 4, 9, 0xff] {
        let payload = [command, 1, 0, 0];
        assert_eq!(
            ControlMessage::deserialize(Endianness::Little, 0x10, &payload).unwrap_err(),
            DecodeFailure::UnsupportedCommand { command }
        );
    }
    assert_eq!(
        ControlMessage::deserialize(Endianness::Big, 0x10, &[3, 0, 0, 0, 0, 4, 0, 9]).unwrap_err(),
        DecodeFailure::UnsupportedCommand { command: 3 }
    );
}

#[test]
fn broken_body_is_rejected() {
    let mut payload = le_family_payload();
    payload.truncate(payload.len() - 2);
    assert_eq!(
        ControlMessage::deserialize(Endianness::Little, 0x10, &payload).unwrap_err(),
        DecodeFailure::Truncated { needed: 4, available: 2 }
    );
    assert_eq!(
        ControlMessage::deserialize(Endianness::Little, 0x10, &[1, 2, 0, 0]).unwrap_err(),
        DecodeFailure::MissingField { record: RecordKind::NewFamily, tag: 2 }
    );
}

#[test]
fn interface_index_comes_from_a_lookup() {
    assert_eq!(InterfaceIndex::from_lookup(0), None);
    assert_eq!(InterfaceIndex::from_lookup(13), Some(InterfaceIndex(13)));
}

#[test]
fn get_interface_is_framed() {
    let message = Nl80221Message::GetInterface(InterfaceIndex(13));
    assert_eq!(message.command(), 5);
    assert_eq!(message.version(), 0);
    assert_eq!(message.attribute_size(), 8);
    let mut buffer = [0u8; 8];
    message.emit_attributes(Endianness::Big, &mut buffer);
    assert_eq!(buffer, [0, 8, 0, 3, 0, 0, 0, 13]);
}

#[test]
fn resolution_end_to_end() {
    let order = Endianness::Little;
    let request = Resolution::request("nl80211");
    assert_eq!(request, ControlMessage::GetFamily(FamilyName::new("nl80211")));
    assert_eq!(request.message_type(), 0x10);

    let state = Resolution::Unresolved.receive(order, 0x10, &le_family_payload());
    let family: Nl80221Family = match state {
        Resolution::Resolved(family) => family,
        Resolution::Unresolved => panic!("not resolved"),
    };
    assert_eq!(u16::from(family.family.id().clone()), 0x13);

    let tagged: Nl80221TaggedMessage =
        family.tag_message(Nl80221Message::GetInterface(InterfaceIndex(13)));
    assert_eq!(tagged.message_type(), 0x13);
    assert_eq!(tagged.message, Nl80221Message::GetInterface(InterfaceIndex(13)));
    assert_eq!(tagged.message(), &Nl80221Message::GetInterface(InterfaceIndex(13)));
    assert_eq!(tagged.buffer_len(), 12);
    let mut buffer = vec![0u8; tagged.buffer_len()];
    tagged.serialize(order, &mut buffer);
    assert_eq!(buffer, [5, 0, 0, 0, 8, 0, 3, 0, 13, 0, 0, 0]);
}

#[test]
fn resolution_end_to_end_in_native_order() {
    let order = native_order();
    let state = Resolution::Unresolved.receive(order, 0x10, &ne_family_payload());
    let family = match state {
        Resolution::Resolved(family) => family,
        Resolution::Unresolved => panic!("not resolved"),
    };
    let tagged = family.tag_message(Nl80221Message::GetInterface(InterfaceIndex(13)));
    assert_eq!(tagged.message_type(), 0x13);
    let mut buffer = vec![0u8; tagged.buffer_len()];
    tagged.serialize(order, &mut buffer);
    let mut expected = vec![5u8, 0, 0, 0];
    expected.extend(ne_attribute(3, &13u32.to_ne_bytes()));
    assert_eq!(buffer, expected);
}

#[test]
fn malformed_answer_leaves_the_resolution_open() {
    let order = Endianness::Little;
    let mut broken = le_family_payload();
    broken.truncate(20);
    assert!(matches!(
        Resolution::Unresolved.receive(order, 0x10, &broken),
        Resolution::Unresolved
    ));
    assert!(matches!(
        Resolution::Unresolved.receive(order, 0x10, &[3, 1, 0, 0]),
        Resolution::Unresolved
    ));
    assert!(matches!(
        Resolution::Unresolved.receive(order, 0x22, &le_family_payload()),
        Resolution::Unresolved
    ));
    for len in 0usize..4 {
        assert!(matches!(
            Resolution::Unresolved.receive(order, 0x10, &le_family_payload()[..len]),
            Resolution::Unresolved
        ));
    }
}

#[test]
fn cut_short_answer_leaves_a_resolved_family() {
    let order = Endianness::Little;
    let resolved = Resolution::Unresolved.receive(order, 0x10, &le_family_payload());
    match resolved.receive(order, 0x10, &[1, 2]) {
        Resolution::Resolved(family) => assert_eq!(u16::from(family.family.id().clone()), 0x13),
        Resolution::Unresolved => panic!("the family was lost"),
    }
}

#[test]
fn family_made_by_hand_tags_with_its_id() {
    let family = Nl80221Family::new(le_family());
    let tagged = family.tag_message(Nl80221Message::GetInterface(InterfaceIndex(1)));
    assert_eq!(tagged.message_type(), 0x13);
}

#[test]
fn has_header_tells_what_can_be_read() {
    assert!(has_header(0x11, &[]));
    assert!(!has_header(0x10, &[]));
    assert!(has_header(0x10, &[3]));
    assert!(!has_header(0x10, &[1]));
    assert!(!has_header(0x10, &[1, 2, 0]));
    assert!(has_header(0x10, &[1, 2, 0, 0]));
}

#[test]
fn generic_buffer_for_writing_knows_its_length() {
    let mut payload = [0u8; 7];
    let buffer = GenericBuffer::new(&mut payload[..]);
    assert_eq!(buffer.length(), 7);
}

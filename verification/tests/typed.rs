use genetlink::attribute::{Attribute, Attributes};
use genetlink::controller::{
    FamilyId, FamilyName, HeaderSize, MaxAttributes, MulticastGroupId, MulticastGroupName,
    OperationFlags, OperationId, Version,
};
use genetlink::endian::{native_order, Endianness};
use genetlink::error::DecodeFailure;
use genetlink::nl80211::{InterfaceIndex, InterfaceName};
use genetlink::typed::{
    buffer_len_all, emit_all, emit_string, parse_string, parse_u16, parse_u32, TypedAttribute,
};

fn both_orders() -> [Endianness; 2] {
    [Endianness::Little, Endianness::Big]
}

fn emitted<T: TypedAttribute>(order: Endianness, attribute: &T) -> Vec<u8> {
    let mut buffer = vec![0xeeu8; attribute.buffer_len()];
    attribute.emit(order, &mut buffer);
    buffer
}

fn read_back<T: TypedAttribute>(order: Endianness, attribute: &T) -> T {
    let buffer = emitted(order, attribute);
    let found = Attribute::parse(order, &buffer).unwrap();
    assert_eq!(found.kind, attribute.kind());
    T::parse(order, &found).unwrap()
}

#[test]
fn family_id_round_trips() {
    for order in both_orders() {
        for v in [0u16, 1, 0x13, 0x1234, 0xffff] {
            assert_eq!(read_back(order, &FamilyId(v)), FamilyId(v));
        }
    }
}

#[test]
fn u32_attributes_round_trip() {
    for order in both_orders() {
        for v in [0u32, 1, 13, 0x12345678, 0xffff_ffff] {
            assert_eq!(read_back(order, &Version(v)), Version(v));
            assert_eq!(read_back(order, &HeaderSize(v)), HeaderSize(v));
            assert_eq!(read_back(order, &MaxAttributes(v)), MaxAttributes(v));
            assert_eq!(read_back(order, &OperationId(v)), OperationId(v));
            assert_eq!(read_back(order, &OperationFlags(v)), OperationFlags(v));
            assert_eq!(read_back(order, &MulticastGroupId(v)), MulticastGroupId(v));
            assert_eq!(read_back(order, &InterfaceIndex(v)), InterfaceIndex(v));
        }
    }
}

#[test]
fn string_attributes_round_trip() {
    for order in both_orders() {
        for s in ["", "a", "nl80211", "config", "scan", "gr\u{fc}\u{df}e", "12345678"] {
            assert_eq!(read_back(order, &FamilyName::new(s)), FamilyName::new(s));
            assert_eq!(
                read_back(order, &MulticastGroupName(s.to_string())),
                MulticastGroupName(s.to_string())
            );
            assert_eq!(
                read_back(order, &InterfaceName(s.to_string())),
                InterfaceName(s.to_string())
            );
        }
    }
}

#[test]
fn tags_are_those_of_the_kernel() {
    assert_eq!(FamilyId(0).kind(), 1);
    assert_eq!(FamilyName::new("").kind(), 2);
    assert_eq!(Version(0).kind(), 3);
    assert_eq!(HeaderSize(0).kind(), 4);
    assert_eq!(MaxAttributes(0).kind(), 5);
    assert_eq!(OperationId(0).kind(), 1);
    assert_eq!(OperationFlags(0).kind(), 2);
    assert_eq!(MulticastGroupName(String::new()).kind(), 1);
    assert_eq!(MulticastGroupId(0).kind(), 2);
    assert_eq!(InterfaceIndex(0).kind(), 3);
    assert_eq!(InterfaceName(String::new()).kind(), 4);
}

#[test]
fn value_lengths_are_the_widths() {
    assert_eq!(FamilyId(7).value_len(), 2);
    assert_eq!(Version(7).value_len(), 4);
    assert_eq!(InterfaceIndex(7).value_len(), 4);
    assert_eq!(FamilyName::new("nl80211").value_len(), 7);
    assert_eq!(FamilyName::new("").value_len(), 0);
    assert_eq!(InterfaceName("gr\u{fc}n".to_string()).value_len(), 5);
}

#[test]
fn buffer_lengths_are_padded() {
    assert_eq!(FamilyId(7).buffer_len(), 8);
    assert_eq!(Version(7).buffer_len(), 8);
    assert_eq!(FamilyName::new("").buffer_len(), 4);
    assert_eq!(FamilyName::new("a").buffer_len(), 8);
    assert_eq!(FamilyName::new("abcd").buffer_len(), 8);
    assert_eq!(FamilyName::new("abcde").buffer_len(), 12);
    assert_eq!(FamilyName::new("nl80211").buffer_len(), 12);
    assert_eq!(FamilyName::new("12345678").buffer_len(), 12);
}

#[test]
fn emitted_family_id_is_bit_exact() {
    assert_eq!(emitted(Endianness::Little, &FamilyId(0x13)), [6, 0, 1, 0, 0x13, 0, 0xee, 0xee]);
    assert_eq!(emitted(Endianness::Big, &FamilyId(0x13)), [0, 6, 0, 1, 0, 0x13, 0xee, 0xee]);
}

#[test]
fn emitted_interface_index_is_bit_exact() {
    assert_eq!(emitted(Endianness::Little, &InterfaceIndex(13)), [8, 0, 3, 0, 13, 0, 0, 0]);
    assert_eq!(emitted(Endianness::Big, &InterfaceIndex(13)), [0, 8, 0, 3, 0, 0, 0, 13]);
}

#[test]
fn emitted_name_has_no_terminator_and_keeps_the_padding() {
    let bytes = emitted(Endianness::Little, &FamilyName::new("nl80211"));
    assert_eq!(bytes, [11, 0, 2, 0, b'n', b'l', b'8', b'0', b'2', b'1', b'1', 0xee]);
}

#[test]
fn emitted_in_native_order_is_what_the_machine_holds() {
    let bytes = emitted(native_order(), &Version(0x01020304));
    let mut expected = Vec::new();
    expected.extend_from_slice(&8u16.to_ne_bytes());
    expected.extend_from_slice(&3u16.to_ne_bytes());
    expected.extend_from_slice(&0x01020304u32.to_ne_bytes());
    assert_eq!(bytes, expected);
}

#[test]
fn emit_leaves_what_follows() {
    let mut buffer = [0x55u8; 12];
    FamilyId(0x0102).emit(Endianness::Big, &mut buffer);
    assert_eq!(buffer, [0, 6, 0, 1, 1, 2, 0x55, 0x55, 0x55, 0x55, 0x55, 0x55]);
}

#[test]
fn emit_value_writes_only_the_value() {
    let mut buffer = [0x55u8; 6];
    Version(0xa1b2c3d4).emit_value(Endianness::Big, &mut buffer);
    assert_eq!(buffer, [0xa1, 0xb2, 0xc3, 0xd4, 0x55, 0x55]);
    InterfaceName("wlan0".to_string()).emit_value(Endianness::Big, &mut buffer);
    assert_eq!(buffer, [b'w', b'l', b'a', b'n', b'0', 0x55]);
}

#[test]
fn emit_string_copies_the_bytes() {
    let mut buffer = [0u8; 4];
    emit_string(&mut buffer, "ab");
    assert_eq!(buffer, [b'a', b'b', 0, 0]);
    emit_string(&mut buffer, "");
    assert_eq!(buffer, [b'a', b'b', 0, 0]);
}

#[test]
fn integer_of_wrong_width_is_invalid() {
    for order in both_orders() {
        assert_eq!(parse_u16(order, 1, &[1]), Err(DecodeFailure::InvalidValue { kind: 1 }));
        assert_eq!(parse_u16(order, 1, &[1, 2, 3]), Err(DecodeFailure::InvalidValue { kind: 1 }));
        assert_eq!(parse_u16(order, 9, &[]), Err(DecodeFailure::InvalidValue { kind: 9 }));
        assert_eq!(parse_u32(order, 3, &[1, 2]), Err(DecodeFailure::InvalidValue { kind: 3 }));
        assert_eq!(
            parse_u32(order, 3, &[1, 2, 3, 4, 5]),
            Err(DecodeFailure::InvalidValue { kind: 3 })
        );
    }
    assert_eq!(parse_u16(Endianness::Little, 1, &[0x13, 0]), Ok(0x13));
    assert_eq!(parse_u32(Endianness::Big, 1, &[0, 0, 1, 2]), Ok(0x0102));
}

#[test]
fn text_where_an_integer_is_due_is_invalid() {
    let bytes = [11u8, 0, 1, 0, b'n', b'l', b'8', b'0', b'2', b'1', b'1', 0];
    let found = Attribute::parse(Endianness::Little, &bytes).unwrap();
    assert_eq!(
        FamilyId::parse(Endianness::Little, &found).unwrap_err(),
        DecodeFailure::InvalidValue { kind: 1 }
    );
    assert_eq!(
        Version::parse(Endianness::Little, &found).unwrap_err(),
        DecodeFailure::InvalidValue { kind: 1 }
    );
}

#[test]
fn string_drops_one_terminator() {
    assert_eq!(parse_string(2, b"nl80211\0").unwrap(), "nl80211");
    assert_eq!(parse_string(2, b"nl80211").unwrap(), "nl80211");
    assert_eq!(parse_string(2, b"nl\0\0").unwrap(), "nl\0");
    assert_eq!(parse_string(2, b"\0").unwrap(), "");
    assert_eq!(parse_string(2, b"").unwrap(), "");
    assert_eq!(parse_string(2, b"a\0b").unwrap(), "a\0b");
}

#[test]
fn string_that_is_no_utf8_is_invalid() {
    assert_eq!(parse_string(2, &[0xff, 0xfe]), Err(DecodeFailure::InvalidValue { kind: 2 }));
    assert_eq!(parse_string(4, &[b'a', 0xc3]), Err(DecodeFailure::InvalidValue { kind: 4 }));
    assert_eq!(parse_string(4, &[b'a', 0xc3, 0]), Err(DecodeFailure::InvalidValue { kind: 4 }));
    assert_eq!(parse_string(4, &[0xc3, 0xbc]).unwrap(), "\u{fc}");
}

#[test]
fn conversions_keep_the_value() {
    assert_eq!(FamilyId::from(0x13u16), FamilyId(0x13));
    assert_eq!(u16::from(FamilyId(0x13)), 0x13);
    assert_eq!(u32::from(Version::from(7u32)), 7);
    assert_eq!(u32::from(InterfaceIndex::from(13u32)), 13);
    assert_eq!(String::from(FamilyName::from("nl80211".to_string())), "nl80211");
    assert_eq!(FamilyName::new("nl80211"), FamilyName("nl80211".to_string()));
    assert_eq!(FamilyName::from(String::from("x")), FamilyName("x".to_string()));
    assert_eq!(FamilyId::default(), FamilyId(0));
    assert_eq!(FamilyName::default(), FamilyName(String::new()));
}

#[test]
fn siblings_are_emitted_at_multiples_of_four() {
    let names = [FamilyName::new("a"), FamilyName::new("nl80211"), FamilyName::new("")];
    assert_eq!(buffer_len_all(&names), 8 + 12 + 4);
    let mut buffer = vec![0xeeu8; 26];
    emit_all(&names, Endianness::Little, &mut buffer);
    assert_eq!(
        buffer,
        [
            5, 0, 2, 0, b'a', 0xee, 0xee, 0xee, 11, 0, 2, 0, b'n', b'l', b'8', b'0', b'2', b'1',
            b'1', 0xee, 4, 0, 2, 0, 0xee, 0xee
        ]
    );
    let none: [FamilyId; 0] = [];
    assert_eq!(buffer_len_all(&none), 0);
    emit_all(&none, Endianness::Big, &mut buffer[..0]);
}

#[test]
fn siblings_round_trip() {
    for order in both_orders() {
        for n in [0usize, 1, 5] {
            let written: Vec<Version> = (0..n).map(|i| Version(0x0101_0101 * i as u32)).collect();
            let mut buffer = vec![0u8; buffer_len_all(&written)];
            emit_all(&written, order, &mut buffer);
            let mut walk = Attributes::new(order, &buffer);
            let mut found = Vec::new();
            while let Some(item) = walk.next() {
                found.push(Version::parse(order, &item.unwrap()).unwrap());
            }
            assert_eq!(found, written);
        }
        let names: Vec<InterfaceName> =
            ["wlan0", "", "eth10", "lo", "a"].iter().map(|s| InterfaceName(s.to_string())).collect();
        let mut buffer = vec![0xffu8; buffer_len_all(&names)];
        emit_all(&names, order, &mut buffer);
        let mut walk = Attributes::new(order, &buffer);
        let mut found = Vec::new();
        while let Some(item) = walk.next() {
            found.push(InterfaceName::parse(order, &item.unwrap()).unwrap());
        }
        assert_eq!(found, names);
    }
}

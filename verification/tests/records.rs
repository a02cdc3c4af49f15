use genetlink::attribute::Attribute;
use genetlink::controller::{
    MulticastGroup, MulticastGroupId, MulticastGroupList, MulticastGroupName, NewFamily,
    Operation, OperationFlags, OperationId, OperationList,
};
use genetlink::endian::{native_order, Endianness};
use genetlink::error::{DecodeFailure, RecordKind};
use genetlink::typed::TypedAttribute;

fn orders() -> [Endianness; 2] {
    [Endianness::Little, Endianness::Big]
}

fn raw_u16(order: Endianness, value: u16) -> [u8; 2] {
    match order {
        Endianness::Little => value.to_le_bytes(),
        Endianness::Big => value.to_be_bytes(),
    }
}

fn raw_u32(order: Endianness, value: u32) -> [u8; 4] {
    match order {
        Endianness::Little => value.to_le_bytes(),
        Endianness::Big => value.to_be_bytes(),
    }
}

fn raw_attribute(order: Endianness, tag: u16, value: &[u8]) -> Vec<u8> {
    let mut bytes = Vec::new();
    bytes.extend_from_slice(&raw_u16(order, (value.len() + 4) as u16));
    bytes.extend_from_slice(&raw_u16(order, tag));
    bytes.extend_from_slice(value);
    while bytes.len() % 4 != 0 {
        bytes.push(0);
    }
    bytes
}

fn raw_operation(order: Endianness, id: u32, flags: u32) -> Vec<u8> {
    let mut bytes = raw_attribute(order, 1, &raw_u32(order, id));
    bytes.extend(raw_attribute(order, 2, &raw_u32(order, flags)));
    bytes
}

fn raw_group(order: Endianness, id: u32, name: &str) -> Vec<u8> {
    let mut text = name.as_bytes().to_vec();
    text.push(0);
    let mut bytes = raw_attribute(order, 2, &raw_u32(order, id));
    bytes.extend(raw_attribute(order, 1, &text));
    bytes
}

fn raw_list(order: Endianness, tag: u16, items: &[Vec<u8>]) -> Vec<u8> {
    let mut value = Vec::new();
    for (i, item) in items.iter().enumerate() {
        value.extend(raw_attribute(order, (i + 1) as u16, item));
    }
    raw_attribute(order, tag | 0x8000, &value)
}

fn raw_family(order: Endianness, skip: Option<u16>) -> Vec<u8> {
    let operations = vec![raw_operation(order, 5, 0x0e), raw_operation(order, 6, 0x1a)];
    let groups = vec![raw_group(order, 2, "config"), raw_group(order, 3, "scan")];
    let parts: Vec<(u16, Vec<u8>)> = vec![
        (2, raw_attribute(order, 2, b"nl80211\0")),
        (1, raw_attribute(order, 1, &raw_u16(order, 0x13))),
        (3, raw_attribute(order, 3, &raw_u32(order, 1))),
        (4, raw_attribute(order, 4, &raw_u32(order, 0))),
        (5, raw_attribute(order, 5, &raw_u32(order, 0x12e))),
        (6, raw_list(order, 6, &operations)),
        (7, raw_list(order, 7, &groups)),
    ];
    let mut bytes = Vec::new();
    for (tag, part) in parts {
        if Some(tag) != skip {
            bytes.extend(part);
        }
    }
    bytes
}

fn list_of(order: Endianness, bytes: &[u8]) -> Result<OperationList, DecodeFailure> {
    let holder = Attribute::parse(order, bytes).unwrap();
    OperationList::parse(order, &holder)
}

#[test]
fn operation_is_read_in_either_order_of_its_fields() {
    for order in orders() {
        let op = Operation::parse(order, &raw_operation(order, 5, 0x0e)).unwrap();
        assert_eq!(op.id(), &OperationId(5));
        assert_eq!(op.flags(), &OperationFlags(0x0e));
        let mut swapped = raw_attribute(order, 2, &raw_u32(order, 0x0e));
        swapped.extend(raw_attribute(order, 1, &raw_u32(order, 5)));
        assert_eq!(Operation::parse(order, &swapped).unwrap(), op);
    }
}

#[test]
fn operation_takes_the_later_of_two_values() {
    let order = Endianness::Little;
    let mut bytes = raw_operation(order, 5, 0x0e);
    bytes.extend(raw_attribute(order, 1, &raw_u32(order, 9)));
    let op = Operation::parse(order, &bytes).unwrap();
    assert_eq!(op.id(), &OperationId(9));
    assert_eq!(op.flags(), &OperationFlags(0x0e));
}

#[test]
fn operation_with_unknown_tag_is_rejected() {
    for order in orders() {
        let mut bytes = raw_operation(order, 5, 0x0e);
        bytes.extend(raw_attribute(order, 3, &raw_u32(order, 1)));
        assert_eq!(
            Operation::parse(order, &bytes).unwrap_err(),
            DecodeFailure::UnknownTag { record: RecordKind::Operation, kind: 3 }
        );
        let mut first = raw_attribute(order, 0, &[]);
        first.extend(raw_operation(order, 5, 0x0e));
        assert_eq!(
            Operation::parse(order, &first).unwrap_err(),
            DecodeFailure::UnknownTag { record: RecordKind::Operation, kind: 0 }
        );
    }
}

#[test]
fn operation_without_a_field_is_rejected() {
    let order = Endianness::Big;
    assert_eq!(
        Operation::parse(order, &raw_attribute(order, 2, &raw_u32(order, 1))).unwrap_err(),
        DecodeFailure::MissingField { record: RecordKind::Operation, tag: 1 }
    );
    assert_eq!(
        Operation::parse(order, &raw_attribute(order, 1, &raw_u32(order, 1))).unwrap_err(),
        DecodeFailure::MissingField { record: RecordKind::Operation, tag: 2 }
    );
    assert_eq!(
        Operation::parse(order, &[]).unwrap_err(),
        DecodeFailure::MissingField { record: RecordKind::Operation, tag: 1 }
    );
}

#[test]
fn operation_with_a_value_of_wrong_width_is_rejected() {
    let order = Endianness::Little;
    let mut bytes = raw_attribute(order, 1, &[5, 0]);
    bytes.extend(raw_attribute(order, 2, &raw_u32(order, 1)));
    assert_eq!(
        Operation::parse(order, &bytes).unwrap_err(),
        DecodeFailure::InvalidValue { kind: 1 }
    );
}

#[test]
fn truncated_record_is_rejected() {
    for order in orders() {
        let whole = raw_operation(order, 5, 0x0e);
        for len in 1..whole.len() {
            let r = Operation::parse(order, &whole[..len]);
            if len == 8 {
                assert_eq!(
                    r.unwrap_err(),
                    DecodeFailure::MissingField { record: RecordKind::Operation, tag: 2 }
                );
            } else {
                assert!(r.unwrap_err().is_truncation(), "cut at {}", len);
            }
        }
        assert_eq!(
            Operation::parse(order, &whole[..3]).unwrap_err(),
            DecodeFailure::Truncated { needed: 4, available: 3 }
        );
        assert_eq!(
            Operation::parse(order, &whole[..14]).unwrap_err(),
            DecodeFailure::Truncated { needed: 8, available: 6 }
        );
    }
}

#[test]
fn first_failure_in_the_buffer_wins() {
    let order = Endianness::Little;
    let mut bytes = raw_attribute(order, 9, &[]);
    bytes.extend_from_slice(&[1, 2]);
    assert_eq!(
        Operation::parse(order, &bytes).unwrap_err(),
        DecodeFailure::UnknownTag { record: RecordKind::Operation, kind: 9 }
    );
}

#[test]
fn multicast_group_is_read() {
    for order in orders() {
        let group = MulticastGroup::parse(order, &raw_group(order, 7, "mlme")).unwrap();
        assert_eq!(u32::from(group.id().clone()), 7);
        assert_eq!(String::from(group.name().clone()), "mlme");
    }
}

#[test]
fn multicast_group_reports_the_name_before_the_id() {
    let order = Endianness::Little;
    assert_eq!(
        MulticastGroup::parse(order, &[]).unwrap_err(),
        DecodeFailure::MissingField { record: RecordKind::MulticastGroup, tag: 1 }
    );
    assert_eq!(
        MulticastGroup::parse(order, &raw_attribute(order, 1, b"scan\0")).unwrap_err(),
        DecodeFailure::MissingField { record: RecordKind::MulticastGroup, tag: 2 }
    );
    assert_eq!(
        MulticastGroup::parse(order, &raw_attribute(order, 3, b"scan\0")).unwrap_err(),
        DecodeFailure::UnknownTag { record: RecordKind::MulticastGroup, kind: 3 }
    );
    assert_eq!(
        MulticastGroup::parse(order, &raw_attribute(order, 1, &[0xff, 0xff])).unwrap_err(),
        DecodeFailure::InvalidValue { kind: 1 }
    );
}

#[test]
fn list_of_no_records_round_trips() {
    for order in orders() {
        let list = list_of(order, &raw_list(order, 6, &[])).unwrap();
        assert_eq!(list.operations().len(), 0);
        assert_eq!(list, OperationList::default());
    }
}

#[test]
fn list_of_one_record_round_trips() {
    for order in orders() {
        let list = list_of(order, &raw_list(order, 6, &[raw_operation(order, 5, 0x0e)])).unwrap();
        assert_eq!(list.operations().len(), 1);
        assert_eq!(list.operations()[0].id(), &OperationId(5));
        assert_eq!(list.operations()[0].flags(), &OperationFlags(0x0e));
    }
}

#[test]
fn list_of_five_records_round_trips() {
    for order in orders() {
        let written: Vec<(u32, u32)> =
            vec![(1, 0x0a), (2, 0x1b), (0xffff_ffff, 0), (4, 0xdead_beef), (5, 5)];
        let items: Vec<Vec<u8>> =
            written.iter().map(|(id, flags)| raw_operation(order, *id, *flags)).collect();
        let list = list_of(order, &raw_list(order, 6, &items)).unwrap();
        assert_eq!(list.operations().len(), 5);
        for (i, (id, flags)) in written.iter().enumerate() {
            let expected = Operation::parse(order, &raw_operation(order, *id, *flags)).unwrap();
            assert_eq!(list.operations()[i], expected);
            assert_eq!(list.operations()[i].id(), &OperationId(*id));
            assert_eq!(list.operations()[i].flags(), &OperationFlags(*flags));
        }
    }
}

#[test]
fn list_built_with_the_emitters_round_trips() {
    let order = native_order();
    let written = [(OperationId(1), OperationFlags(2)), (OperationId(3), OperationFlags(4))];
    let mut value = Vec::new();
    for (i, (id, flags)) in written.iter().enumerate() {
        let mut item = vec![0u8; 4 + id.buffer_len() + flags.buffer_len()];
        item[..2].copy_from_slice(&raw_u16(order, 20));
        item[2..4].copy_from_slice(&raw_u16(order, (i + 1) as u16));
        id.emit(order, &mut item[4..]);
        flags.emit(order, &mut item[12..]);
        value.extend(item);
    }
    let list = list_of(order, &raw_attribute(order, 6, &value)).unwrap();
    assert_eq!(list.operations().len(), 2);
    for (i, (id, flags)) in written.iter().enumerate() {
        assert_eq!(list.operations()[i].id(), id);
        assert_eq!(list.operations()[i].flags(), flags);
    }
}

#[test]
fn group_lists_round_trip() {
    for order in orders() {
        for n in [0usize, 1, 5] {
            let names = ["config", "scan", "regulatory", "mlme", "vendor"];
            let items: Vec<Vec<u8>> =
                (0..n).map(|i| raw_group(order, 2 + i as u32, names[i])).collect();
            let bytes = raw_list(order, 7, &items);
            let holder = Attribute::parse(order, &bytes).unwrap();
            let list = MulticastGroupList::parse(order, &holder).unwrap();
            assert_eq!(list.groups().len(), n);
            for i in 0..n {
                assert_eq!(u32::from(list.groups()[i].id().clone()), 2 + i as u32);
                assert_eq!(String::from(list.groups()[i].name().clone()), names[i]);
            }
        }
    }
}

#[test]
fn list_with_a_broken_record_is_rejected() {
    let order = Endianness::Little;
    let items = vec![raw_operation(order, 1, 2), raw_attribute(order, 1, &raw_u32(order, 3))];
    assert_eq!(
        list_of(order, &raw_list(order, 6, &items)).unwrap_err(),
        DecodeFailure::MissingField { record: RecordKind::Operation, tag: 2 }
    );
}

#[test]
fn family_is_read() {
    for order in orders() {
        let family = NewFamily::parse(order, &raw_family(order, None)).unwrap();
        assert_eq!(u16::from(family.id().clone()), 0x13);
        assert_eq!(String::from(family.name().clone()), "nl80211");
        assert_eq!(u32::from(family.version().clone()), 1);
        assert_eq!(u32::from(family.header_size().clone()), 0);
        assert_eq!(u32::from(family.max_attributes().clone()), 0x12e);
        assert_eq!(family.operations().operations().len(), 2);
        assert_eq!(family.operations().operations()[1].id(), &OperationId(6));
        assert_eq!(family.multicast_groups().groups().len(), 2);
        assert_eq!(String::from(family.multicast_groups().groups()[1].name().clone()), "scan");
    }
}

#[test]
fn family_with_an_unknown_attribute_is_rejected() {
    for order in orders() {
        let mut bytes = raw_family(order, None);
        bytes.extend(raw_attribute(order, 8, &raw_u32(order, 0)));
        assert_eq!(
            NewFamily::parse(order, &bytes).unwrap_err(),
            DecodeFailure::UnknownTag { record: RecordKind::NewFamily, kind: 8 }
        );
        let mut early = raw_attribute(order, 0x2a, &[]);
        early.extend(raw_family(order, None));
        assert_eq!(
            NewFamily::parse(order, &early).unwrap_err(),
            DecodeFailure::UnknownTag { record: RecordKind::NewFamily, kind: 0x2a }
        );
    }
}

#[test]
fn family_without_a_field_names_the_field() {
    for order in orders() {
        for tag in 1u16..=7 {
            assert_eq!(
                NewFamily::parse(order, &raw_family(order, Some(tag))).unwrap_err(),
                DecodeFailure::MissingField { record: RecordKind::NewFamily, tag }
            );
        }
    }
}

#[test]
fn empty_family_reports_the_name_first() {
    assert_eq!(
        NewFamily::parse(Endianness::Little, &[]).unwrap_err(),
        DecodeFailure::MissingField { record: RecordKind::NewFamily, tag: 2 }
    );
}

#[test]
fn group_list_built_with_the_emitters_round_trips() {
    for order in orders() {
        let written = [(7u32, "config"), (8, ""), (9, "mlme"), (10, "regulatory"), (11, "a")];
        let mut value = Vec::new();
        for (i, (id, name)) in written.iter().enumerate() {
            let name = MulticastGroupName(name.to_string());
            let id = MulticastGroupId(*id);
            let size = name.buffer_len() + id.buffer_len();
            let mut item = vec![0u8; 4 + size];
            item[..2].copy_from_slice(&raw_u16(order, (4 + size) as u16));
            item[2..4].copy_from_slice(&raw_u16(order, (i + 1) as u16));
            name.emit(order, &mut item[4..]);
            id.emit(order, &mut item[4 + name.buffer_len()..]);
            value.extend(item);
        }
        let bytes = raw_attribute(order, 7, &value);
        let holder = Attribute::parse(order, &bytes).unwrap();
        let list = MulticastGroupList::parse(order, &holder).unwrap();
        assert_eq!(list.groups().len(), written.len());
        for (i, (id, name)) in written.iter().enumerate() {
            assert_eq!(list.groups()[i].id(), &MulticastGroupId(*id));
            assert_eq!(list.groups()[i].name(), &MulticastGroupName(name.to_string()));
        }
    }
}

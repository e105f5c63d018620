use mess::vm::exec::address::{Address, AddressType};

const TYPES: [AddressType; 5] = [
    AddressType::Program,
    AddressType::Stack,
    AddressType::Heap,
    AddressType::Swap,
    AddressType::Foreign,
];

#[test]
fn encoding_puts_the_tag_in_the_top_three_bits() {
    assert_eq!(Address::new(5, AddressType::Program).raw_address, 5);
    assert_eq!(Address::new(5, AddressType::Stack).raw_address, 5 | (1 << 61));
    assert_eq!(Address::new(5, AddressType::Heap).raw_address, 5 | (2 << 61));
    assert_eq!(Address::new(5, AddressType::Swap).raw_address, 5 | (3 << 61));
    assert_eq!(Address::new(5, AddressType::Foreign).raw_address, 5 | (4 << 61));
    assert_eq!(AddressType::Foreign.tag(), 4);
    assert_eq!(AddressType::from_tag(3), Some(AddressType::Swap));
    assert_eq!(AddressType::from_tag(5), None);
}

#[test]
fn decoding_an_encoded_address_gives_the_parts_back() {
    let offsets = [0u64, 1, 8, 0xffff, 0x1234_5678_9abc, (1 << 61) - 1];
    for address_type in TYPES {
        for offset in offsets {
            let encoded = Address::new(offset, address_type);
            assert_eq!(encoded.real_address, offset);
            let decoded = Address::from(encoded.into());
            assert_eq!(decoded.real_address, offset);
            assert_eq!(decoded.address_type, address_type);
            assert_eq!(decoded.raw_address, Address::new(offset, address_type).raw_address);
        }
    }
}

#[test]
fn decoding_refuses_tags_that_name_no_space() {
    assert!(Address::decode(5 << 61).is_none());
    assert!(Address::decode(6 << 61).is_none());
    assert!(Address::decode(u64::MAX).is_none());
    let decoded = Address::decode((4 << 61) | 77).unwrap();
    assert_eq!(decoded.real_address, 77);
    assert_eq!(decoded.address_type, AddressType::Foreign);
}

#[test]
fn offsets_move_the_real_address_only() {
    let address = Address::new(100, AddressType::Stack);
    assert!(address.offset_in_range(-100));
    assert!(!address.offset_in_range(-101));
    let moved = address.with_offset(-100);
    assert_eq!(moved.real_address, 0);
    assert_eq!(moved.raw_address, 100 | (1 << 61));
    assert_eq!(moved.address_type, AddressType::Stack);
    let moved = Address::new(100, AddressType::Heap).with_offset(i16::MAX);
    assert_eq!(moved.real_address, 100 + 32767);
    let moved = Address::new(40000, AddressType::Heap).with_offset(i16::MIN);
    assert_eq!(moved.real_address, 40000 - 32768);
    assert!(!Address::new(u64::MAX, AddressType::Program).offset_in_range(1));
    assert!(Address::new(u64::MAX, AddressType::Program).offset_in_range(0));
}

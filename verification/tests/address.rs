use traffic_engine::address::Address;
use traffic_engine::address_map::AddressMap;

#[test]
fn v4_octets_are_read_big_endian() {
    assert_eq!(Address::from_v4_octets([192, 168, 1, 1]), Address::V4(0xC0A8_0101));
    assert_eq!(Address::from_v4_octets([0, 0, 0, 0]), Address::V4(0));
    assert_eq!(Address::from_v4_octets([0, 0, 0, 1]), Address::V4(1));
    assert_eq!(Address::from_v4_octets([1, 0, 0, 0]), Address::V4(1 << 24));
    assert_eq!(Address::from_v4_octets([255, 255, 255, 255]), Address::V4(u32::MAX));
}

#[test]
fn v6_octets_are_read_big_endian() {
    let mut octets = [0u8; 16];
    octets[15] = 1;
    assert_eq!(Address::from_v6_octets(octets), Address::V6(1));
    let mut octets = [0u8; 16];
    octets[0] = 0x20;
    octets[1] = 0x01;
    octets[2] = 0x0d;
    octets[3] = 0xb8;
    octets[15] = 0x42;
    assert_eq!(
        Address::from_v6_octets(octets),
        Address::V6(0x2001_0db8_0000_0000_0000_0000_0000_0042)
    );
    assert_eq!(Address::from_v6_octets([255u8; 16]), Address::V6(u128::MAX));
}

#[test]
fn families_are_told_apart() {
    assert_ne!(Address::V4(7), Address::V6(7));
    // An IPv4-mapped IPv6 address is not the IPv4 address.
    assert_ne!(Address::V4(0x0102_0304), Address::V6(0xffff_0102_0304));
}

#[test]
fn address_map_keeps_families_apart() {
    let mut map: AddressMap<u32> = AddressMap::new();
    assert!(map.get(&Address::V4(7)).is_none());
    assert_eq!(map.insert(Address::V4(7), 1), None);
    assert_eq!(map.insert(Address::V6(7), 2), None);
    assert_eq!(map.get(&Address::V4(7)), Some(&1));
    assert_eq!(map.get(&Address::V6(7)), Some(&2));
    assert!(map.contains_key(&Address::V4(7)));
    assert!(!map.contains_key(&Address::V4(8)));
    assert_eq!(map.insert(Address::V4(7), 3), Some(1));
    assert_eq!(map.get(&Address::V4(7)), Some(&3));
    assert_eq!(map.get(&Address::V6(7)), Some(&2));
}

#[test]
fn address_map_slot_is_filled_once() {
    let mut map: AddressMap<u32> = AddressMap::new();
    {
        let slot = map.or_insert(Address::V6(1), 10);
        assert_eq!(*slot, 10);
        *slot += 1;
    }
    {
        let slot = map.or_insert(Address::V6(1), 50);
        assert_eq!(*slot, 11);
        *slot += 1;
    }
    assert_eq!(map.get(&Address::V6(1)), Some(&12));
    assert!(map.get(&Address::V4(1)).is_none());
}

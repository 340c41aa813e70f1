use lose_net_stack::{IPv4, MacAddress};

#[test]
fn ipv4_to_u32_is_big_endian() {
    assert_eq!(IPv4::new(10, 0, 2, 15).to_u32(), 0x0a00_020f);
    assert_eq!(IPv4::new(0, 0, 0, 0).to_u32(), 0);
    assert_eq!(IPv4::new(255, 255, 255, 255).to_u32(), u32::MAX);
    assert_eq!(IPv4::new(1, 2, 3, 4).to_u32(), 0x0102_0304);
}

#[test]
fn ipv4_from_u32_is_big_endian() {
    assert_eq!(IPv4::from_u32(0x0a00_0202), IPv4::new(10, 0, 2, 2));
    assert_eq!(IPv4::from_u32(0xc0a8_0001), IPv4::new(192, 168, 0, 1));
    assert_eq!(IPv4::from_u32(u32::MAX), IPv4::new(255, 255, 255, 255));
}

#[test]
fn ipv4_u32_round_trip() {
    let samples: [u32; 7] = [0, 1, 0xff, 0x100, 0x0a00_020f, 0x8000_0000, u32::MAX];
    for x in samples {
        assert_eq!(IPv4::from_u32(x).to_u32(), x);
    }
    let ip = IPv4::new(172, 16, 254, 1);
    assert_eq!(IPv4::from_u32(ip.to_u32()), ip);
}

#[test]
fn ipv4_bytes_round_trip() {
    let ip = IPv4::from_bytes([192, 168, 1, 77]);
    assert_eq!(ip, IPv4::new(192, 168, 1, 77));
    assert_eq!(ip.to_bytes(), [192, 168, 1, 77]);
}

#[test]
fn ipv4_read_checks_bounds() {
    let buf = [9u8, 10, 0, 2, 15];
    assert_eq!(IPv4::read(&buf, 1), Some(IPv4::new(10, 0, 2, 15)));
    assert_eq!(IPv4::read(&buf, 0), Some(IPv4::new(9, 10, 0, 2)));
    assert_eq!(IPv4::read(&buf, 2), None);
    assert_eq!(IPv4::read(&buf, usize::MAX), None);
    assert_eq!(IPv4::read(&buf[..3], 0), None);
}

#[test]
fn ipv4_append_writes_wire_order() {
    let mut out = vec![7u8];
    IPv4::new(10, 0, 2, 15).append_to(&mut out);
    assert_eq!(out, vec![7, 10, 0, 2, 15]);
}

#[test]
fn mac_bytes_round_trip() {
    let bytes = [0x52, 0x54, 0x00, 0x12, 0x34, 0x56];
    let mac = MacAddress::new(bytes);
    assert_eq!(mac.to_bytes(), bytes);
    assert_eq!(MacAddress::from_bytes(bytes), mac);
    assert_eq!(mac.b0, 0x52);
    assert_eq!(mac.b5, 0x56);
}

#[test]
fn mac_equality_is_by_content() {
    assert_eq!(MacAddress::new([1, 2, 3, 4, 5, 6]), MacAddress::new([1, 2, 3, 4, 5, 6]));
    assert_ne!(MacAddress::new([1, 2, 3, 4, 5, 6]), MacAddress::new([1, 2, 3, 4, 5, 7]));
    assert_ne!(MacAddress::new([1, 2, 3, 4, 5, 6]), MacAddress::new([0, 2, 3, 4, 5, 6]));
}

#[test]
fn mac_broadcast_is_all_ones() {
    assert_eq!(MacAddress::broadcast().to_bytes(), [0xff; 6]);
    assert!(MacAddress::broadcast().is_broadcast());
    assert!(!MacAddress::new([0xff, 0xff, 0xff, 0xff, 0xff, 0xfe]).is_broadcast());
}

#[test]
fn mac_read_checks_bounds() {
    let buf = [0u8, 1, 2, 3, 4, 5, 6];
    assert_eq!(MacAddress::read(&buf, 1), Some(MacAddress::new([1, 2, 3, 4, 5, 6])));
    assert_eq!(MacAddress::read(&buf, 2), None);
    assert_eq!(MacAddress::read(&buf[..5], 0), None);
    assert_eq!(MacAddress::read(&buf, usize::MAX - 2), None);
}

#[test]
fn mac_append_writes_wire_order() {
    let mut out = Vec::new();
    MacAddress::new([1, 2, 3, 4, 5, 6]).append_to(&mut out);
    assert_eq!(out, vec![1, 2, 3, 4, 5, 6]);
}

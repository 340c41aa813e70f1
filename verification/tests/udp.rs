use lose_net_stack::packets::udp::UDPPacket;
use lose_net_stack::results::{NetStackErrors, Packet};
use lose_net_stack::{IPv4, LoseStack, MacAddress};

const PING_FRAME: [u8; 57] = [
    0xaa, 0xbb, 0xcc, 0xdd, 0xee, 0xff, 0x52, 0x54, 0x00, 0x12, 0x34, 0x56, 0x08, 0x00, 0x45,
    0x00, 0x00, 0x2b, 0x00, 0x00, 0x00, 0x00, 0x40, 0x11, 0x62, 0xb2, 0x0a, 0x00, 0x02, 0x0f,
    0x0a, 0x00, 0x02, 0x02, 0x04, 0xd2, 0x16, 0x2e, 0x00, 0x17, 0xfa, 0x58, 0x74, 0x68, 0x69,
    0x73, 0x20, 0x69, 0x73, 0x20, 0x61, 0x20, 0x70, 0x69, 0x6e, 0x67, 0x21,
];

const REPLY_FRAME: [u8; 47] = [
    0x52, 0x54, 0x00, 0x12, 0x34, 0x56, 0xaa, 0xbb, 0xcc, 0xdd, 0xee, 0xff, 0x08, 0x00, 0x45,
    0x00, 0x00, 0x21, 0x00, 0x00, 0x00, 0x00, 0x40, 0x11, 0x62, 0xbc, 0x0a, 0x00, 0x02, 0x02,
    0x0a, 0x00, 0x02, 0x0f, 0x16, 0x2e, 0x04, 0xd2, 0x00, 0x0d, 0x70, 0xf1, 0x72, 0x65, 0x70,
    0x6c, 0x79,
];

fn stack() -> LoseStack {
    LoseStack::new(IPv4::new(10, 0, 2, 2), MacAddress::new([0xaa, 0xbb, 0xcc, 0xdd, 0xee, 0xff]))
}

fn ping<'a>(data: &'a [u8]) -> UDPPacket<'a> {
    UDPPacket::new(
        IPv4::new(10, 0, 2, 15),
        MacAddress::new([0x52, 0x54, 0x00, 0x12, 0x34, 0x56]),
        1234,
        IPv4::new(10, 0, 2, 2),
        MacAddress::new([0xaa, 0xbb, 0xcc, 0xdd, 0xee, 0xff]),
        5678,
        data.len(),
        data,
    )
}

#[test]
fn udp_build_data_exact_frame() {
    let p = ping(b"this is a ping!");
    assert!(p.is_wf());
    assert_eq!(p.build_data(), PING_FRAME.to_vec());
}

#[test]
fn udp_analysis_exact_fields() {
    let decoded = match stack().analysis(&PING_FRAME) {
        Ok(Packet::UDP(p)) => p,
        _ => panic!("not a UDP packet"),
    };
    assert_eq!(decoded, ping(b"this is a ping!"));
    assert_eq!(decoded.source_port, 1234);
    assert_eq!(decoded.dest_port, 5678);
    assert_eq!(decoded.data_len, 15);
    assert_eq!(decoded.data, b"this is a ping!");
}

#[test]
fn udp_reply_swaps_source_and_destination() {
    let p = ping(b"this is a ping!");
    let r = p.reply(b"reply");
    assert_eq!(r.source_ip, p.dest_ip);
    assert_eq!(r.source_mac, p.dest_mac);
    assert_eq!(r.source_port, p.dest_port);
    assert_eq!(r.dest_ip, p.source_ip);
    assert_eq!(r.dest_mac, p.source_mac);
    assert_eq!(r.dest_port, p.source_port);
    assert_eq!(r.data_len, 5);
    assert_eq!(r.data, b"reply");
    assert_eq!(r.build_data(), REPLY_FRAME.to_vec());
}

#[test]
fn udp_round_trip() {
    let payloads: [&[u8]; 4] = [b"", b"a", b"ab", b"the quick brown fox jumps over the lazy dog"];
    for payload in payloads {
        let p = ping(payload);
        let frame = p.build_data();
        assert_eq!(frame.len(), 42 + payload.len());
        assert_eq!(stack().analysis(&frame), Ok(Packet::UDP(p)));
    }
}

#[test]
fn udp_round_trip_drops_padding() {
    let data = b"payload and then padding";
    let mut p = ping(data);
    p.data_len = 7;
    assert_eq!(p.payload(), b"payload");
    let frame = p.build_data();
    assert_eq!(frame.len(), 49);
    let decoded = match stack().analysis(&frame) {
        Ok(Packet::UDP(d)) => d,
        _ => panic!("not a UDP packet"),
    };
    assert_eq!(decoded, ping(b"payload"));
}

#[test]
fn udp_padded_frame_keeps_declared_length() {
    let mut frame = PING_FRAME.to_vec();
    frame.resize(60, 0);
    let decoded = match stack().analysis(&frame) {
        Ok(Packet::UDP(d)) => d,
        _ => panic!("not a UDP packet"),
    };
    assert_eq!(decoded.data_len, 15);
    assert_eq!(decoded.data.len(), 18);
    assert_eq!(decoded.payload(), b"this is a ping!");
    assert_eq!(decoded.build_data(), PING_FRAME.to_vec());
}

#[test]
fn udp_short_frames_are_decode_errors() {
    for len in 0..42 {
        assert_eq!(stack().analysis(&PING_FRAME[..len]), Err(NetStackErrors::DecodeError));
    }
    for len in 42..57 {
        assert_eq!(stack().analysis(&PING_FRAME[..len]), Err(NetStackErrors::DecodeError));
    }
    assert!(stack().analysis(&PING_FRAME).is_ok());
}

#[test]
fn udp_length_field_must_hold_the_header() {
    let mut frame = PING_FRAME.to_vec();
    frame[38] = 0;
    frame[39] = 7;
    assert_eq!(stack().analysis(&frame), Err(NetStackErrors::DecodeError));
    frame[39] = 8;
    match stack().analysis(&frame) {
        Ok(Packet::UDP(d)) => assert_eq!(d.data_len, 0),
        _ => panic!("not a UDP packet"),
    }
}

#[test]
fn udp_length_field_must_lie_inside_the_ip_packet() {
    let mut frame = PING_FRAME.to_vec();
    frame[39] = 0x18;
    assert_eq!(stack().analysis(&frame), Err(NetStackErrors::DecodeError));
}

#[test]
fn udp_wf_limits() {
    let data = vec![0u8; 65508];
    let mut p = ping(&data);
    assert!(!p.is_wf());
    p.data_len = 65507;
    assert!(p.is_wf());
    let frame = p.build_data();
    assert_eq!(frame.len(), 14 + 65535);
    assert_eq!(&frame[16..18], &[0xff, 0xff]);
    p.data_len = 65509;
    assert!(!p.is_wf());
    assert_eq!(Packet::UDP(p).build_data(), None);
}

#[test]
fn udp_zero_checksum_is_sent_as_all_ones() {
    let p = UDPPacket::new(
        IPv4::new(0, 0, 0, 0),
        MacAddress::new([0; 6]),
        0xffff,
        IPv4::new(0, 0, 0, 0),
        MacAddress::new([0; 6]),
        0xffee - 8 - 8,
        0,
        b"",
    );
    let frame = p.build_data();
    assert_eq!(&frame[40..42], &[0xff, 0xff]);
}

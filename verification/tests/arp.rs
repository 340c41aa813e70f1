use lose_net_stack::packets::arp::{ArpPacket, ArpType};
use lose_net_stack::results::{NetStackErrors, Packet};
use lose_net_stack::{IPv4, LoseStack, MacAddress};

fn request_frame() -> Vec<u8> {
    let mut frame: Vec<u8> = Vec::new();
    frame.extend_from_slice(&[0xff; 6]);
    frame.extend_from_slice(&[0x52, 0x54, 0x00, 0x12, 0x34, 0x56]);
    frame.extend_from_slice(&[0x08, 0x06]);
    frame.extend_from_slice(&[0x00, 0x01, 0x08, 0x00, 0x06, 0x04, 0x00, 0x01]);
    frame.extend_from_slice(&[0x52, 0x54, 0x00, 0x12, 0x34, 0x56]);
    frame.extend_from_slice(&[10, 0, 2, 15]);
    frame.extend_from_slice(&[0x00; 6]);
    frame.extend_from_slice(&[10, 0, 2, 2]);
    frame.resize(60, 0);
    frame
}

#[test]
fn arp_request_scenario() {
    let stack = LoseStack::new(
        IPv4::new(10, 0, 2, 2),
        MacAddress::new([0xaa, 0xbb, 0xcc, 0xdd, 0xee, 0xff]),
    );
    let frame = request_frame();
    assert_eq!(frame.len(), 60);
    let packet = stack.analysis(&frame);
    let arp = match packet {
        Ok(Packet::ARP(arp)) => arp,
        _ => panic!("not an ARP packet"),
    };
    assert_eq!(arp.rtype, ArpType::Request);
    assert_eq!(arp.sender_ip, IPv4::new(10, 0, 2, 15));
    assert_eq!(arp.sender_mac, MacAddress::new([0x52, 0x54, 0x00, 0x12, 0x34, 0x56]));
    assert_eq!(arp.target_ip, IPv4::new(10, 0, 2, 2));
    assert_eq!(arp.target_mac, MacAddress::new([0; 6]));

    let reply = arp.reply_packet(stack.ip, stack.mac).unwrap();
    assert_eq!(
        reply,
        ArpPacket::new(
            IPv4::new(10, 0, 2, 2),
            MacAddress::new([0xaa, 0xbb, 0xcc, 0xdd, 0xee, 0xff]),
            IPv4::new(10, 0, 2, 15),
            MacAddress::new([0x52, 0x54, 0x00, 0x12, 0x34, 0x56]),
            ArpType::Reply,
        )
    );
    let data = reply.build_data();
    assert_eq!(data.len(), 42);
    let expected: Vec<u8> = vec![
        0xff, 0xff, 0xff, 0xff, 0xff, 0xff, 0xaa, 0xbb, 0xcc, 0xdd, 0xee, 0xff, 0x08, 0x06,
        0x00, 0x01, 0x08, 0x00, 0x06, 0x04, 0x00, 0x02, 0xaa, 0xbb, 0xcc, 0xdd, 0xee, 0xff,
        10, 0, 2, 2, 0x52, 0x54, 0x00, 0x12, 0x34, 0x56, 10, 0, 2, 15,
    ];
    assert_eq!(data, expected);
}

#[test]
fn arp_reply_is_not_answered() {
    let p = ArpPacket::new(
        IPv4::new(1, 2, 3, 4),
        MacAddress::new([1, 2, 3, 4, 5, 6]),
        IPv4::new(5, 6, 7, 8),
        MacAddress::new([6, 5, 4, 3, 2, 1]),
        ArpType::Reply,
    );
    assert_eq!(
        p.reply_packet(IPv4::new(9, 9, 9, 9), MacAddress::new([9; 6])),
        Err(NetStackErrors::NotRequiredReplyArp)
    );
}

#[test]
fn arp_unsupported_is_not_answered() {
    let p = ArpPacket::new(
        IPv4::new(1, 2, 3, 4),
        MacAddress::new([1, 2, 3, 4, 5, 6]),
        IPv4::new(5, 6, 7, 8),
        MacAddress::new([6, 5, 4, 3, 2, 1]),
        ArpType::Unsupported,
    );
    assert_eq!(
        p.reply_packet(IPv4::new(9, 9, 9, 9), MacAddress::new([9; 6])),
        Err(NetStackErrors::NotRequiredReplyArp)
    );
}

#[test]
fn arp_type_wire_values() {
    assert_eq!(ArpType::form_u16(1), ArpType::Request);
    assert_eq!(ArpType::form_u16(2), ArpType::Reply);
    assert_eq!(ArpType::form_u16(0), ArpType::Unsupported);
    assert_eq!(ArpType::form_u16(3), ArpType::Unsupported);
    assert_eq!(ArpType::form_u16(0x0100), ArpType::Unsupported);
    assert_eq!(ArpType::form_u16(u16::MAX), ArpType::Unsupported);
    assert_eq!(ArpType::Request.to_u16(), 1);
    assert_eq!(ArpType::Reply.to_u16(), 2);
    assert_eq!(ArpType::Unsupported.to_u16(), 0);
}

#[test]
fn arp_type_round_trip() {
    for t in [ArpType::Request, ArpType::Reply, ArpType::Unsupported] {
        assert_eq!(ArpType::form_u16(t.to_u16()), t);
    }
}

#[test]
fn arp_new_keeps_fields() {
    let p = ArpPacket::new(
        IPv4::new(1, 2, 3, 4),
        MacAddress::new([1, 2, 3, 4, 5, 6]),
        IPv4::new(5, 6, 7, 8),
        MacAddress::new([6, 5, 4, 3, 2, 1]),
        ArpType::Request,
    );
    assert_eq!(p.sender_ip, IPv4::new(1, 2, 3, 4));
    assert_eq!(p.sender_mac, MacAddress::new([1, 2, 3, 4, 5, 6]));
    assert_eq!(p.target_ip, IPv4::new(5, 6, 7, 8));
    assert_eq!(p.target_mac, MacAddress::new([6, 5, 4, 3, 2, 1]));
    assert_eq!(p.rtype, ArpType::Request);
}

#[test]
fn arp_build_then_analysis_round_trip() {
    let stack = LoseStack::new(IPv4::new(0, 0, 0, 0), MacAddress::new([0; 6]));
    for rtype in [ArpType::Request, ArpType::Reply, ArpType::Unsupported] {
        let p = ArpPacket::new(
            IPv4::new(192, 168, 0, 1),
            MacAddress::new([0x02, 0x00, 0x00, 0x00, 0x00, 0x01]),
            IPv4::new(192, 168, 0, 254),
            MacAddress::new([0x02, 0x00, 0x00, 0x00, 0x00, 0xfe]),
            rtype,
        );
        let frame = p.build_data();
        assert_eq!(frame.len(), 42);
        assert_eq!(stack.analysis(&frame), Ok(Packet::ARP(p)));
    }
}

#[test]
fn arp_reply_round_trip_through_the_wire() {
    let stack = LoseStack::new(
        IPv4::new(10, 0, 2, 15),
        MacAddress::new([0x52, 0x54, 0x00, 0x12, 0x34, 0x56]),
    );
    let request = ArpPacket::new(
        IPv4::new(10, 0, 2, 2),
        MacAddress::new([0xaa, 0xbb, 0xcc, 0xdd, 0xee, 0xff]),
        IPv4::new(10, 0, 2, 15),
        MacAddress::new([0; 6]),
        ArpType::Request,
    );
    let reply = request.reply_packet(stack.ip, stack.mac).unwrap();
    let decoded = match stack.analysis(&reply.build_data()) {
        Ok(Packet::ARP(p)) => p,
        _ => panic!("not an ARP packet"),
    };
    assert_eq!(decoded.rtype, ArpType::Reply);
    assert_eq!(decoded.sender_ip, stack.ip);
    assert_eq!(decoded.sender_mac, stack.mac);
    assert_eq!(decoded.target_ip, request.sender_ip);
    assert_eq!(decoded.target_mac, request.sender_mac);
}

#[test]
fn arp_frame_is_broadcast_from_the_sender() {
    let p = ArpPacket::new(
        IPv4::new(1, 2, 3, 4),
        MacAddress::new([1, 2, 3, 4, 5, 6]),
        IPv4::new(5, 6, 7, 8),
        MacAddress::new([6, 5, 4, 3, 2, 1]),
        ArpType::Request,
    );
    let frame = p.build_data();
    assert_eq!(&frame[0..6], &[0xff; 6]);
    assert_eq!(&frame[6..12], &[1, 2, 3, 4, 5, 6]);
    assert_eq!(&frame[12..14], &[0x08, 0x06]);
    assert_eq!(&frame[14..22], &[0x00, 0x01, 0x08, 0x00, 0x06, 0x04, 0x00, 0x01]);
}

#[test]
fn arp_short_frames_are_decode_errors() {
    let stack = LoseStack::new(IPv4::new(0, 0, 0, 0), MacAddress::new([0; 6]));
    let frame = request_frame();
    for len in 0..42 {
        assert_eq!(stack.analysis(&frame[..len]), Err(NetStackErrors::DecodeError));
    }
    assert!(stack.analysis(&frame[..42]).is_ok());
}

#[test]
fn arp_for_other_hardware_is_ignored() {
    let stack = LoseStack::new(IPv4::new(0, 0, 0, 0), MacAddress::new([0; 6]));
    let mut frame = request_frame();
    frame[15] = 6;
    assert_eq!(stack.analysis(&frame), Ok(Packet::Unsupported));
    let mut frame = request_frame();
    frame[16] = 0x86;
    frame[17] = 0xdd;
    assert_eq!(stack.analysis(&frame), Ok(Packet::Unsupported));
}

#[test]
fn arp_with_wrong_address_lengths_is_a_decode_error() {
    let stack = LoseStack::new(IPv4::new(0, 0, 0, 0), MacAddress::new([0; 6]));
    let mut frame = request_frame();
    frame[18] = 8;
    assert_eq!(stack.analysis(&frame), Err(NetStackErrors::DecodeError));
    let mut frame = request_frame();
    frame[19] = 16;
    assert_eq!(stack.analysis(&frame), Err(NetStackErrors::DecodeError));
}

#[test]
fn arp_unknown_operation_decodes_as_unsupported() {
    let stack = LoseStack::new(IPv4::new(0, 0, 0, 0), MacAddress::new([0; 6]));
    let mut frame = request_frame();
    frame[21] = 9;
    match stack.analysis(&frame) {
        Ok(Packet::ARP(p)) => assert_eq!(p.rtype, ArpType::Unsupported),
        _ => panic!("not an ARP packet"),
    }
}

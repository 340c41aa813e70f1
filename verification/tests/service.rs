use lose_net_stack::packets::arp::{ArpPacket, ArpType};
use lose_net_stack::packets::tcp::TCPPacket;
use lose_net_stack::packets::udp::UDPPacket;
use lose_net_stack::results::{NetStackErrors, Packet};
use lose_net_stack::service::{
    bytes_eq, http_response, push_decimal, receive_tcp, request_target, Next, Reaction, Service,
};
use lose_net_stack::{IPv4, LoseStack, MacAddress, TcpFlags};

const PAGE: &[u8] = b"HTTP/1.1 200 OK\r\n\r\n<html></html>";

fn stack() -> LoseStack {
    LoseStack::new(IPv4::new(10, 0, 2, 15), MacAddress::new([0x52, 0x54, 0x00, 0x12, 0x34, 0x56]))
}

fn service() -> Service<'static> {
    Service { ping: b"this is a ping!", pong: b"reply", page: PAGE }
}

fn segment<'a>(flags: TcpFlags, data: &'a [u8]) -> TCPPacket<'a> {
    TCPPacket {
        source_ip: IPv4::new(10, 0, 2, 2),
        source_mac: MacAddress::new([0xaa, 0xbb, 0xcc, 0xdd, 0xee, 0xff]),
        source_port: 40000,
        dest_ip: IPv4::new(10, 0, 2, 15),
        dest_mac: MacAddress::new([0x52, 0x54, 0x00, 0x12, 0x34, 0x56]),
        dest_port: 80,
        data_len: data.len(),
        seq: 1000,
        ack: 2000,
        flags,
        win: 64240,
        urg: 0,
        data,
    }
}

fn datagram<'a>(data: &'a [u8]) -> UDPPacket<'a> {
    UDPPacket::new(
        IPv4::new(10, 0, 2, 2),
        MacAddress::new([0xaa, 0xbb, 0xcc, 0xdd, 0xee, 0xff]),
        1234,
        IPv4::new(10, 0, 2, 15),
        MacAddress::new([0x52, 0x54, 0x00, 0x12, 0x34, 0x56]),
        5678,
        data.len(),
        data,
    )
}

const NOTHING: Reaction<'static> = Reaction { first: None, second: None, next: Next::Continue };

#[test]
fn decimal_digits() {
    let cases: [(usize, &[u8]); 8] = [
        (0, b"0"),
        (7, b"7"),
        (9, b"9"),
        (10, b"10"),
        (99, b"99"),
        (100, b"100"),
        (1234567890, b"1234567890"),
        (65535, b"65535"),
    ];
    for (n, text) in cases {
        let mut out = vec![b'='];
        push_decimal(&mut out, n);
        assert_eq!(&out[1..], text);
    }
    let mut out = Vec::new();
    push_decimal(&mut out, usize::MAX);
    assert_eq!(out, format!("{}", usize::MAX).into_bytes());
}

#[test]
fn http_response_text() {
    let content = b"<html><body>hello</body></html>";
    let expected = format!(
        "\
HTTP/1.1 200 OK\r\n\
Content-Type: text/html\r\n\
Content-Length: {}\r\n\
Connecion: keep-alive\r\n\
\r\n\
{}",
        content.len(),
        "<html><body>hello</body></html>"
    );
    assert_eq!(http_response(content), expected.into_bytes());
    assert_eq!(
        http_response(b""),
        b"HTTP/1.1 200 OK\r\nContent-Type: text/html\r\nContent-Length: 0\r\nConnecion: keep-alive\r\n\r\n"
            .to_vec()
    );
}

#[test]
fn bytes_eq_compares_content() {
    assert!(bytes_eq(b"", b""));
    assert!(bytes_eq(b"abc", b"abc"));
    assert!(!bytes_eq(b"abc", b"abd"));
    assert!(!bytes_eq(b"abc", b"ab"));
    assert!(!bytes_eq(b"ab", b"abc"));
}

#[test]
fn request_target_of_get() {
    assert_eq!(request_target(b"GET /index.html HTTP/1.1\r\n"), Some(&b"/index.html"[..]));
    assert_eq!(request_target(b"GET /close HTTP/1.1\r\n\r\n"), Some(&b"/close"[..]));
    assert_eq!(request_target(b"GET  HTTP/1.1"), Some(&b""[..]));
    assert_eq!(request_target(b"GET /a b c d e"), Some(&b"/a"[..]));
}

#[test]
fn request_target_needs_a_get_line() {
    assert_eq!(request_target(b""), None);
    assert_eq!(request_target(b"GET / HTTP"), None);
    assert_eq!(request_target(b"GET /abcdef"), None);
    assert_eq!(request_target(b"GET /no-space-behind-the-target"), None);
    assert_eq!(request_target(b"POST /index.html HTTP/1.1"), None);
    assert_eq!(request_target(b"get /index.html HTTP/1.1"), None);
    assert_eq!(request_target(b"GET\t/index.html HTTP/1.1"), None);
}

#[test]
fn receive_tcp_serves_the_page() {
    let request = segment(TcpFlags::psh() | TcpFlags::ack(), b"GET /index.html HTTP/1.1\r\n\r\n");
    let answer = receive_tcp(&request, PAGE);
    assert!(!answer.shutdown);
    assert_eq!(answer.packet, request.reply(PAGE));
    assert_eq!(answer.packet.data, PAGE);
    assert_eq!(answer.packet.ack, 1028);
    assert_eq!(answer.packet.seq, 2000);
}

#[test]
fn receive_tcp_close_shuts_down() {
    let request = segment(TcpFlags::psh() | TcpFlags::ack(), b"GET /close HTTP/1.1\r\n\r\n");
    let answer = receive_tcp(&request, PAGE);
    assert!(answer.shutdown);
    assert_eq!(answer.packet, request.ack());
    assert_eq!(answer.packet.data_len, 0);
}

#[test]
fn receive_tcp_acknowledges_what_is_no_request() {
    for data in [&b"hello"[..], &b"POST /index.html HTTP/1.1"[..], &b"GET /closed-without-space"[..]] {
        let request = segment(TcpFlags::psh() | TcpFlags::ack(), data);
        let answer = receive_tcp(&request, PAGE);
        assert!(!answer.shutdown);
        assert_eq!(answer.packet, request.ack());
    }
    let request = segment(TcpFlags::ack(), b"GET /closer HTTP/1.1");
    assert_eq!(receive_tcp(&request, PAGE).packet, request.reply(PAGE));
}

#[test]
fn receive_tcp_reads_the_payload_only() {
    let mut request = segment(TcpFlags::ack(), b"GET /close HTTP/1.1");
    request.data_len = 9;
    assert_eq!(receive_tcp(&request, PAGE).packet, request.ack());
    request.data_len = 100;
    let answer = receive_tcp(&request, PAGE);
    assert!(!answer.shutdown);
    assert_eq!(answer.packet, request.ack());
}

#[test]
fn on_frame_answers_arp_request() {
    let request = ArpPacket::new(
        IPv4::new(10, 0, 2, 2),
        MacAddress::new([0xaa, 0xbb, 0xcc, 0xdd, 0xee, 0xff]),
        IPv4::new(10, 0, 2, 15),
        MacAddress::new([0; 6]),
        ArpType::Request,
    );
    let frame = request.build_data();
    let reaction = stack().on_frame(&frame, &service()).unwrap();
    let reply = ArpPacket::new(
        IPv4::new(10, 0, 2, 15),
        MacAddress::new([0x52, 0x54, 0x00, 0x12, 0x34, 0x56]),
        IPv4::new(10, 0, 2, 2),
        MacAddress::new([0xaa, 0xbb, 0xcc, 0xdd, 0xee, 0xff]),
        ArpType::Reply,
    );
    assert_eq!(
        reaction,
        Reaction { first: Some(Packet::ARP(reply)), second: None, next: Next::Continue }
    );
}

#[test]
fn on_frame_surfaces_arp_that_is_no_request() {
    let reply = ArpPacket::new(
        IPv4::new(10, 0, 2, 2),
        MacAddress::new([0xaa, 0xbb, 0xcc, 0xdd, 0xee, 0xff]),
        IPv4::new(10, 0, 2, 15),
        MacAddress::new([0; 6]),
        ArpType::Reply,
    );
    assert_eq!(
        stack().on_frame(&reply.build_data(), &service()),
        Err(NetStackErrors::NotRequiredReplyArp)
    );
}

#[test]
fn on_frame_surfaces_decode_errors() {
    assert_eq!(stack().on_frame(&[0u8; 10], &service()), Err(NetStackErrors::DecodeError));
}

#[test]
fn on_frame_ignores_what_it_does_not_speak() {
    let mut frame = vec![0u8; 60];
    frame[12] = 0x86;
    frame[13] = 0xdd;
    assert_eq!(stack().on_frame(&frame, &service()), Ok(NOTHING));
}

#[test]
fn on_frame_answers_the_ping_and_stops() {
    let ping = datagram(b"this is a ping!");
    let frame = ping.build_data();
    let reaction = stack().on_frame(&frame, &service()).unwrap();
    assert_eq!(reaction.next, Next::Stop);
    assert_eq!(reaction.second, None);
    assert_eq!(reaction.first, Some(Packet::UDP(ping.reply(b"reply"))));
}

#[test]
fn on_frame_answers_a_padded_ping() {
    let ping = datagram(b"this is a ping!");
    let mut frame = ping.build_data();
    frame.resize(60, 0);
    let reaction = stack().on_frame(&frame, &service()).unwrap();
    assert_eq!(reaction.next, Next::Stop);
}

#[test]
fn on_frame_ignores_other_datagrams() {
    for data in [&b"this is a ping"[..], &b"this is a ping!!"[..], &b""[..]] {
        let frame = datagram(data).build_data();
        assert_eq!(stack().on_frame(&frame, &service()), Ok(NOTHING));
    }
}

#[test]
fn on_frame_accepts_a_connection() {
    let syn = segment(TcpFlags::syn(), b"");
    let frame = syn.build_data();
    let reaction = stack().on_frame(&frame, &service()).unwrap();
    assert_eq!(
        reaction,
        Reaction { first: Some(Packet::TCP(syn.syn_ack())), second: None, next: Next::Continue }
    );
    match reaction.first {
        Some(Packet::TCP(p)) => {
            assert_eq!(p.ack, 1001);
            assert!(p.flags.contains(TcpFlags::syn() | TcpFlags::ack()));
        }
        _ => panic!("no TCP answer"),
    }
}

#[test]
fn on_frame_closes_in_two_steps() {
    let fin = segment(TcpFlags::fin() | TcpFlags::ack(), b"");
    let frame = fin.build_data();
    let reaction = stack().on_frame(&frame, &service()).unwrap();
    let (first, second) = fin.close();
    assert_eq!(
        reaction,
        Reaction {
            first: Some(Packet::TCP(first)),
            second: Some(Packet::TCP(second)),
            next: Next::Continue
        }
    );
}

#[test]
fn on_frame_needs_no_answer_to_a_bare_ack() {
    let frame = segment(TcpFlags::ack(), b"").build_data();
    assert_eq!(stack().on_frame(&frame, &service()), Ok(NOTHING));
}

#[test]
fn on_frame_serves_the_page() {
    let request = segment(TcpFlags::psh() | TcpFlags::ack(), b"GET / HTTP/1.1\r\n\r\n");
    let frame = request.build_data();
    let reaction = stack().on_frame(&frame, &service()).unwrap();
    assert_eq!(
        reaction,
        Reaction {
            first: Some(Packet::TCP(request.reply(PAGE))),
            second: None,
            next: Next::Continue
        }
    );
    let sent = reaction.first.unwrap().build_data().unwrap();
    assert_eq!(sent.len(), 54 + PAGE.len());
    assert_eq!(&sent[54..], PAGE);
}

#[test]
fn on_frame_shuts_down_on_close() {
    let request = segment(TcpFlags::psh() | TcpFlags::ack(), b"GET /close HTTP/1.1\r\n\r\n");
    let frame = request.build_data();
    let reaction = stack().on_frame(&frame, &service()).unwrap();
    assert_eq!(
        reaction,
        Reaction { first: Some(Packet::TCP(request.ack())), second: None, next: Next::Shutdown }
    );
}

#[test]
fn react_works_on_a_decoded_packet() {
    let syn = segment(TcpFlags::syn(), b"");
    let reaction = stack().react(&Packet::TCP(syn), &service()).unwrap();
    assert_eq!(reaction.first, Some(Packet::TCP(syn.syn_ack())));
    assert_eq!(stack().react(&Packet::Unsupported, &service()), Ok(NOTHING));
    assert_eq!(stack().react(&Packet::IPv4Other(1), &service()), Ok(NOTHING));
}

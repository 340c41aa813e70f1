//! What a node does on each frame it receives: answer ARP requests, answer
//! one UDP ping, accept and close TCP connections, and serve one page to any
//! HTTP `GET`.
//!
//! Nothing here receives or sends. `LoseStack::on_frame` takes the frame that
//! the driver delivered and tells which packets to send, in order, and
//! whether the caller's loop goes on.
use vstd::prelude::*;
use vstd::slice::slice_subrange;
use vstd::string::StringSliceAdditionalSpecFns;
use crate::flags::TcpFlags;
use crate::packets::arp::ArpType;
use crate::packets::tcp::{TCPPacket, TcpEvent, TcpSegment};
use crate::results::{NetStackErrors, Packet, PacketView};
use crate::stack::{decode, LoseStack};
use crate::wire::push_bytes;

verus! {

/// `"GET "`: what a request for a page starts with.
pub open spec fn get_prefix() -> Seq<u8> {
    seq![0x47u8, 0x45u8, 0x54u8, 0x20u8]
}

/// `"/close"`: the target that asks the node to shut down.
pub open spec fn close_target() -> Seq<u8> {
    seq![0x2fu8, 0x63u8, 0x6cu8, 0x6fu8, 0x73u8, 0x65u8]
}

/// The least index from `from` on at which `s` holds `b`, or the length of
/// `s` where it holds none.
pub open spec fn find_byte(s: Seq<u8>, b: u8, from: int) -> int
    decreases s.len() - from,
{
    if from >= s.len() {
        s.len() as int
    } else if s[from] == b {
        from
    } else {
        find_byte(s, b, from + 1)
    }
}

/// `find_byte` finds the first occurrence and nothing else.
pub proof fn lemma_find_byte(s: Seq<u8>, b: u8, from: int)
    requires
        0 <= from <= s.len(),
    ensures
        from <= find_byte(s, b, from) <= s.len(),
        find_byte(s, b, from) < s.len() ==> s[find_byte(s, b, from)] == b,
        forall|i: int| from <= i < find_byte(s, b, from) ==> s[i] != b,
    decreases s.len() - from,
{
    if from < s.len() && s[from] != b {
        lemma_find_byte(s, b, from + 1);
    }
}

/// The target of the request line that `payload` starts with: what stands
/// between `"GET "` and the next space. There is none where the payload has
/// ten octets or fewer, does not start with `"GET "`, or has no space after
/// it.
pub open spec fn get_target(payload: Seq<u8>) -> Option<Seq<u8>> {
    let end = find_byte(payload, 0x20, 4);
    if payload.len() > 10 && payload.take(4) == get_prefix() && end < payload.len() {
        Some(payload.subrange(4, end))
    } else {
        None
    }
}

/// Whether two buffers hold the same octets.
pub fn bytes_eq(a: &[u8], b: &[u8]) -> (r: bool)
    ensures
        r == (a@ == b@),
{
    if a.len() != b.len() {
        return false;
    }
    let mut i: usize = 0;
    while i < a.len()
        invariant
            a@.len() == b@.len(),
            i <= a@.len(),
            forall|j: int| 0 <= j < i ==> a@[j] == b@[j],
        decreases a@.len() - i,
    {
        if a[i] != b[i] {
            return false;
        }
        i = i + 1;
    }
    assert(a@ =~= b@);
    true
}

/// Finds the target of the request line that `payload` starts with.
pub fn request_target<'a>(payload: &'a [u8]) -> (r: Option<&'a [u8]>)
    ensures
        r.is_some() == get_target(payload@).is_some(),
        r.is_some() ==> r.unwrap()@ == get_target(payload@).unwrap(),
{
    let n = payload.len();
    if n <= 10 {
        return None;
    }
    if payload[0] != 0x47 || payload[1] != 0x45 || payload[2] != 0x54 || payload[3] != 0x20 {
        assert(payload@.take(4)[0] == payload@[0] && payload@.take(4)[1] == payload@[1]
            && payload@.take(4)[2] == payload@[2] && payload@.take(4)[3] == payload@[3]);
        return None;
    }
    assert(payload@.take(4) =~= get_prefix());
    let mut i: usize = 4;
    while i < n && payload[i] != 0x20
        invariant
            n == payload@.len(),
            4 <= i <= n,
            find_byte(payload@, 0x20, 4) == find_byte(payload@, 0x20, i as int),
        decreases n - i,
    {
        i = i + 1;
    }
    if i < n {
        Some(slice_subrange(payload, 4, i))
    } else {
        None
    }
}

/// What a node answers to a TCP segment that carries data.
#[derive(Clone, Copy, Debug, PartialEq, Eq)]
pub struct TcpAnswer<'a> {
    /// The one segment to send.
    pub packet: TCPPacket<'a>,
    /// Whether the node shuts down once the segment is sent.
    pub shutdown: bool,
}

/// The request that a segment carries, if its payload lies inside its
/// `data`.
pub open spec fn segment_target(p: TcpSegment) -> Option<Seq<u8>> {
    if p.data_len <= p.data.len() {
        get_target(p.payload())
    } else {
        None
    }
}

/// The segment to send for a segment that carries data, and whether the
/// node shuts down after it: a request for `"/close"` is acknowledged and
/// ends the node; any other request is answered with `page`; anything that
/// is no request is acknowledged.
pub open spec fn spec_receive_tcp(p: TcpSegment, page: Seq<u8>) -> (TcpSegment, bool) {
    match segment_target(p) {
        Some(target) => if target == close_target() {
            (p.spec_ack(), true)
        } else {
            (p.spec_reply(page), false)
        },
        None => (p.spec_ack(), false),
    }
}

/// Decides the answer to a TCP segment that carries data.
pub fn receive_tcp<'a>(tcp_packet: &TCPPacket<'a>, page: &'a [u8]) -> (r: TcpAnswer<'a>)
    ensures
        (r.packet@, r.shutdown) == spec_receive_tcp(tcp_packet@, page@),
{
    if tcp_packet.data_len > tcp_packet.data.len() {
        return TcpAnswer { packet: tcp_packet.ack(), shutdown: false };
    }
    match request_target(tcp_packet.payload()) {
        Some(url) => {
            let close: [u8; 6] = [0x2f, 0x63, 0x6c, 0x6f, 0x73, 0x65];
            assert(close@ =~= close_target());
            if bytes_eq(url, close.as_slice()) {
                TcpAnswer { packet: tcp_packet.ack(), shutdown: true }
            } else {
                TcpAnswer { packet: tcp_packet.reply(page), shutdown: false }
            }
        },
        None => TcpAnswer { packet: tcp_packet.ack(), shutdown: false },
    }
}

/// The decimal digits of `n` in ASCII, without leading zeros.
pub open spec fn decimal(n: nat) -> Seq<u8>
    decreases n,
{
    if n < 10 {
        seq![(0x30 + n) as u8]
    } else {
        decimal(n / 10) + seq![(0x30 + n % 10) as u8]
    }
}

/// Appends the decimal digits of `n`.
pub fn push_decimal(out: &mut Vec<u8>, n: usize)
    ensures
        final(out)@ == old(out)@ + decimal(n as nat),
    decreases n,
{
    if n >= 10 {
        push_decimal(out, n / 10);
    }
    out.push(0x30 + (n % 10) as u8);
    assert(out@ =~= old(out)@ + decimal(n as nat));
}

/// The response that carries `content` as an HTML page: status line,
/// headers with the length of the content, an empty line, the content.
pub open spec fn spec_http_response(content: Seq<u8>) -> Seq<u8> {
    "HTTP/1.1 200 OK\r\nContent-Type: text/html\r\nContent-Length: ".spec_bytes() + decimal(
        content.len(),
    ) + "\r\nConnecion: keep-alive\r\n\r\n".spec_bytes() + content
}

/// Builds the response that carries `content` as an HTML page.
pub fn http_response(content: &[u8]) -> (r: Vec<u8>)
    ensures
        r@ == spec_http_response(content@),
{
    let mut out: Vec<u8> = Vec::new();
    push_bytes(
        &mut out,
        "HTTP/1.1 200 OK\r\nContent-Type: text/html\r\nContent-Length: ".as_bytes(),
    );
    push_decimal(&mut out, content.len());
    push_bytes(&mut out, "\r\nConnecion: keep-alive\r\n\r\n".as_bytes());
    push_bytes(&mut out, content);
    assert(out@ =~= spec_http_response(content@));
    out
}

/// What the node serves.
#[derive(Clone, Copy, Debug)]
pub struct Service<'a> {
    /// The UDP payload that is answered.
    pub ping: &'a [u8],
    /// The UDP payload that answers it.
    pub pong: &'a [u8],
    /// The HTTP response to any `GET`.
    pub page: &'a [u8],
}

/// The mathematical content of a [`Service`].
pub ghost struct ServiceView {
    pub ping: Seq<u8>,
    pub pong: Seq<u8>,
    pub page: Seq<u8>,
}

impl<'a> View for Service<'a> {
    type V = ServiceView;

    open spec fn view(&self) -> ServiceView {
        ServiceView { ping: self.ping@, pong: self.pong@, page: self.page@ }
    }
}

/// How the caller's loop goes on after a frame.
#[derive(Clone, Copy, Debug, PartialEq, Eq, Structural)]
pub enum Next {
    /// Wait for the next frame.
    Continue,
    /// The ping was answered: leave the loop.
    Stop,
    /// A client asked the node to shut down.
    Shutdown,
}

/// What to do on one frame: up to two packets to send, `first` before
/// `second`, and how to go on.
#[derive(Clone, Copy, Debug, PartialEq, Eq)]
pub struct Reaction<'a> {
    pub first: Option<Packet<'a>>,
    pub second: Option<Packet<'a>>,
    pub next: Next,
}

/// The mathematical content of a [`Reaction`].
pub ghost struct ReactionView {
    pub first: Option<PacketView>,
    pub second: Option<PacketView>,
    pub next: Next,
}

/// The view of a packet that may be there.
pub open spec fn packet_view(p: Option<Packet<'_>>) -> Option<PacketView> {
    match p {
        Some(p) => Some(p@),
        None => None,
    }
}

impl<'a> View for Reaction<'a> {
    type V = ReactionView;

    open spec fn view(&self) -> ReactionView {
        ReactionView {
            first: packet_view(self.first),
            second: packet_view(self.second),
            next: self.next,
        }
    }
}

impl ReactionView {
    /// Send nothing and go on.
    pub open spec fn nothing() -> ReactionView {
        ReactionView { first: None, second: None, next: Next::Continue }
    }

    /// Send one packet.
    pub open spec fn one(p: PacketView, next: Next) -> ReactionView {
        ReactionView { first: Some(p), second: None, next }
    }

    /// Send two packets and go on.
    pub open spec fn two(p: PacketView, q: PacketView) -> ReactionView {
        ReactionView { first: Some(p), second: Some(q), next: Next::Continue }
    }
}

/// The view of what `react` and `on_frame` return.
pub open spec fn reaction_outcome(r: Result<Reaction<'_>, NetStackErrors>) -> Result<
    ReactionView,
    NetStackErrors,
> {
    match r {
        Ok(reaction) => Ok(reaction@),
        Err(e) => Err(e),
    }
}

/// What the node `stack` does on a decoded packet.
///
/// - ARP: a request is answered with the node's own addresses. Any other
///   ARP packet is an error: it cannot be replied to.
/// - UDP: the datagram whose payload is the ping is answered with the pong,
///   and the loop ends. Any other datagram is ignored.
/// - TCP: a closing segment gets its two answers, a connection request is
///   accepted, a bare acknowledgement gets no answer, and a segment with data
///   gets what `spec_receive_tcp` says.
/// - Anything else is ignored.
pub open spec fn spec_react(stack: LoseStack, packet: PacketView, service: ServiceView) -> Result<
    ReactionView,
    NetStackErrors,
> {
    match packet {
        PacketView::ARP(p) => if p.rtype == ArpType::Request {
            Ok(ReactionView::one(PacketView::ARP(p.spec_reply(stack.ip, stack.mac)), Next::Continue))
        } else {
            Err(NetStackErrors::NotRequiredReplyArp)
        },
        PacketView::UDP(p) => if p.data_len <= p.data.len() && p.payload() == service.ping {
            Ok(ReactionView::one(PacketView::UDP(p.reply(service.pong)), Next::Stop))
        } else {
            Ok(ReactionView::nothing())
        },
        PacketView::TCP(p) => match p.event() {
            TcpEvent::Connect => Ok(
                ReactionView::one(PacketView::TCP(p.spec_syn_ack()), Next::Continue),
            ),
            TcpEvent::Close => Ok(
                ReactionView::two(
                    PacketView::TCP(p.spec_close_ack()),
                    PacketView::TCP(p.spec_close_fin()),
                ),
            ),
            TcpEvent::Acknowledged => Ok(ReactionView::nothing()),
            TcpEvent::Data => {
                let (answer, shutdown) = spec_receive_tcp(p, service.page);
                Ok(
                    ReactionView::one(
                        PacketView::TCP(answer),
                        if shutdown {
                            Next::Shutdown
                        } else {
                            Next::Continue
                        },
                    ),
                )
            },
        },
        _ => Ok(ReactionView::nothing()),
    }
}

/// What the node `stack` does on a received frame: a frame that does not
/// decode is an error and gets no answer; any other is treated by its packet.
pub open spec fn spec_on_frame(stack: LoseStack, frame: Seq<u8>, service: ServiceView) -> Result<
    ReactionView,
    NetStackErrors,
> {
    match decode(frame) {
        Ok(packet) => spec_react(stack, packet, service),
        Err(e) => Err(e),
    }
}

/// What a node sends on the two kinds of TCP segment that open and close a
/// connection: on FIN the acknowledgement and then its own FIN, in this
/// order; on SYN without ACK and without FIN the SYN+ACK that accepts. In both
/// cases the loop goes on.
pub proof fn lemma_react_to_control(stack: LoseStack, p: TcpSegment, service: ServiceView)
    ensures
        p.flags.spec_contains(TcpFlags::spec_fin()) ==> spec_react(
            stack,
            PacketView::TCP(p),
            service,
        ) == Ok::<ReactionView, NetStackErrors>(
            ReactionView {
                first: Some(PacketView::TCP(p.spec_close_ack())),
                second: Some(PacketView::TCP(p.spec_close_fin())),
                next: Next::Continue,
            },
        ),
        p.flags.spec_contains(TcpFlags::spec_syn()) && !p.flags.spec_contains(
            TcpFlags::spec_ack(),
        ) && !p.flags.spec_contains(TcpFlags::spec_fin()) ==> spec_react(
            stack,
            PacketView::TCP(p),
            service,
        ) == Ok::<ReactionView, NetStackErrors>(
            ReactionView {
                first: Some(PacketView::TCP(p.spec_syn_ack())),
                second: None,
                next: Next::Continue,
            },
        ),
{
}

impl LoseStack {
    /// Decides what to do on a decoded packet.
    pub fn react<'a>(&self, packet: &Packet<'a>, service: &Service<'a>) -> (r: Result<
        Reaction<'a>,
        NetStackErrors,
    >)
        ensures
            reaction_outcome(r) == spec_react(*self, packet@, service@),
    {
        match packet {
            Packet::ARP(arp_packet) => {
                match arp_packet.reply_packet(self.ip, self.mac) {
                    Ok(reply_packet) => Ok(
                        Reaction {
                            first: Some(Packet::ARP(reply_packet)),
                            second: None,
                            next: Next::Continue,
                        },
                    ),
                    Err(e) => Err(e),
                }
            },
            Packet::UDP(udp_packet) => {
                if udp_packet.data_len <= udp_packet.data.len() && bytes_eq(
                    udp_packet.payload(),
                    service.ping,
                ) {
                    Ok(
                        Reaction {
                            first: Some(Packet::UDP(udp_packet.reply(service.pong))),
                            second: None,
                            next: Next::Stop,
                        },
                    )
                } else {
                    Ok(Reaction { first: None, second: None, next: Next::Continue })
                }
            },
            Packet::TCP(tcp_packet) => {
                match tcp_packet.event() {
                    TcpEvent::Connect => Ok(
                        Reaction {
                            first: Some(Packet::TCP(tcp_packet.syn_ack())),
                            second: None,
                            next: Next::Continue,
                        },
                    ),
                    TcpEvent::Close => {
                        let (reply_packet, end_packet) = tcp_packet.close();
                        Ok(
                            Reaction {
                                first: Some(Packet::TCP(reply_packet)),
                                second: Some(Packet::TCP(end_packet)),
                                next: Next::Continue,
                            },
                        )
                    },
                    TcpEvent::Acknowledged => Ok(
                        Reaction { first: None, second: None, next: Next::Continue },
                    ),
                    TcpEvent::Data => {
                        let answer = receive_tcp(tcp_packet, service.page);
                        Ok(
                            Reaction {
                                first: Some(Packet::TCP(answer.packet)),
                                second: None,
                                next: if answer.shutdown {
                                    Next::Shutdown
                                } else {
                                    Next::Continue
                                },
                            },
                        )
                    },
                }
            },
            _ => Ok(Reaction { first: None, second: None, next: Next::Continue }),
        }
    }

    /// Decodes one received frame and decides what to do.
    pub fn on_frame<'a>(&self, frame: &'a [u8], service: &Service<'a>) -> (r: Result<
        Reaction<'a>,
        NetStackErrors,
    >)
        ensures
            reaction_outcome(r) == spec_on_frame(*self, frame@, service@),
    {
        match self.analysis(frame) {
            Ok(packet) => self.react(&packet, service),
            Err(e) => Err(e),
        }
    }
}

} // verus!

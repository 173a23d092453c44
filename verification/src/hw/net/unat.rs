//! Userspace NAT: which packets of the guest open connections on the host, and which are answered.
use vstd::prelude::*;

use crate::bytes::{be32, push_zeros, zeros};
use crate::hw::net::wire::{
    arp_ok, arp_target_start, be16_at, be32_at, ethernet_ok, ipv4_header_len, ipv4_ok, parse_arp,
    parse_ethernet, parse_ipv4, parse_tcp, parse_udp, tcp_ok, udp_ok, ARP_REQUEST, ETHERTYPE_ARP,
    ETHERTYPE_IPV4, PROTOCOL_TCP, PROTOCOL_UDP,
};

verus! {

/// A packet on its way between the guest and the network.
#[derive(Debug)]
pub struct Packet {
    data: Vec<u8>,
}

impl View for Packet {
    type V = Seq<u8>;

    closed spec fn view(&self) -> Seq<u8> {
        self.data@
    }
}

/// A frame filled up with zeros to the minimum length of 60 bytes.
pub open spec fn padded(s: Seq<u8>) -> Seq<u8> {
    if s.len() < 60 {
        s + zeros((60 - s.len()) as nat)
    } else {
        s
    }
}

impl Packet {
    pub fn new(data: Vec<u8>) -> (r: Self)
        ensures
            r@ == data@,
    {
        Packet { data }
    }

    pub fn data(&self) -> (r: &[u8])
        ensures
            r@ == self@,
    {
        self.data.as_slice()
    }

    pub fn pad_to_60(&mut self)
        ensures
            final(self)@ == padded(old(self)@),
    {
        let len: usize = self.data.len();
        if len < 60 {
            push_zeros(&mut self.data, 60 - len);
        }
    }
}

/// The address of the gateway, 10.0.37.1.
pub const GATEWAY_IP: u32 = 0x0a00_2501;

/// Whether an address lies in the network of the guest, 10.0.37.0/24.
pub open spec fn is_local(ip: u32) -> bool {
    ip / 0x100 == 0x0a_0025
}

/// One side of a connection.
#[derive(Copy, Clone, Debug, PartialEq, Eq, Structural, Hash)]
pub struct Endpoint {
    pub addr: u32,
    pub port: u16,
}

/// Both sides of a connection, as the guest sees them.
#[derive(Copy, Clone, Debug, PartialEq, Eq, Structural, Hash)]
pub struct ConnectionIdentifiers {
    pub local: Endpoint,
    pub remote: Endpoint,
}

/// What a packet of the guest needs on the host.
#[derive(Copy, Clone, Debug, PartialEq, Eq, Structural)]
pub enum NatAction {
    /// Nothing.
    Ignore,
    /// A TCP connection.
    EnsureTcp(ConnectionIdentifiers),
    /// A UDP socket.
    EnsureUdp(ConnectionIdentifiers),
}

/// The IPv4 packet in a frame.
pub open spec fn ip_of(frame: Seq<u8>) -> Seq<u8> {
    frame.skip(14)
}

/// What the IPv4 packet in a frame carries.
pub open spec fn ip_payload_of(frame: Seq<u8>) -> Seq<u8> {
    let ip = ip_of(frame);
    ip.subrange(ipv4_header_len(ip), be16_at(ip, 2))
}

/// Whether a frame holds an IPv4 packet that leaves the network of the guest.
pub open spec fn leaves_network(frame: Seq<u8>) -> bool {
    &&& be16_at(frame, 12) == ETHERTYPE_IPV4
    &&& ipv4_ok(ip_of(frame))
    &&& !is_local(be32_at(ip_of(frame), 16) as u32)
}

/// A frame can be inspected: it has a header, and what an IPv4 packet that leaves the network
/// carries is well-formed.
pub open spec fn inspectable(frame: Seq<u8>) -> bool {
    &&& ethernet_ok(frame)
    &&& leaves_network(frame) && ip_of(frame)[9] == PROTOCOL_TCP ==> tcp_ok(ip_payload_of(frame))
    &&& leaves_network(frame) && ip_of(frame)[9] == PROTOCOL_UDP ==> udp_ok(ip_payload_of(frame))
}

/// The two sides of the connection that a frame belongs to.
pub open spec fn connection_of(frame: Seq<u8>) -> ConnectionIdentifiers {
    let ip = ip_of(frame);
    let payload = ip_payload_of(frame);
    ConnectionIdentifiers {
        local: Endpoint { addr: be32_at(ip, 12) as u32, port: be16_at(payload, 0) as u16 },
        remote: Endpoint { addr: be32_at(ip, 16) as u32, port: be16_at(payload, 2) as u16 },
    }
}

/// What a frame needs: a connection for the first segment of a TCP connection, a socket for a UDP
/// datagram that is not for everybody.
pub open spec fn nat_action(frame: Seq<u8>) -> NatAction {
    let payload = ip_payload_of(frame);
    if !leaves_network(frame) {
        NatAction::Ignore
    } else if ip_of(frame)[9] == PROTOCOL_TCP {
        if payload[13] / 2 % 2 == 1 && payload[13] / 16 % 2 == 0 {
            NatAction::EnsureTcp(connection_of(frame))
        } else {
            NatAction::Ignore
        }
    } else if ip_of(frame)[9] == PROTOCOL_UDP {
        if be32_at(ip_of(frame), 16) != 0xffff_ffff {
            NatAction::EnsureUdp(connection_of(frame))
        } else {
            NatAction::Ignore
        }
    } else {
        NatAction::Ignore
    }
}

/// Decides what a packet of the guest needs on the host; `None` if the packet cannot be inspected.
pub fn inspect_packet_for_nat(packet: &Packet) -> (r: Option<NatAction>)
    ensures
        r == (if inspectable(packet@) {
            Some(nat_action(packet@))
        } else {
            None
        }),
{
    let eth = match parse_ethernet(packet.data()) {
        Some(eth) => eth,
        None => {
            return None;
        },
    };
    if eth.ethertype != ETHERTYPE_IPV4 {
        return Some(NatAction::Ignore);
    }
    let ip = match parse_ipv4(eth.payload.as_slice()) {
        Some(ip) => ip,
        None => {
            return Some(NatAction::Ignore);
        },
    };
    if ip.dst / 0x100 == 0x0a_0025 {
        return Some(NatAction::Ignore);
    }
    if ip.protocol == PROTOCOL_TCP {
        match parse_tcp(ip.payload.as_slice()) {
            Some(tcp) => {
                if tcp.syn && !tcp.ack {
                    Some(
                        NatAction::EnsureTcp(
                            ConnectionIdentifiers {
                                local: Endpoint { addr: ip.src, port: tcp.src_port },
                                remote: Endpoint { addr: ip.dst, port: tcp.dst_port },
                            },
                        ),
                    )
                } else {
                    Some(NatAction::Ignore)
                }
            },
            None => None,
        }
    } else if ip.protocol == PROTOCOL_UDP {
        match parse_udp(ip.payload.as_slice()) {
            Some(udp) => {
                if ip.dst != 0xffff_ffff {
                    Some(
                        NatAction::EnsureUdp(
                            ConnectionIdentifiers {
                                local: Endpoint { addr: ip.src, port: udp.src_port },
                                remote: Endpoint { addr: ip.dst, port: udp.dst_port },
                            },
                        ),
                    )
                } else {
                    Some(NatAction::Ignore)
                }
            },
            None => None,
        }
    } else {
        Some(NatAction::Ignore)
    }
}

/// Whether a frame asks for the hardware address of a host of the network other than the gateway.
pub open spec fn asks_for_other_host(frame: Seq<u8>) -> bool {
    let arp = frame.skip(14);
    let start = arp_target_start(arp);
    &&& ethernet_ok(frame)
    &&& be16_at(frame, 12) == ETHERTYPE_ARP
    &&& arp_ok(arp)
    &&& be16_at(arp, 6) == ARP_REQUEST
    &&& arp[5] == 4
    &&& is_local(be32_at(arp, start) as u32)
    &&& be32_at(arp, start) != GATEWAY_IP
}

/// Decides whether a packet of the guest is handed on. Since every address is accepted otherwise,
/// requests for the hardware addresses of other hosts have to be dropped, or they would be
/// answered.
pub fn forwards(packet: &Packet) -> (r: bool)
    ensures
        r == !asks_for_other_host(packet@),
{
    let eth = match parse_ethernet(packet.data()) {
        Some(eth) => eth,
        None => {
            return true;
        },
    };
    if eth.ethertype != ETHERTYPE_ARP {
        return true;
    }
    let arp = match parse_arp(eth.payload.as_slice()) {
        Some(arp) => arp,
        None => {
            return true;
        },
    };
    if arp.operation != ARP_REQUEST || arp.target.len() != 4 {
        return true;
    }
    let target: u32 = be32(arp.target[0], arp.target[1], arp.target[2], arp.target[3]);
    !(target / 0x100 == 0x0a_0025 && target != GATEWAY_IP)
}

/// How a transfer between the two ends of a connection went.
#[derive(Copy, Clone, Debug, PartialEq, Eq, Structural)]
pub enum TransferOutcome {
    /// Bytes were moved.
    Moved(usize),
    /// The other end cannot take or give bytes now.
    WouldBlock,
    /// The connection is broken.
    Failed,
}

/// What to do after a transfer.
#[derive(Copy, Clone, Debug, PartialEq, Eq, Structural)]
pub enum TransferStep {
    /// Try to move more.
    Continue,
    /// Wait for the next event.
    Wait,
    /// Give the connection up.
    Close,
}

/// Decides what to do after a transfer.
pub fn transfer_step(outcome: TransferOutcome) -> (r: TransferStep)
    ensures
        r == (match outcome {
            TransferOutcome::Moved(n) => if n == 0 {
                TransferStep::Wait
            } else {
                TransferStep::Continue
            },
            TransferOutcome::WouldBlock => TransferStep::Wait,
            TransferOutcome::Failed => TransferStep::Close,
        }),
{
    match outcome {
        TransferOutcome::Moved(n) => if n == 0 {
            TransferStep::Wait
        } else {
            TransferStep::Continue
        },
        TransferOutcome::WouldBlock => TransferStep::Wait,
        TransferOutcome::Failed => TransferStep::Close,
    }
}

/// What is known of the host's side of a TCP connection when an event arrives.
#[derive(Copy, Clone, Debug, PartialEq, Eq, Structural)]
pub struct TcpEvent {
    /// The socket reports an error.
    pub error: bool,
    /// The connection was known to be established.
    pub was_ready: bool,
    /// The socket has a peer.
    pub connected: bool,
    /// The connection is still being established.
    pub in_progress: bool,
    pub writable: bool,
    pub readable: bool,
}

/// What to do on an event of a TCP connection. The steps are taken in the order of the fields.
#[derive(Copy, Clone, Debug, PartialEq, Eq, Structural)]
pub struct TcpPlan {
    /// Abort the guest's side.
    pub abort: bool,
    /// Give the connection up at once.
    pub close: bool,
    /// The connection is established from now on.
    pub becomes_ready: bool,
    /// How many times to move bytes of the guest to the host.
    pub writes: u8,
    /// Whether to move bytes of the host to the guest.
    pub reads: bool,
}

/// Decides what to do on an event of a TCP connection.
pub fn tcp_plan(event: TcpEvent) -> (r: TcpPlan)
    ensures
        r.abort == event.error,
        r.close == (event.error || (!event.was_ready && !event.connected && !event.in_progress)),
        r.becomes_ready == (!event.error && !event.was_ready && event.connected),
        ({
            let established = !event.error && (event.was_ready || event.connected);
            &&& r.writes == (if established {
                (if event.was_ready {
                    0int
                } else {
                    1
                }) + (if event.writable {
                    1int
                } else {
                    0
                })
            } else {
                0
            })
            &&& r.reads == (established && event.readable)
        }),
{
    if event.error {
        return TcpPlan {
            abort: true,
            close: true,
            becomes_ready: false,
            writes: 0,
            reads: false,
        };
    }
    if !event.was_ready && !event.connected {
        // Stream is not yet connected, wait for another event.
        return TcpPlan {
            abort: false,
            close: !event.in_progress,
            becomes_ready: false,
            writes: 0,
            reads: false,
        };
    }
    let first: u8 = if event.was_ready {
        0
    } else {
        1
    };
    let second: u8 = if event.writable {
        1
    } else {
        0
    };
    TcpPlan {
        abort: false,
        close: false,
        becomes_ready: !event.was_ready,
        writes: first + second,
        reads: event.readable,
    }
}

/// Packets within the network of the guest never open a connection on the host, nor does a
/// segment that acknowledges another.
pub proof fn local_packets_open_nothing(frame: Seq<u8>)
    requires
        inspectable(frame),
        be16_at(frame, 12) == ETHERTYPE_IPV4,
        ipv4_ok(ip_of(frame)),
    ensures
        is_local(be32_at(ip_of(frame), 16) as u32) ==> nat_action(frame) == NatAction::Ignore,
        ip_of(frame)[9] == PROTOCOL_TCP && ip_payload_of(frame)[13] / 16 % 2 == 1 ==> nat_action(
            frame,
        ) == NatAction::Ignore,
{
}

/// The four bytes of an address, the highest one first.
pub open spec fn address_bytes(addr: u32) -> Seq<u8> {
    seq![
        (addr / 0x100_0000) as u8,
        (addr / 0x1_0000 % 0x100) as u8,
        (addr / 0x100 % 0x100) as u8,
        (addr % 0x100) as u8,
    ]
}

/// The two bytes of a port or a length, the high one first.
pub open spec fn word_bytes(word: u16) -> Seq<u8> {
    seq![(word / 0x100) as u8, (word % 0x100) as u8]
}

/// An Ethernet frame of the guest with an IPv4 packet from `src` to `dst` in it. `macs` are the two
/// hardware addresses, `id` is what stands between the length and the protocol, `checksum` is that
/// of the header, and `trailer` is what follows the packet.
pub open spec fn ipv4_frame(
    macs: Seq<u8>,
    id: Seq<u8>,
    checksum: Seq<u8>,
    src: u32,
    dst: u32,
    protocol: u8,
    payload: Seq<u8>,
    trailer: Seq<u8>,
) -> Seq<u8> {
    macs + seq![0x08u8, 0x00, 0x45, 0x00] + word_bytes((20 + payload.len()) as u16) + id
        + seq![protocol] + checksum + address_bytes(src) + address_bytes(dst) + payload + trailer
}

/// A TCP segment: ports, numbers, the length of its header, its flags and what follows them.
pub open spec fn tcp_segment(
    from: u16,
    to: u16,
    numbers: Seq<u8>,
    flags: u8,
    rest: Seq<u8>,
) -> Seq<u8> {
    word_bytes(from) + word_bytes(to) + numbers + seq![0x50u8, flags] + rest
}

/// A UDP datagram.
pub open spec fn udp_datagram(from: u16, to: u16, checksum: Seq<u8>, data: Seq<u8>) -> Seq<u8> {
    word_bytes(from) + word_bytes(to) + word_bytes((8 + data.len()) as u16) + checksum + data
}

proof fn lemma_bytes_of_numbers(addr: u32, word: u16)
    ensures
        be32_at(address_bytes(addr), 0) == addr,
        be16_at(word_bytes(word), 0) == word,
{
    let a: int = addr as int / 0x100;
    let b: int = addr as int / 0x1_0000;
    assert(b == a / 0x100);
    assert(addr as int / 0x100_0000 == b / 0x100);
}

/// What the parts of a frame are.
proof fn lemma_frame(
    macs: Seq<u8>,
    id: Seq<u8>,
    checksum: Seq<u8>,
    src: u32,
    dst: u32,
    protocol: u8,
    payload: Seq<u8>,
    trailer: Seq<u8>,
)
    requires
        macs.len() == 12,
        id.len() == 5,
        checksum.len() == 2,
        payload.len() <= 0xffff - 20,
    ensures
        ({
            let frame = ipv4_frame(macs, id, checksum, src, dst, protocol, payload, trailer);
            &&& ethernet_ok(frame)
            &&& be16_at(frame, 12) == ETHERTYPE_IPV4
            &&& ipv4_ok(ip_of(frame))
            &&& be32_at(ip_of(frame), 12) == src
            &&& be32_at(ip_of(frame), 16) == dst
            &&& ip_of(frame)[9] == protocol
            &&& ip_payload_of(frame) == payload
        }),
{
    let frame = ipv4_frame(macs, id, checksum, src, dst, protocol, payload, trailer);
    let ip = ip_of(frame);
    let len: u16 = (20 + payload.len()) as u16;
    lemma_bytes_of_numbers(src, len);
    lemma_bytes_of_numbers(dst, len);
    assert(frame[12] == 8 && frame[13] == 0);
    assert(ip[0] == 0x45);
    assert(ip[2] == word_bytes(len)[0] && ip[3] == word_bytes(len)[1]);
    assert(ip[9] == protocol);
    assert forall|i: int| 0 <= i < 4 implies ip[12 + i] == address_bytes(src)[i] && ip[16 + i]
        == address_bytes(dst)[i] by {}
    assert(be32_at(ip, 12) == be32_at(address_bytes(src), 0)) by {
        assert(ip[12] == address_bytes(src)[0] && ip[13] == address_bytes(src)[1] && ip[14]
            == address_bytes(src)[2] && ip[15] == address_bytes(src)[3]);
    }
    assert(be32_at(ip, 16) == be32_at(address_bytes(dst), 0)) by {
        assert(ip[16] == address_bytes(dst)[0] && ip[17] == address_bytes(dst)[1] && ip[18]
            == address_bytes(dst)[2] && ip[19] == address_bytes(dst)[3]);
    }
    assert(ipv4_header_len(ip) == 20);
    assert(ip.subrange(20, (20 + payload.len()) as int) =~= payload);
}

/// The first segment of a TCP connection of the guest opens a connection on the host, from the
/// address and port that it comes from to the address and port that it goes to, unless it stays in
/// the network 10.0.37.0/24. No other segment opens one.
pub proof fn first_segments_open_connections(
    macs: Seq<u8>,
    id: Seq<u8>,
    checksum: Seq<u8>,
    trailer: Seq<u8>,
    numbers: Seq<u8>,
    flags: u8,
    rest: Seq<u8>,
    s: u32,
    d: u32,
    p: u16,
    q: u16,
)
    requires
        macs.len() == 12,
        id.len() == 5,
        checksum.len() == 2,
        numbers.len() == 8,
        6 <= rest.len() <= 0xffff - 34,
    ensures
        ({
            let segment = tcp_segment(p, q, numbers, flags, rest);
            let frame = ipv4_frame(macs, id, checksum, s, d, 6, segment, trailer);
            let inside = 0x0a00_2500 <= d <= 0x0a00_25ff;
            let (syn, ack) = (flags / 2 % 2 == 1, flags / 16 % 2 == 1);
            &&& inspectable(frame)
            &&& nat_action(frame) == (if !inside && syn && !ack {
                NatAction::EnsureTcp(
                    ConnectionIdentifiers {
                        local: Endpoint { addr: s, port: p },
                        remote: Endpoint { addr: d, port: q },
                    },
                )
            } else {
                NatAction::Ignore
            })
        }),
{
    let segment = tcp_segment(p, q, numbers, flags, rest);
    lemma_frame(macs, id, checksum, s, d, 6, segment, trailer);
    lemma_bytes_of_numbers(s, p);
    lemma_bytes_of_numbers(s, q);
    assert(segment[0] == word_bytes(p)[0] && segment[1] == word_bytes(p)[1]);
    assert(segment[2] == word_bytes(q)[0] && segment[3] == word_bytes(q)[1]);
    assert(segment[12] == 0x50 && segment[13] == flags);
}

/// A datagram of the guest opens a socket on the host, from the address and port that it comes from
/// to the address and port that it goes to, unless it stays in the network 10.0.37.0/24 or is for
/// everybody.
pub proof fn datagrams_open_sockets(
    macs: Seq<u8>,
    id: Seq<u8>,
    checksum: Seq<u8>,
    trailer: Seq<u8>,
    udp_checksum: Seq<u8>,
    data: Seq<u8>,
    s: u32,
    d: u32,
    p: u16,
    q: u16,
)
    requires
        macs.len() == 12,
        id.len() == 5,
        checksum.len() == 2,
        udp_checksum.len() == 2,
        data.len() <= 0xffff - 28,
    ensures
        ({
            let datagram = udp_datagram(p, q, udp_checksum, data);
            let frame = ipv4_frame(macs, id, checksum, s, d, 17, datagram, trailer);
            let inside = 0x0a00_2500 <= d <= 0x0a00_25ff;
            &&& inspectable(frame)
            &&& nat_action(frame) == (if !inside && d != 0xffff_ffff {
                NatAction::EnsureUdp(
                    ConnectionIdentifiers {
                        local: Endpoint { addr: s, port: p },
                        remote: Endpoint { addr: d, port: q },
                    },
                )
            } else {
                NatAction::Ignore
            })
        }),
{
    let datagram = udp_datagram(p, q, udp_checksum, data);
    lemma_frame(macs, id, checksum, s, d, 17, datagram, trailer);
    lemma_bytes_of_numbers(s, p);
    lemma_bytes_of_numbers(s, q);
    lemma_bytes_of_numbers(s, (8 + data.len()) as u16);
    assert(datagram[0] == word_bytes(p)[0] && datagram[1] == word_bytes(p)[1]);
    assert(datagram[2] == word_bytes(q)[0] && datagram[3] == word_bytes(q)[1]);
    assert(datagram[4] == word_bytes((8 + data.len()) as u16)[0] && datagram[5] == word_bytes(
        (8 + data.len()) as u16,
    )[1]);
}

/// A packet of any other protocol, and a frame of any other type, opens nothing.
pub proof fn other_frames_open_nothing(
    macs: Seq<u8>,
    id: Seq<u8>,
    checksum: Seq<u8>,
    src: u32,
    dst: u32,
    protocol: u8,
    payload: Seq<u8>,
    trailer: Seq<u8>,
    frame: Seq<u8>,
)
    requires
        macs.len() == 12,
        id.len() == 5,
        checksum.len() == 2,
        payload.len() <= 0xffff - 20,
        protocol != 6 && protocol != 17,
        frame.len() >= 14,
        frame[12] != 8 || frame[13] != 0,
    ensures
        nat_action(frame) == NatAction::Ignore,
        inspectable(frame),
        nat_action(ipv4_frame(macs, id, checksum, src, dst, protocol, payload, trailer))
            == NatAction::Ignore,
{
    lemma_frame(macs, id, checksum, src, dst, protocol, payload, trailer);
}

/// A request for the hardware address of `target`, behind two hardware addresses and the type of
/// the frame. `sender` are the three addresses before the target's.
pub open spec fn arp_request(macs: Seq<u8>, sender: Seq<u8>, target: u32) -> Seq<u8> {
    macs + seq![0x08u8, 0x06, 0x00, 0x01, 0x08, 0x00, 6, 4, 0x00, 0x01] + sender + address_bytes(
        target,
    )
}

/// Requests for the gateway, 10.0.37.1, and for addresses outside 10.0.37.0/24 are handed on;
/// requests for the other hosts of that network are not.
pub proof fn only_the_gateway_is_asked_for(macs: Seq<u8>, sender: Seq<u8>, target: u32)
    requires
        macs.len() == 12,
        sender.len() == 16,
    ensures
        asks_for_other_host(arp_request(macs, sender, target)) == (0x0a00_2500 <= target
            <= 0x0a00_25ff && target != 0x0a00_2501),
{
    let frame = arp_request(macs, sender, target);
    let arp = frame.skip(14);
    lemma_bytes_of_numbers(target, 0);
    assert(frame[12] == 8 && frame[13] == 6);
    assert(arp[4] == 6 && arp[5] == 4 && arp[6] == 0 && arp[7] == 1);
    assert(arp[24] == address_bytes(target)[0] && arp[25] == address_bytes(target)[1] && arp[26]
        == address_bytes(target)[2] && arp[27] == address_bytes(target)[3]);
}

} // verus!

//! The parts of network packets that the emulator looks at.
use vstd::prelude::*;

use crate::bytes::{from_be16, from_be32};

verus! {

/// An Ethernet frame.
#[derive(Debug)]
pub struct EthernetParts {
    pub dst: [u8; 6],
    pub ethertype: u16,
    pub payload: Vec<u8>,
}

/// An IPv4 packet.
#[derive(Debug)]
pub struct Ipv4Parts {
    pub src: u32,
    pub dst: u32,
    pub protocol: u8,
    pub payload: Vec<u8>,
}

/// A TCP segment.
#[derive(Copy, Clone, Debug, PartialEq, Eq, Structural)]
pub struct TcpParts {
    pub src_port: u16,
    pub dst_port: u16,
    pub syn: bool,
    pub ack: bool,
}

/// A UDP datagram.
#[derive(Copy, Clone, Debug, PartialEq, Eq, Structural)]
pub struct UdpParts {
    pub src_port: u16,
    pub dst_port: u16,
}

/// An ARP packet.
#[derive(Debug)]
pub struct ArpParts {
    pub operation: u16,
    pub target: Vec<u8>,
}

pub const ETHERTYPE_IPV4: u16 = 0x0800;

pub const ETHERTYPE_ARP: u16 = 0x0806;

pub const PROTOCOL_TCP: u8 = 6;

pub const PROTOCOL_UDP: u8 = 17;

pub const ARP_REQUEST: u16 = 1;

/// The two bytes at `at`, the first one the high one.
pub open spec fn be16_at(s: Seq<u8>, at: int) -> int {
    from_be16(s[at], s[at + 1])
}

/// The four bytes at `at`, the first one the highest one.
pub open spec fn be32_at(s: Seq<u8>, at: int) -> int {
    from_be32(s[at], s[at + 1], s[at + 2], s[at + 3])
}

pub open spec fn ethernet_ok(s: Seq<u8>) -> bool {
    s.len() >= 14
}

/// The length of the header of an IPv4 packet.
pub open spec fn ipv4_header_len(s: Seq<u8>) -> int {
    s[0] as int % 16 * 4
}

/// The packet is as long as it says, and its header is no longer than the packet.
pub open spec fn ipv4_ok(s: Seq<u8>) -> bool {
    &&& s.len() >= 20
    &&& s.len() >= ipv4_header_len(s)
    &&& ipv4_header_len(s) <= be16_at(s, 2)
    &&& s.len() >= be16_at(s, 2)
}

pub open spec fn tcp_ok(s: Seq<u8>) -> bool {
    &&& s.len() >= 20
    &&& 20 <= s[12] as int / 16 * 4 <= s.len()
}

pub open spec fn udp_ok(s: Seq<u8>) -> bool {
    &&& s.len() >= 8
    &&& 8 <= be16_at(s, 4) <= s.len()
}

/// Where the target protocol address of an ARP packet starts.
pub open spec fn arp_target_start(s: Seq<u8>) -> int {
    8 + 2 * s[4] + s[5]
}

pub open spec fn arp_ok(s: Seq<u8>) -> bool {
    s.len() >= 8 && s.len() >= arp_target_start(s) + s[5]
}

/// `smoltcp::wire::EthernetFrame::new_checked` takes frames with a whole header of 14 bytes:
/// the destination, the source and the type. `dst_addr`, `ethertype` and `payload` give the first
/// six bytes, the bytes 12 and 13, and what lies behind the header.
#[verifier::external_body]
pub(crate) fn parse_ethernet(data: &[u8]) -> (r: Option<EthernetParts>)
    ensures
        r.is_some() == ethernet_ok(data@),
        r.is_some() ==> {
            &&& r.unwrap().dst@ == data@.take(6)
            &&& r.unwrap().ethertype == be16_at(data@, 12)
            &&& r.unwrap().payload@ == data@.skip(14)
        },
{
    let f = smoltcp::wire::EthernetFrame::new_checked(data).ok()?;
    Some(
        EthernetParts {
            dst: f.dst_addr().0,
            ethertype: f.ethertype().into(),
            payload: f.payload().to_vec(),
        },
    )
}

/// `smoltcp::wire::Ipv4Packet::new_checked` takes packets whose two lengths fit each other and the
/// data. `src_addr`, `dst_addr`, `next_header` and `payload` give the bytes 12 to 15, the bytes 16
/// to 19, byte 9, and what lies between the header and the end of the packet.
#[verifier::external_body]
pub(crate) fn parse_ipv4(data: &[u8]) -> (r: Option<Ipv4Parts>)
    ensures
        r.is_some() == ipv4_ok(data@),
        r.is_some() ==> {
            &&& r.unwrap().src == be32_at(data@, 12)
            &&& r.unwrap().dst == be32_at(data@, 16)
            &&& r.unwrap().protocol == data@[9]
            &&& r.unwrap().payload@ == data@.subrange(ipv4_header_len(data@), be16_at(data@, 2))
        },
{
    let p = smoltcp::wire::Ipv4Packet::new_checked(data).ok()?;
    Some(
        Ipv4Parts {
            src: p.src_addr().into(),
            dst: p.dst_addr().into(),
            protocol: p.next_header().into(),
            payload: p.payload().to_vec(),
        },
    )
}

/// `smoltcp::wire::TcpPacket::new_checked` takes segments with a whole header of at least 20
/// bytes. `src_port`, `dst_port`, `syn` and `ack` give the bytes 0 and 1, the bytes 2 and 3, and
/// the bits 1 and 4 of byte 13.
#[verifier::external_body]
pub(crate) fn parse_tcp(data: &[u8]) -> (r: Option<TcpParts>)
    ensures
        r.is_some() == tcp_ok(data@),
        r.is_some() ==> {
            &&& r.unwrap().src_port == be16_at(data@, 0)
            &&& r.unwrap().dst_port == be16_at(data@, 2)
            &&& r.unwrap().syn == (data@[13] / 2 % 2 == 1)
            &&& r.unwrap().ack == (data@[13] / 16 % 2 == 1)
        },
{
    let t = smoltcp::wire::TcpPacket::new_checked(data).ok()?;
    Some(
        TcpParts {
            src_port: t.src_port(),
            dst_port: t.dst_port(),
            syn: t.syn(),
            ack: t.ack(),
        },
    )
}

/// `smoltcp::wire::UdpPacket::new_checked` takes datagrams whose length field is at least 8 and
/// fits the data. `src_port` and `dst_port` give the bytes 0 and 1, and the bytes 2 and 3.
#[verifier::external_body]
pub(crate) fn parse_udp(data: &[u8]) -> (r: Option<UdpParts>)
    ensures
        r.is_some() == udp_ok(data@),
        r.is_some() ==> {
            &&& r.unwrap().src_port == be16_at(data@, 0)
            &&& r.unwrap().dst_port == be16_at(data@, 2)
        },
{
    let u = smoltcp::wire::UdpPacket::new_checked(data).ok()?;
    Some(UdpParts { src_port: u.src_port(), dst_port: u.dst_port() })
}

/// `smoltcp::wire::ArpPacket::new_checked` takes packets that hold the four addresses whose sizes
/// they announce in the bytes 4 and 5. `operation` and `target_protocol_addr` give the bytes 6 and
/// 7, and the last of the four addresses.
#[verifier::external_body]
pub(crate) fn parse_arp(data: &[u8]) -> (r: Option<ArpParts>)
    ensures
        r.is_some() == arp_ok(data@),
        r.is_some() ==> {
            &&& r.unwrap().operation == be16_at(data@, 6)
            &&& r.unwrap().target@ == data@.subrange(
                arp_target_start(data@),
                arp_target_start(data@) + data@[5],
            )
        },
{
    let a = smoltcp::wire::ArpPacket::new_checked(data).ok()?;
    Some(
        ArpParts { operation: a.operation().into(), target: a.target_protocol_addr().to_vec() },
    )
}

/// A frame for everybody.
pub open spec fn is_broadcast(dst: Seq<u8>) -> bool {
    dst == seq![0xffu8, 0xff, 0xff, 0xff, 0xff, 0xff]
}

/// A frame for a group; everybody is one.
pub open spec fn is_multicast(dst: Seq<u8>) -> bool {
    dst[0] % 2 == 1
}

pub fn broadcast(dst: &[u8; 6]) -> (r: bool)
    ensures
        r == is_broadcast(dst@),
{
    let all = dst[0] == 0xff && dst[1] == 0xff && dst[2] == 0xff && dst[3] == 0xff && dst[4] == 0xff
        && dst[5] == 0xff;
    proof {
        if all {
            assert(dst@ =~= seq![0xffu8, 0xff, 0xff, 0xff, 0xff, 0xff]);
        }
    }
    all
}

pub fn multicast(dst: &[u8; 6]) -> (r: bool)
    ensures
        r == is_multicast(dst@),
{
    dst[0] % 2 == 1
}

} // verus!

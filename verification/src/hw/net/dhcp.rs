//! The DHCP server of the guest's network.
use std::collections::HashMap;

use smoltcp::wire::{DhcpPacket, DhcpRepr, EthernetAddress};
use vstd::prelude::*;

use crate::bytes::{be32, copy_range, from_be32};

verus! {

broadcast use vstd::std_specs::hash::group_hash_axioms;

pub const MESSAGE_DISCOVER: u8 = 1;

pub const MESSAGE_OFFER: u8 = 2;

pub const MESSAGE_REQUEST: u8 = 3;

pub const MESSAGE_ACK: u8 = 5;

pub const MESSAGE_INFORM: u8 = 8;

pub const OPTION_REQUESTED_IP: u8 = 0x32;

/// What a client asks.
#[derive(Debug)]
pub struct DhcpRequest {
    pub message_type: u8,
    pub transaction_id: u32,
    pub mac: [u8; 6],
    pub client_ip: u32,
    pub broadcast: bool,
    pub client_identifier: Option<[u8; 6]>,
    pub parameter_request_list: Option<Vec<u8>>,
}

pub struct DhcpRequestModel {
    pub message_type: u8,
    pub transaction_id: u32,
    pub mac: Seq<u8>,
    pub client_ip: u32,
    pub broadcast: bool,
    pub client_identifier: Option<Seq<u8>>,
    pub parameter_request_list: Option<Seq<u8>>,
}

pub open spec fn view_mac(mac: Option<[u8; 6]>) -> Option<Seq<u8>> {
    match mac {
        Some(m) => Some(m@),
        None => None,
    }
}

pub open spec fn view_list(list: Option<Vec<u8>>) -> Option<Seq<u8>> {
    match list {
        Some(l) => Some(l@),
        None => None,
    }
}

impl View for DhcpRequest {
    type V = DhcpRequestModel;

    open spec fn view(&self) -> DhcpRequestModel {
        DhcpRequestModel {
            message_type: self.message_type,
            transaction_id: self.transaction_id,
            mac: self.mac@,
            client_ip: self.client_ip,
            broadcast: self.broadcast,
            client_identifier: view_mac(self.client_identifier),
            parameter_request_list: view_list(self.parameter_request_list),
        }
    }
}

/// What the server answers.
#[derive(Debug)]
pub struct DhcpReply {
    pub message_type: u8,
    pub transaction_id: u32,
    pub secs: u16,
    pub mac: [u8; 6],
    pub client_ip: u32,
    pub your_ip: u32,
    pub server_ip: u32,
    pub relay_agent_ip: u32,
    pub broadcast: bool,
    pub router: u32,
    pub subnet_mask: u32,
    pub client_identifier: Option<[u8; 6]>,
    pub parameter_request_list: Option<Vec<u8>>,
    pub dns_server: u32,
    pub lease_duration: Option<u32>,
    pub server_identifier: Option<u32>,
    pub requested_ip: Option<u32>,
    pub max_size: Option<u16>,
    pub renew_duration: Option<u32>,
    pub rebind_duration: Option<u32>,
}

pub struct DhcpReplyModel {
    pub message_type: u8,
    pub transaction_id: u32,
    pub secs: u16,
    pub mac: Seq<u8>,
    pub client_ip: u32,
    pub your_ip: u32,
    pub server_ip: u32,
    pub relay_agent_ip: u32,
    pub broadcast: bool,
    pub router: u32,
    pub subnet_mask: u32,
    pub client_identifier: Option<Seq<u8>>,
    pub parameter_request_list: Option<Seq<u8>>,
    pub dns_server: u32,
    pub lease_duration: Option<u32>,
    pub server_identifier: Option<u32>,
    pub requested_ip: Option<u32>,
    pub max_size: Option<u16>,
    pub renew_duration: Option<u32>,
    pub rebind_duration: Option<u32>,
}

impl View for DhcpReply {
    type V = DhcpReplyModel;

    open spec fn view(&self) -> DhcpReplyModel {
        DhcpReplyModel {
            message_type: self.message_type,
            transaction_id: self.transaction_id,
            secs: self.secs,
            mac: self.mac@,
            client_ip: self.client_ip,
            your_ip: self.your_ip,
            server_ip: self.server_ip,
            relay_agent_ip: self.relay_agent_ip,
            broadcast: self.broadcast,
            router: self.router,
            subnet_mask: self.subnet_mask,
            client_identifier: view_mac(self.client_identifier),
            parameter_request_list: view_list(self.parameter_request_list),
            dns_server: self.dns_server,
            lease_duration: self.lease_duration,
            server_identifier: self.server_identifier,
            requested_ip: self.requested_ip,
            max_size: self.max_size,
            renew_duration: self.renew_duration,
            rebind_duration: self.rebind_duration,
        }
    }
}

/// An option of a message: its kind and its data.
#[derive(Debug)]
pub struct DhcpOptionData {
    pub kind: u8,
    pub data: Vec<u8>,
}

/// What `smoltcp::wire::DhcpRepr::parse` makes of a message: nothing if the message is too short
/// for one, and nothing within if it is malformed.
pub uninterp spec fn parsed_request(bytes: Seq<u8>) -> Option<Option<DhcpRequestModel>>;

/// The bytes that `smoltcp::wire::DhcpRepr::emit` writes for an answer.
pub uninterp spec fn emitted_reply(reply: DhcpReplyModel) -> Seq<u8>;

pub open spec fn view_parsed(r: Option<Option<DhcpRequest>>) -> Option<Option<DhcpRequestModel>> {
    match r {
        Some(Some(q)) => Some(Some(q@)),
        Some(None) => Some(None),
        None => None,
    }
}

/// `smoltcp::wire::DhcpPacket::new_checked` and `smoltcp::wire::DhcpRepr::parse`. What they make
/// of a message has a name. A message is too short if it has less than 240 bytes. An option has at most 255 bytes, and so has the list of parameters
/// that a client asks for.
#[verifier::external_body]
fn parse_request(bytes: &[u8]) -> (r: Option<Option<DhcpRequest>>)
    ensures
        view_parsed(r) == parsed_request(bytes@),
        r.is_some() == (bytes@.len() >= 240),
        r matches Some(Some(q)) ==> (q@.parameter_request_list matches Some(l) ==> l.len() <= 255),
{
    let packet = DhcpPacket::new_checked(bytes).ok()?;
    Some(
        DhcpRepr::parse(&packet).ok().map(|q| DhcpRequest {
            message_type: q.message_type.into(),
            transaction_id: q.transaction_id,
            mac: q.client_hardware_address.0,
            client_ip: q.client_ip.into(),
            broadcast: q.broadcast,
            client_identifier: q.client_identifier.map(|a| a.0),
            parameter_request_list: q.parameter_request_list.map(|l| l.to_vec()),
        }),
    )
}

pub open spec fn view_options(options: Seq<DhcpOptionData>) -> Seq<(u8, Seq<u8>)> {
    Seq::new(options.len(), |i: int| (options[i].kind, options[i].data@))
}

/// The options in some bytes, in order: each is its kind, a length and so many bytes of data. A
/// zero in place of a kind is padding. The list ends at 255, or where the bytes do.
pub open spec fn options_in(bytes: Seq<u8>) -> Seq<(u8, Seq<u8>)>
    decreases bytes.len(),
{
    if bytes.len() == 0 || bytes[0] == 0xff {
        Seq::empty()
    } else if bytes[0] == 0 {
        options_in(bytes.skip(1))
    } else if bytes.len() < 2 || bytes.len() < 2 + bytes[1] {
        Seq::empty()
    } else {
        seq![(bytes[0], bytes.subrange(2, 2 + bytes[1]))] + options_in(bytes.skip(2 + bytes[1]))
    }
}

/// `smoltcp::wire::DhcpPacket::options`. It finds the options behind the first 240 bytes, which
/// the message must have.
#[verifier::external_body]
fn parse_options(bytes: &[u8]) -> (r: Vec<DhcpOptionData>)
    requires
        bytes@.len() >= 240,
    ensures
        view_options(r@) == options_in(bytes@.skip(240)),
{
    DhcpPacket::new_unchecked(bytes).options().map(
        |o| DhcpOptionData { kind: o.kind, data: o.data.to_vec() },
    ).collect()
}

/// `smoltcp::wire::DhcpRepr::emit`, into a buffer of the length that
/// `smoltcp::wire::DhcpRepr::buffer_len` gives. The bytes have a name. An option has room for at
/// most 255 bytes.
#[verifier::external_body]
fn emit_fields(
    message_type: u8,
    transaction_id: u32,
    secs: u16,
    mac: [u8; 6],
    client_ip: u32,
    your_ip: u32,
    server_ip: u32,
    relay_agent_ip: u32,
    broadcast: bool,
    router: u32,
    subnet_mask: u32,
    client_identifier: Option<[u8; 6]>,
    parameter_request_list: Option<&[u8]>,
    dns_server: u32,
    lease_duration: Option<u32>,
    server_identifier: Option<u32>,
    requested_ip: Option<u32>,
    max_size: Option<u16>,
    renew_duration: Option<u32>,
    rebind_duration: Option<u32>,
) -> (b: Vec<u8>)
    requires
        parameter_request_list matches Some(l) ==> l@.len() <= 255,
    ensures
        b@ == emitted_reply(
            (DhcpReplyModel {
                message_type,
                transaction_id,
                secs,
                mac: mac@,
                client_ip,
                your_ip,
                server_ip,
                relay_agent_ip,
                broadcast,
                router,
                subnet_mask,
                client_identifier: view_mac(client_identifier),
                parameter_request_list: view_slice(parameter_request_list),
                dns_server,
                lease_duration,
                server_identifier,
                requested_ip,
                max_size,
                renew_duration,
                rebind_duration,
            }),
        ),
{
    let repr = DhcpRepr { message_type: message_type.into(), transaction_id, secs,
        client_hardware_address: EthernetAddress(mac), client_ip: client_ip.into(),
        your_ip: your_ip.into(), server_ip: server_ip.into(), router: Some(router.into()),
        subnet_mask: Some(subnet_mask.into()), relay_agent_ip: relay_agent_ip.into(), broadcast,
        requested_ip: requested_ip.map(Into::into), client_identifier: client_identifier.map(EthernetAddress),
        server_identifier: server_identifier.map(Into::into), parameter_request_list,
        dns_servers: Some([dns_server.into()].into_iter().collect()), max_size,
        lease_duration, renew_duration, rebind_duration, additional_options: &[] };
    let mut b = vec![0; repr.buffer_len()];
    repr.emit(&mut DhcpPacket::new_unchecked(&mut b[..])).unwrap();
    b
}

pub open spec fn view_slice(list: Option<&[u8]>) -> Option<Seq<u8>> {
    match list {
        Some(l) => Some(l@),
        None => None,
    }
}

/// The bytes of an answer.
fn emit_reply(r: &DhcpReply) -> (b: Vec<u8>)
    requires
        r@.parameter_request_list matches Some(l) ==> l.len() <= 255,
    ensures
        b@ == emitted_reply(r@),
{
    let parameter_request_list: Option<&[u8]> = match &r.parameter_request_list {
        Some(l) => Some(l.as_slice()),
        None => None,
    };
    emit_fields(
        r.message_type,
        r.transaction_id,
        r.secs,
        r.mac,
        r.client_ip,
        r.your_ip,
        r.server_ip,
        r.relay_agent_ip,
        r.broadcast,
        r.router,
        r.subnet_mask,
        r.client_identifier,
        parameter_request_list,
        r.dns_server,
        r.lease_duration,
        r.server_identifier,
        r.requested_ip,
        r.max_size,
        r.renew_duration,
        r.rebind_duration,
    )
}

/// A hardware address as a number.
pub open spec fn mac_number(mac: Seq<u8>) -> int {
    from_be32(mac[0], mac[1], mac[2], mac[3]) * 0x1_0000 + mac[4] * 0x100 + mac[5]
}

fn number_of_mac(mac: &[u8; 6]) -> (r: u64)
    ensures
        r == mac_number(mac@),
{
    be32(mac[0], mac[1], mac[2], mac[3]) as u64 * 0x1_0000 + mac[4] as u64 * 0x100 + mac[5] as u64
}

/// Why a message cannot be answered.
#[derive(Copy, Clone, Debug, PartialEq, Eq, Structural)]
pub enum DhcpError {
    /// The message is malformed.
    Malformed,
    /// All addresses are assigned.
    NoAddressLeft,
    /// The address that the client asks for does not have four bytes.
    BadRequestedAddress,
}

/// The addresses that were assigned.
#[derive(Debug)]
pub struct DhcpServer {
    packets_received: usize,
    next_ip: u8,
    assigned_ips: HashMap<u64, u32>,
    server_ip: u32,
    subnet_mask: u32,
    router: u32,
    dns_server: u32,
}

/// The state of the server.
pub struct DhcpModel {
    pub packets_received: int,
    pub next_ip: int,
    pub assigned: Map<u64, u32>,
}

/// The network of the guest, 10.0.37.0.
pub const NETWORK: u32 = 0x0a00_2500;

/// The address of the server and of the router, 10.0.37.1.
pub const SERVER_IP: u32 = 0x0a00_2501;

/// The mask of the network, 255.255.255.0.
pub const SUBNET_MASK: u32 = 0xffff_ff00;

/// The name server that clients are told of, 8.8.8.8.
pub const DNS_SERVER: u32 = 0x0808_0808;

/// The address that a message is answered to.
#[derive(Copy, Clone, Debug, PartialEq, Eq, Structural)]
pub enum Recipient {
    /// Everybody, at the port of the sender.
    Broadcast,
    /// The sender.
    Sender,
}

/// An answer and who it goes to.
#[derive(Debug)]
pub struct DhcpAnswer {
    pub payload: Vec<u8>,
    pub recipient: Recipient,
}

impl View for DhcpServer {
    type V = DhcpModel;

    closed spec fn view(&self) -> DhcpModel {
        DhcpModel {
            packets_received: self.packets_received as int,
            next_ip: self.next_ip as int,
            assigned: self.assigned_ips@,
        }
    }
}

impl DhcpModel {
    /// The address that a client gets: the one that it has, or the next one.
    pub open spec fn ip_for(&self, mac: u64) -> u32 {
        if self.assigned.dom().contains(mac) {
            self.assigned[mac]
        } else {
            (NETWORK + self.next_ip) as u32
        }
    }

    /// Whether a client can get an address.
    pub open spec fn can_allocate(&self, mac: u64) -> bool {
        self.assigned.dom().contains(mac) || self.next_ip < 0xff
    }

    /// The state once a client has an address.
    pub open spec fn allocated(self, mac: u64) -> DhcpModel {
        if self.assigned.dom().contains(mac) {
            self
        } else {
            DhcpModel {
                next_ip: self.next_ip + 1,
                assigned: self.assigned.insert(mac, self.ip_for(mac)),
                ..self
            }
        }
    }

    /// Every assigned address lies behind the first one and before the next one, and no two
    /// clients have the same.
    pub open spec fn wf(&self) -> bool {
        &&& 15 <= self.next_ip <= 0xff
        &&& forall|mac: u64| #[trigger]
            self.assigned.dom().contains(mac) ==> NETWORK + 15 <= self.assigned[mac] < NETWORK
                + self.next_ip
        &&& forall|a: u64, b: u64|
            #![trigger self.assigned[a], self.assigned[b]]
            self.assigned.dom().contains(a) && self.assigned.dom().contains(b) && a != b
                ==> self.assigned[a] != self.assigned[b]
    }

    /// The common part of all answers.
    pub open spec fn reply(request: DhcpRequestModel, your_ip: u32) -> DhcpReplyModel {
        DhcpReplyModel {
            message_type: MESSAGE_ACK,
            transaction_id: request.transaction_id,
            secs: 0,
            mac: request.mac,
            client_ip: 0,
            your_ip,
            server_ip: SERVER_IP,
            relay_agent_ip: 0,
            broadcast: true,
            router: SERVER_IP,
            subnet_mask: SUBNET_MASK,
            client_identifier: Some(request.mac),
            parameter_request_list: request.parameter_request_list,
            dns_server: DNS_SERVER,
            lease_duration: Some(3600),
            server_identifier: Some(SERVER_IP),
            requested_ip: None,
            max_size: None,
            renew_duration: None,
            rebind_duration: None,
        }
    }

    /// What a message is answered. `requested` is the address that the client asks for.
    pub open spec fn answer(&self, request: DhcpRequestModel, requested: Option<Seq<u8>>) -> Result<
        Option<(DhcpReplyModel, Recipient)>,
        DhcpError,
    > {
        let mac = mac_number(request.mac) as u64;
        if request.message_type == MESSAGE_DISCOVER {
            if self.can_allocate(mac) {
                Ok(
                    Some(
                        (
                            DhcpReplyModel {
                                message_type: MESSAGE_OFFER,
                                ..Self::reply(request, self.ip_for(mac))
                            },
                            Recipient::Broadcast,
                        ),
                    ),
                )
            } else {
                Err(DhcpError::NoAddressLeft)
            }
        } else if request.message_type == MESSAGE_REQUEST {
            match requested {
                Some(ip) => if ip.len() == 4 {
                    Ok(
                        Some(
                            (
                                Self::reply(
                                    request,
                                    from_be32(ip[0], ip[1], ip[2], ip[3]) as u32,
                                ),
                                Recipient::Broadcast,
                            ),
                        ),
                    )
                } else {
                    Err(DhcpError::BadRequestedAddress)
                },
                None => if self.can_allocate(mac) {
                    Ok(Some((Self::reply(request, self.ip_for(mac)), Recipient::Broadcast)))
                } else {
                    Err(DhcpError::NoAddressLeft)
                },
            }
        } else if request.message_type == MESSAGE_INFORM {
            Ok(
                Some(
                    (
                        DhcpReplyModel {
                            client_ip: request.client_ip,
                            broadcast: request.broadcast,
                            client_identifier: request.client_identifier,
                            lease_duration: None,
                            ..Self::reply(request, 0)
                        },
                        Recipient::Sender,
                    ),
                ),
            )
        } else {
            Ok(None)
        }
    }

    /// The state after a message was answered.
    pub open spec fn answered(self, request: DhcpRequestModel, requested: Option<Seq<u8>>) -> DhcpModel {
        let mac = mac_number(request.mac) as u64;
        if (request.message_type == MESSAGE_DISCOVER || (request.message_type == MESSAGE_REQUEST
            && requested.is_none())) && self.can_allocate(mac) {
            self.allocated(mac)
        } else {
            self
        }
    }
}

/// Clients keep the addresses that they have, and a new client gets an address that no other has.
pub proof fn addresses_are_unique_and_stable(server: DhcpModel, mac: u64, other: u64)
    requires
        server.wf(),
        server.can_allocate(mac),
    ensures
        server.allocated(mac).wf(),
        server.allocated(mac).assigned[mac] == server.ip_for(mac),
        server.allocated(mac).allocated(mac) == server.allocated(mac),
        server.assigned.dom().contains(other) ==> server.allocated(mac).ip_for(other)
            == server.ip_for(other),
        server.assigned.dom().contains(other) && other != mac ==> server.ip_for(mac)
            != server.ip_for(other),
{
    let after = server.allocated(mac);
    assert forall|m: u64| #[trigger] after.assigned.dom().contains(m) implies NETWORK + 15
        <= after.assigned[m] < NETWORK + after.next_ip by {
        if m != mac {
            assert(server.assigned.dom().contains(m));
        }
    }
    assert forall|a: u64, b: u64|
        #![trigger after.assigned[a], after.assigned[b]]
        after.assigned.dom().contains(a) && after.assigned.dom().contains(b) && a
            != b implies after.assigned[a] != after.assigned[b] by {
        if a != mac || server.assigned.dom().contains(mac) {
            assert(server.assigned.dom().contains(a));
            let x = server.assigned[a];
        }
        if b != mac || server.assigned.dom().contains(mac) {
            assert(server.assigned.dom().contains(b));
            let y = server.assigned[b];
        }
    }
}

/// The data of the first option with the kind, at or behind `n`.
pub open spec fn first_option(options: Seq<(u8, Seq<u8>)>, kind: u8, n: int) -> Option<Seq<u8>>
    decreases options.len() - n,
{
    if n >= options.len() {
        None
    } else if options[n].0 == kind {
        Some(options[n].1)
    } else {
        first_option(options, kind, n + 1)
    }
}

fn find_option(options: &Vec<DhcpOptionData>, kind: u8) -> (r: Option<Vec<u8>>)
    ensures
        view_list(r) == first_option(view_options(options@), kind, 0),
{
    let mut n: usize = 0;
    while n < options.len()
        invariant
            n <= options.len(),
            first_option(view_options(options@), kind, 0) == first_option(
                view_options(options@),
                kind,
                n as int,
            ),
        decreases options.len() - n,
    {
        assert(view_options(options@)[n as int] == (
            options@[n as int].kind,
            options@[n as int].data@,
        ));
        if options[n].kind == kind {
            let data = copy_range(&options[n].data, 0, options[n].data.len());
            assert(data@ =~= options@[n as int].data@);
            return Some(data);
        }
        n = n + 1;
    }
    None
}

pub open spec fn view_answer(r: Result<Option<(DhcpReply, Recipient)>, DhcpError>) -> Result<
    Option<(DhcpReplyModel, Recipient)>,
    DhcpError,
> {
    match r {
        Ok(Some((reply, recipient))) => Ok(Some((reply@, recipient))),
        Ok(None) => Ok(None),
        Err(e) => Err(e),
    }
}

impl DhcpServer {
    /// The server's own addresses are fixed.
    pub closed spec fn inv(&self) -> bool {
        &&& self.server_ip == SERVER_IP
        &&& self.subnet_mask == SUBNET_MASK
        &&& self.router == SERVER_IP
        &&& self.dns_server == DNS_SERVER
    }

    pub open spec fn wf(&self) -> bool {
        self.inv() && self@.wf()
    }

    pub fn new() -> (r: Self)
        ensures
            r.wf(),
            r@ == (DhcpModel { packets_received: 0, next_ip: 15, assigned: Map::empty() }),
    {
        Self {
            packets_received: 0,
            next_ip: 15,
            assigned_ips: HashMap::new(),
            server_ip: SERVER_IP,
            subnet_mask: SUBNET_MASK,
            router: SERVER_IP,
            dns_server: DNS_SERVER,
        }
    }

    /// Gives a client an address, `None` if there is none left.
    fn allocate_ip(&mut self, mac: u64) -> (r: Option<u32>)
        requires
            old(self).wf(),
        ensures
            final(self).wf(),
            r == (if old(self)@.can_allocate(mac) {
                Some(old(self)@.ip_for(mac))
            } else {
                None
            }),
            final(self)@ == (if old(self)@.can_allocate(mac) {
                old(self)@.allocated(mac)
            } else {
                old(self)@
            }),
    {
        proof {
            if self@.can_allocate(mac) {
                addresses_are_unique_and_stable(self@, mac, mac);
            }
        }
        if let Some(ip) = self.assigned_ips.get(&mac) {
            return Some(*ip);
        }
        if self.next_ip == 0xff {
            return None;
        }
        let ip: u32 = NETWORK + self.next_ip as u32;
        self.assigned_ips.insert(mac, ip);
        self.next_ip = self.next_ip + 1;
        Some(ip)
    }

    fn reply(&self, request: &DhcpRequest, your_ip: u32) -> (r: DhcpReply)
        requires
            self.inv(),
        ensures
            r@ == DhcpModel::reply(request@, your_ip),
    {
        let parameter_request_list = match &request.parameter_request_list {
            Some(l) => {
                let copy = copy_range(l, 0, l.len());
                assert(copy@ =~= l@);
                Some(copy)
            },
            None => None,
        };
        DhcpReply {
            message_type: MESSAGE_ACK,
            transaction_id: request.transaction_id,
            secs: 0,
            mac: request.mac,
            client_ip: 0,
            your_ip,
            server_ip: self.server_ip,
            relay_agent_ip: 0,
            broadcast: true,
            router: self.router,
            subnet_mask: self.subnet_mask,
            client_identifier: Some(request.mac),
            parameter_request_list,
            dns_server: self.dns_server,
            lease_duration: Some(3600),
            server_identifier: Some(self.server_ip),
            requested_ip: None,
            max_size: None,
            renew_duration: None,
            rebind_duration: None,
        }
    }

    /// Answers a message; `requested` is the address that the client asks for.
    pub fn answer(&mut self, request: &DhcpRequest, requested: Option<Vec<u8>>) -> (r: Result<
        Option<(DhcpReply, Recipient)>,
        DhcpError,
    >)
        requires
            old(self).wf(),
        ensures
            final(self).wf(),
            view_answer(r) == old(self)@.answer(request@, view_list(requested)),
            final(self)@ == old(self)@.answered(request@, view_list(requested)),
    {
        let mac: u64 = number_of_mac(&request.mac);
        match request.message_type {
            MESSAGE_DISCOVER => {
                match self.allocate_ip(mac) {
                    Some(your_ip) => {
                        let mut offer = self.reply(request, your_ip);
                        offer.message_type = MESSAGE_OFFER;
                        Ok(Some((offer, Recipient::Broadcast)))
                    },
                    None => Err(DhcpError::NoAddressLeft),
                }
            },
            MESSAGE_REQUEST => {
                let your_ip: u32 = match requested {
                    Some(ip) => {
                        if ip.len() != 4 {
                            return Err(DhcpError::BadRequestedAddress);
                        }
                        be32(ip[0], ip[1], ip[2], ip[3])
                    },
                    None => match self.allocate_ip(mac) {
                        Some(ip) => ip,
                        None => {
                            return Err(DhcpError::NoAddressLeft);
                        },
                    },
                };
                Ok(Some((self.reply(request, your_ip), Recipient::Broadcast)))
            },
            MESSAGE_INFORM => {
                let mut response = self.reply(request, 0);
                response.client_ip = request.client_ip;
                response.broadcast = request.broadcast;
                response.client_identifier = request.client_identifier;
                response.lease_duration = None;
                Ok(Some((response, Recipient::Sender)))
            },
            _ => Ok(None),
        }
    }

    /// Takes a message that arrived. Returns the answer and who it goes to, if there is one.
    pub fn update(&mut self, bytes: &[u8]) -> (r: Result<Option<DhcpAnswer>, DhcpError>)
        requires
            old(self).wf(),
            old(self)@.packets_received < usize::MAX,
        ensures
            final(self).wf(),
            final(self)@.packets_received == old(self)@.packets_received + 1,
            ({
                let counted = DhcpModel {
                    packets_received: old(self)@.packets_received + 1,
                    ..old(self)@
                };
                match parsed_request(bytes@) {
                    None => r.is_ok() && r.unwrap().is_none() && final(self)@ == counted,
                    Some(None) => r.is_err() && r->Err_0 == DhcpError::Malformed && final(self)@
                        == counted,
                    Some(Some(request)) => {
                        let requested = first_option(
                            options_in(bytes@.skip(240)),
                            OPTION_REQUESTED_IP,
                            0,
                        );
                        &&& final(self)@ == counted.answered(request, requested)
                        &&& match counted.answer(request, requested) {
                            Ok(Some((reply, recipient))) => {
                                &&& r.is_ok()
                                &&& r.unwrap().is_some()
                                &&& r.unwrap().unwrap().payload@ == emitted_reply(reply)
                                &&& r.unwrap().unwrap().recipient == recipient
                            },
                            Ok(None) => r.is_ok() && r.unwrap().is_none(),
                            Err(e) => r.is_err() && r->Err_0 == e,
                        }
                    },
                }
            }),
    {
        self.packets_received = self.packets_received + 1;
        match parse_request(bytes) {
            None => Ok(None),
            Some(None) => Err(DhcpError::Malformed),
            Some(Some(request)) => {
                let options = parse_options(bytes);
                let requested = find_option(&options, OPTION_REQUESTED_IP);
                match self.answer(&request, requested) {
                    Ok(Some((reply, recipient))) => {
                        let payload = emit_reply(&reply);
                        Ok(Some(DhcpAnswer { payload, recipient }))
                    },
                    Ok(None) => Ok(None),
                    Err(e) => Err(e),
                }
            },
        }
    }

    pub fn packets_received(&self) -> (r: usize)
        ensures
            r == self@.packets_received,
    {
        self.packets_received
    }
}

/// What all answers hold: the transaction and the hardware address of the client, the server and
/// router 10.0.37.1, which names itself, the mask 255.255.255.0, and nothing that was not asked for.
pub proof fn answers_name_the_network(
    server: DhcpModel,
    request: DhcpRequestModel,
    requested: Option<Seq<u8>>,
)
    ensures
        server.answer(request, requested) matches Ok(Some((reply, to))) ==> {
            &&& reply.transaction_id == request.transaction_id
            &&& reply.mac == request.mac
            &&& reply.server_ip == 0x0a00_2501 && reply.router == 0x0a00_2501
            &&& reply.server_identifier == Some(0x0a00_2501u32)
            &&& reply.subnet_mask == 0xffff_ff00
            &&& reply.parameter_request_list == request.parameter_request_list
            &&& reply.secs == 0 && reply.relay_agent_ip == 0
            &&& reply.requested_ip is None && reply.max_size is None
            &&& request.message_type == 1 ==> reply.message_type == 2 && to == Recipient::Broadcast
                && reply.lease_duration == Some(3600u32)
            &&& request.message_type == 3 ==> reply.message_type == 5 && to == Recipient::Broadcast
                && reply.lease_duration == Some(3600u32)
            &&& request.message_type == 8 ==> reply.message_type == 5 && to == Recipient::Sender
                && reply.your_ip == 0 && reply.client_ip == request.client_ip
                && reply.lease_duration is None
        },
{
}

/// A client is offered an address of the network, from 10.0.37.15 on, and gets the same one when it
/// asks for an address without naming one; if it names one, it gets that one. Other messages are not
/// answered.
pub proof fn clients_get_the_address_they_were_offered(
    server: DhcpModel,
    discover: DhcpRequestModel,
    request: DhcpRequestModel,
    a: u8,
    b: u8,
    c: u8,
    d: u8,
)
    requires
        server.wf(),
        discover.message_type == 1,
        request.message_type == 3,
        discover.mac == request.mac,
        server.next_ip < 0xff,
    ensures
        server.answer(discover, None) matches Ok(Some((offer, _))) && {
            &&& 0x0a00_250f <= offer.your_ip <= 0x0a00_25fe
            &&& server.answered(discover, None).answer(request, None) matches Ok(Some((ack, _)))
                && ack.your_ip == offer.your_ip
        },
        server.answer(request, Some(seq![a, b, c, d])) matches Ok(Some((ack, _))) && ack.your_ip
            == a * 0x100_0000 + b * 0x1_0000 + c * 0x100 + d,
        forall|other: DhcpRequestModel|
            other.message_type != 1 && other.message_type != 3 && other.message_type != 8
                ==> #[trigger] server.answer(other, None) == Ok::<
                Option<(DhcpReplyModel, Recipient)>,
                DhcpError,
            >(None),
{
    let mac = mac_number(discover.mac) as u64;
    addresses_are_unique_and_stable(server, mac, mac);
    let after = server.answered(discover, None);
    assert(after == server.allocated(mac));
    assert(after.assigned.dom().contains(mac));
    if server.assigned.dom().contains(mac) {
        assert(NETWORK + 15 <= server.assigned[mac] < NETWORK + server.next_ip);
    }
}

/// Different hardware addresses are different clients.
pub proof fn addresses_tell_clients_apart(a: Seq<u8>, b: Seq<u8>)
    requires
        a.len() == 6,
        b.len() == 6,
        mac_number(a) == mac_number(b),
    ensures
        a == b,
{
    let (a1, b1): (int, int) = (a[0] * 0x100 + a[1], b[0] * 0x100 + b[1]);
    let (a2, b2): (int, int) = (a1 * 0x100 + a[2], b1 * 0x100 + b[2]);
    let (a3, b3): (int, int) = (a2 * 0x100 + a[3], b2 * 0x100 + b[3]);
    let (a4, b4): (int, int) = (a3 * 0x100 + a[4], b3 * 0x100 + b[4]);
    lemma_last_byte(a4, a[5], b4, b[5]);
    lemma_last_byte(a3, a[4], b3, b[4]);
    lemma_last_byte(a2, a[3], b2, b[3]);
    lemma_last_byte(a1, a[2], b1, b[2]);
    lemma_last_byte(a[0] as int, a[1], b[0] as int, b[1]);
    assert(a =~= b);
}

proof fn lemma_last_byte(above: int, last: u8, other_above: int, other_last: u8)
    requires
        above * 0x100 + last == other_above * 0x100 + other_last,
    ensures
        above == other_above,
        last == other_last,
{
}

} // verus!

//! A server that only relays: it gives every handshake a new address, in order, and never
//! forgets a client.

use vstd::prelude::*;
use crate::addr::{
    ip_string, ip_text, law_offsets_distinct, next_ip, parse_cidr, spec_next_ip, spec_parse_cidr,
    Ipv4Addr, SocketAddr,
};
use crate::config::Config;
use crate::protocol::{dest_ip, get_dest_ip, Packet, PacketView};
use crate::server::{own_ip, ServerError};
use crate::table::{
    has_key, is_at, keys_unique, lemma_put, lookup, place_of, put, Table,
};

verus! {

/// The prefix length of the networks that are fully supported.
pub const FULL_PREFIX: u8 = 24;

/// A client as the server knows it.
#[derive(Debug)]
pub struct BasicClient {
    pub addr: SocketAddr,
    pub last_seen: u64,
}

/// What the server wants done.
#[derive(Debug)]
pub enum BasicAction {
    /// Send a packet to an endpoint.
    Send { to: SocketAddr, packet: Packet },
    /// Hand the datagram that has just come on to an endpoint, byte for byte.
    Forward { to: SocketAddr },
    /// Write an IP packet to the server's own network device.
    WriteTun { data: Vec<u8> },
}

/// The state of the server.
#[derive(Debug)]
pub struct BasicServer {
    token: String,
    cidr: String,
    prefix_len: u8,
    network_ip: Ipv4Addr,
    server_ip: Ipv4Addr,
    /// The offset of the address that the next handshake gets.
    next_offset: u32,
    /// The clients by their virtual addresses.
    peers: Table<Ipv4Addr, BasicClient>,
}

pub struct BasicClientView {
    pub addr: SocketAddr,
    pub last_seen: u64,
}

pub enum BasicActionView {
    Send { to: SocketAddr, packet: PacketView },
    Forward { to: SocketAddr },
    WriteTun { data: Seq<u8> },
}

pub struct BasicServerView {
    pub token: Seq<char>,
    pub cidr: Seq<char>,
    pub prefix_len: u8,
    pub network_ip: Ipv4Addr,
    pub server_ip: Ipv4Addr,
    pub next_offset: u32,
    pub peers: Seq<(Ipv4Addr, BasicClientView)>,
}

impl View for BasicClient {
    type V = BasicClientView;

    open spec fn view(&self) -> BasicClientView {
        BasicClientView { addr: self.addr, last_seen: self.last_seen }
    }
}

impl View for BasicAction {
    type V = BasicActionView;

    open spec fn view(&self) -> BasicActionView {
        match self {
            BasicAction::Send { to, packet } => BasicActionView::Send { to: *to, packet: packet@ },
            BasicAction::Forward { to } => BasicActionView::Forward { to: *to },
            BasicAction::WriteTun { data } => BasicActionView::WriteTun { data: data@ },
        }
    }
}

impl View for BasicServer {
    type V = BasicServerView;

    closed spec fn view(&self) -> BasicServerView {
        BasicServerView {
            token: self.token@,
            cidr: self.cidr@,
            prefix_len: self.prefix_len,
            network_ip: self.network_ip,
            server_ip: self.server_ip,
            next_offset: self.next_offset,
            peers: self.peers@,
        }
    }
}

/// The view of an action, if there is one.
pub open spec fn action_view(action: Option<BasicAction>) -> Option<BasicActionView> {
    match action {
        Some(a) => Some(a@),
        None => None,
    }
}

/// The server that has not heard of any client.
pub open spec fn empty_basic_server(
    token: Seq<char>,
    cidr: Seq<char>,
    network_ip: Ipv4Addr,
    prefix_len: u8,
) -> BasicServerView {
    BasicServerView {
        token,
        cidr,
        prefix_len,
        network_ip,
        server_ip: own_ip(network_ip),
        next_offset: 2,
        peers: Seq::empty(),
    }
}

/// What a handshake with the right token does: it is given the next address, whoever sent it.
pub open spec fn admit_step(s: BasicServerView, addr: SocketAddr, now: u64) -> (
    BasicServerView,
    Option<BasicActionView>,
) {
    let ip = spec_next_ip(s.network_ip, s.next_offset as int);
    (
        BasicServerView {
            next_offset: if s.next_offset == u32::MAX {
                0
            } else {
                (s.next_offset + 1) as u32
            },
            peers: put(s.peers, ip, BasicClientView { addr, last_seen: now }),
            ..s
        },
        Some(
            BasicActionView::Send {
                to: addr,
                packet: PacketView::HandshakeAck { ip: ip_text(ip), cidr: s.cidr },
            },
        ),
    )
}

/// What a packet that came from `addr` at `now` does to the server, and what it makes it do.
pub open spec fn basic_step(
    s: BasicServerView,
    addr: SocketAddr,
    packet: PacketView,
    now: u64,
) -> (BasicServerView, Option<BasicActionView>) {
    match packet {
        PacketView::Handshake { token, .. } => if token == s.token {
            admit_step(s, addr, now)
        } else {
            (s, None)
        },
        PacketView::Data(data) => (
            s,
            match dest_ip(data) {
                Some(dst) => if dst == s.server_ip {
                    Some(BasicActionView::WriteTun { data })
                } else {
                    match lookup(s.peers, dst) {
                        Some(client) => Some(BasicActionView::Forward { to: client.addr }),
                        None => None,
                    }
                },
                None => None,
            },
        ),
        _ => (s, None),
    }
}

/// What an IP packet from the server's own device makes it do.
pub open spec fn basic_tun_action(s: BasicServerView, data: Seq<u8>) -> Option<BasicActionView> {
    match dest_ip(data) {
        Some(dst) => match lookup(s.peers, dst) {
            Some(client) => Some(
                BasicActionView::Send { to: client.addr, packet: PacketView::Data(data) },
            ),
            None => None,
        },
        None => None,
    }
}

impl BasicServer {
    /// No address stands twice among the clients.
    pub open spec fn wf(&self) -> bool {
        keys_unique(self@.peers)
    }

    /// Sets up a server for the virtual network of the configuration. It fails where that
    /// is missing or cannot be read.
    pub fn new(config: &Config) -> (r: Result<BasicServer, ServerError>)
        ensures
            match config.cidr {
                None => r == Err::<BasicServer, ServerError>(ServerError::MissingCidr),
                Some(cidr) => match spec_parse_cidr(cidr@) {
                    Err(e) => r == Err::<BasicServer, ServerError>(ServerError::Cidr(e)),
                    Ok((network_ip, prefix_len)) => {
                        &&& r matches Ok(server)
                        &&& server.wf()
                        &&& server@ == empty_basic_server(
                            config.token@,
                            cidr@,
                            network_ip,
                            prefix_len,
                        )
                    },
                },
            },
    {
        match &config.cidr {
            None => Err(ServerError::MissingCidr),
            Some(cidr) => match parse_cidr(cidr.as_str()) {
                Err(e) => Err(ServerError::Cidr(e)),
                Ok((network_ip, prefix_len)) => Ok(
                    BasicServer {
                        token: config.token.clone(),
                        cidr: cidr.clone(),
                        prefix_len,
                        network_ip,
                        server_ip: next_ip(network_ip, 1),
                        next_offset: 2,
                        peers: Table::new(),
                    },
                ),
            },
        }
    }

    /// Whether addresses are given out as the prefix of the network asks.
    pub fn is_fully_supported(&self) -> (full: bool)
        ensures
            full == (self@.prefix_len == FULL_PREFIX),
    {
        self.prefix_len == FULL_PREFIX
    }

    /// The address of the server in the virtual network.
    pub fn own_address(&self) -> (ip: Ipv4Addr)
        ensures
            ip == self@.server_ip,
    {
        self.server_ip
    }

    /// Takes a packet that came from `addr` at `now`, and says what is to be done.
    pub fn handle_packet(&mut self, addr: SocketAddr, packet: Packet, now: u64) -> (r: Option<
        BasicAction,
    >)
        requires
            old(self).wf(),
        ensures
            final(self).wf(),
            (final(self)@, action_view(r)) == basic_step(old(self)@, addr, packet@, now),
    {
        match packet {
            Packet::Handshake { token, .. } => {
                if token != self.token {
                    return None;
                }
                let ip: Ipv4Addr = next_ip(self.network_ip, self.next_offset);
                self.next_offset = self.next_offset.wrapping_add(1);
                self.peers.insert(ip, BasicClient { addr, last_seen: now });
                Some(
                    BasicAction::Send {
                        to: addr,
                        packet: Packet::HandshakeAck { ip: ip_string(ip), cidr: self.cidr.clone() },
                    },
                )
            },
            Packet::Data(data) => match get_dest_ip(data.as_slice()) {
                Some(dst) => if dst == self.server_ip {
                    Some(BasicAction::WriteTun { data })
                } else {
                    match self.peers.get(&dst) {
                        Some(client) => Some(BasicAction::Forward { to: client.addr }),
                        None => None,
                    }
                },
                None => None,
            },
            _ => None,
        }
    }

    /// Takes an IP packet that the server's own network device hands out.
    pub fn handle_tun(&self, data: Vec<u8>) -> (r: Option<BasicAction>)
        requires
            self.wf(),
        ensures
            action_view(r) == basic_tun_action(self@, data@),
    {
        match get_dest_ip(data.as_slice()) {
            Some(dst) => match self.peers.get(&dst) {
                Some(client) => Some(
                    BasicAction::Send { to: client.addr, packet: Packet::Data(data) },
                ),
                None => None,
            },
            None => None,
        }
    }
}

/// Every address that was given out lies before the next one.
pub open spec fn given_in_order(s: BasicServerView) -> bool {
    &&& keys_unique(s.peers)
    &&& s.next_offset >= 2
    &&& forall|ip: Ipv4Addr| #[trigger]
        has_key(s.peers, ip) ==> exists|offset: int|
            2 <= offset < s.next_offset && ip == #[trigger] spec_next_ip(s.network_ip, offset)
}

/// A server starts out with no address given.
pub proof fn law_basic_server_at_start(
    token: Seq<char>,
    cidr: Seq<char>,
    network_ip: Ipv4Addr,
    prefix_len: u8,
)
    ensures
        given_in_order(empty_basic_server(token, cidr, network_ip, prefix_len)),
{
    let s = empty_basic_server(token, cidr, network_ip, prefix_len);
    assert forall|ip: Ipv4Addr| !has_key(s.peers, ip) by {
        if has_key(s.peers, ip) {
            assert(is_at(s.peers, ip, place_of(s.peers, ip)));
        }
    }
}

/// Whatever the server is sent, every handshake that it admits gets an address that it has given to
/// nobody else, and not its own; all addresses given before stay with their clients; and so it
/// goes on until the offsets are used up.
pub proof fn law_every_handshake_gets_its_own_address(
    s: BasicServerView,
    addr: SocketAddr,
    packet: PacketView,
    now: u64,
    other: Ipv4Addr,
)
    requires
        given_in_order(s),
        s.server_ip == own_ip(s.network_ip),
    ensures
        s.next_offset < u32::MAX || basic_step(s, addr, packet, now).0 == s ==> given_in_order(
            basic_step(s, addr, packet, now).0,
        ),
        !has_key(s.peers, spec_next_ip(s.network_ip, s.next_offset as int)),
        spec_next_ip(s.network_ip, s.next_offset as int) != s.server_ip,
        has_key(s.peers, other) ==> lookup(basic_step(s, addr, packet, now).0.peers, other)
            == lookup(s.peers, other),
{
    lemma_next_is_new(s);
    if basic_step(s, addr, packet, now).0 != s {
        lemma_admit(s, addr, now, other);
    }
}

/// The next address has not been given out, and is not the server's own.
proof fn lemma_next_is_new(s: BasicServerView)
    requires
        given_in_order(s),
    ensures
        !has_key(s.peers, spec_next_ip(s.network_ip, s.next_offset as int)),
        spec_next_ip(s.network_ip, s.next_offset as int) != own_ip(s.network_ip),
{
    let ip = spec_next_ip(s.network_ip, s.next_offset as int);
    law_offsets_distinct(s.network_ip, 1, s.next_offset as int);
    if has_key(s.peers, ip) {
        let offset = choose|offset: int|
            2 <= offset < s.next_offset && ip == #[trigger] spec_next_ip(s.network_ip, offset);
        law_offsets_distinct(s.network_ip, offset, s.next_offset as int);
    }
}

proof fn lemma_admit(s: BasicServerView, addr: SocketAddr, now: u64, other: Ipv4Addr)
    requires
        given_in_order(s),
    ensures
        s.next_offset < u32::MAX ==> given_in_order(admit_step(s, addr, now).0),
        has_key(s.peers, other) ==> lookup(admit_step(s, addr, now).0.peers, other) == lookup(
            s.peers,
            other,
        ),
{
    let ip = spec_next_ip(s.network_ip, s.next_offset as int);
    let after = admit_step(s, addr, now).0;
    let client = BasicClientView { addr, last_seen: now };
    assert(after.network_ip == s.network_ip);
    assert(after.peers == put(s.peers, ip, client));
    lemma_next_is_new(s);
    lemma_put(s.peers, ip, client, other);
    if s.next_offset == u32::MAX {
        return ;
    }
    assert(after.next_offset == s.next_offset + 1);
    assert forall|x: Ipv4Addr| #[trigger] has_key(after.peers, x) implies exists|offset: int|
        2 <= offset < after.next_offset && x == #[trigger] spec_next_ip(
            after.network_ip,
            offset,
        ) by {
        if x == ip {
            let offset = s.next_offset as int;
            assert(2 <= offset < after.next_offset && x == spec_next_ip(after.network_ip, offset));
        } else {
            lemma_put(s.peers, ip, client, x);
            assert(lookup(after.peers, x) is Some);
            assert(has_key(s.peers, x));
            let offset = choose|offset: int|
                2 <= offset < s.next_offset && x == #[trigger] spec_next_ip(s.network_ip, offset);
            assert(2 <= offset < after.next_offset && x == spec_next_ip(after.network_ip, offset));
        }
    }
}

/// The models of what the server keeps and wants done hold all that is in them.
pub proof fn law_basic_views(action: BasicAction, client: BasicClient, none: Option<BasicAction>)
    ensures
        match action {
            BasicAction::Send { to, packet } => action@ matches BasicActionView::Send {
                to: t,
                packet: p,
            } && t == to && p == packet@,
            BasicAction::Forward { to } => action@ matches BasicActionView::Forward { to: t } && t
                == to,
            BasicAction::WriteTun { data } => action@ matches BasicActionView::WriteTun { data: d }
                && d == data@,
        },
        action_view(Some(action)) == Some(action@),
        none is None ==> action_view(none) is None,
        client@.addr == client.addr,
        client@.last_seen == client.last_seen,
{
}

/// A new server knows its token and its network, takes the first address of it, and gives out the
/// second one next.
pub proof fn law_basic_server_setup(
    token: Seq<char>,
    cidr: Seq<char>,
    network_ip: Ipv4Addr,
    prefix_len: u8,
)
    ensures
        ({
            let s = empty_basic_server(token, cidr, network_ip, prefix_len);
            &&& s.token == token
            &&& s.cidr == cidr
            &&& s.prefix_len == prefix_len
            &&& s.network_ip == network_ip
            &&& s.server_ip == spec_next_ip(network_ip, 1)
            &&& s.next_offset == 2
            &&& s.peers.len() == 0
        }),
        FULL_PREFIX == 24,
{
}

/// A handshake with the right token gets the next address, is registered under it where it came
/// from and told so; the one after it gets the address after that. Nobody else is touched. A
/// handshake with another token gets nothing.
pub proof fn law_basic_handshake(
    s: BasicServerView,
    addr: SocketAddr,
    token: Seq<char>,
    client_id: Seq<char>,
    now: u64,
    other: Ipv4Addr,
)
    requires
        keys_unique(s.peers),
    ensures
        ({
            let (after, action) = basic_step(
                s,
                addr,
                PacketView::Handshake { token, client_id },
                now,
            );
            let vip = spec_next_ip(s.network_ip, s.next_offset as int);
            &&& token != s.token ==> after == s && action is None
            &&& token == s.token ==> {
                &&& action matches Some(
                    BasicActionView::Send { to, packet: PacketView::HandshakeAck { ip, cidr } },
                )
                &&& to == addr
                &&& ip == ip_text(vip)
                &&& cidr == s.cidr
                &&& lookup(after.peers, vip) matches Some(client)
                &&& client.addr == addr
                &&& client.last_seen == now
                &&& other != vip ==> lookup(after.peers, other) == lookup(s.peers, other)
                &&& s.next_offset < u32::MAX ==> after.next_offset == s.next_offset + 1
                &&& s.next_offset == u32::MAX ==> after.next_offset == 0
                &&& keys_unique(after.peers)
            }
            &&& after.token == s.token
            &&& after.cidr == s.cidr
            &&& after.prefix_len == s.prefix_len
            &&& after.network_ip == s.network_ip
            &&& after.server_ip == s.server_ip
        }),
{
    lemma_put(
        s.peers,
        spec_next_ip(s.network_ip, s.next_offset as int),
        BasicClientView { addr, last_seen: now },
        other,
    );
}

/// An IP packet for the server goes to its device, one for an address that was given out goes on as
/// it came to whoever has that address, and any other goes nowhere. What the server's own device
/// hands out is sent to whoever has its destination. Nothing of this changes the server, nor does
/// any packet but a handshake.
pub proof fn law_basic_packets(
    s: BasicServerView,
    addr: SocketAddr,
    data: Seq<u8>,
    packet: PacketView,
    now: u64,
)
    ensures
        !(packet is Handshake) ==> basic_step(s, addr, packet, now).0 == s,
        !(packet is Handshake || packet is Data) ==> basic_step(s, addr, packet, now).1 is None,
        match dest_ip(data) {
            Some(dst) => {
                let action = basic_step(s, addr, PacketView::Data(data), now).1;
                let from_device = basic_tun_action(s, data);
                &&& dst == s.server_ip ==> (action matches Some(
                    BasicActionView::WriteTun { data: written },
                ) && written == data)
                &&& dst != s.server_ip ==> match lookup(s.peers, dst) {
                    Some(client) => action matches Some(BasicActionView::Forward { to }) && to
                        == client.addr,
                    None => action is None,
                }
                &&& match lookup(s.peers, dst) {
                    Some(client) => {
                        &&& from_device matches Some(
                            BasicActionView::Send { to, packet: PacketView::Data(sent) },
                        )
                        &&& to == client.addr
                        &&& sent == data
                    },
                    None => from_device is None,
                }
            },
            None => basic_step(s, addr, PacketView::Data(data), now).1 is None && basic_tun_action(
                s,
                data,
            ) is None,
        },
{
}

} // verus!

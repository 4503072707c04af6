//! The messages that nodes exchange.

use vstd::prelude::*;
use crate::addr::{Ipv4Addr, SocketAddr};
use crate::webui::{devices_view, OnlineDevice, OnlineDeviceView};

verus! {

/// A message between a client and the server, or between two clients.
#[allow(inconsistent_fields)]
#[derive(Debug)]
pub enum Packet {
    /// A client asks to be admitted.
    Handshake { token: String, client_id: String },
    /// The server admits a client and gives it an address.
    HandshakeAck { ip: String, cidr: String },
    /// A raw IP packet.
    Data(Vec<u8>),
    Keepalive,
    Error(String),
    /// The server tells of another client. The real address is missing where the message
    /// named none that can be used.
    PeerInfo { peer_vip: String, peer_addr: Option<SocketAddr> },
    /// A client opens its side of a direct connection.
    Punch { vip: String },
    Ping(u64),
    Pong(u64),
    /// A client asks for a direct connection to another one.
    RequestConnect { target_id: String, password: String },
    /// The server tells a client to prepare for a direct connection.
    ChangePort { password: String },
    /// A client has prepared for a direct connection.
    PortChanged { client_id: String },
    /// The server tells a client where to reach its peer.
    ConnectPeer { peer_vip: Ipv4Addr, peer_addr: Ipv4Addr, port: u16, peer_id: String },
    /// A client asks the server to relay between it and another one.
    EnableRelay { src_id: String, target_id: String, vip: String },
    /// The server relays between a client and its peer.
    RelayEnabled { peer_id: String, peer_vip: String },
    RelayLatencyTest { target_id: String, timestamp: u64 },
    RelayLatencyReply { target_id: String, timestamp: u64 },
    DisconnectPeer,
    /// The server tells which clients are online.
    OnlineDevices(Vec<OnlineDevice>),
}

#[allow(inconsistent_fields)]
pub enum PacketView {
    Handshake { token: Seq<char>, client_id: Seq<char> },
    HandshakeAck { ip: Seq<char>, cidr: Seq<char> },
    Data(Seq<u8>),
    Keepalive,
    Error(Seq<char>),
    PeerInfo { peer_vip: Seq<char>, peer_addr: Option<SocketAddr> },
    Punch { vip: Seq<char> },
    Ping(u64),
    Pong(u64),
    RequestConnect { target_id: Seq<char>, password: Seq<char> },
    ChangePort { password: Seq<char> },
    PortChanged { client_id: Seq<char> },
    ConnectPeer { peer_vip: Ipv4Addr, peer_addr: Ipv4Addr, port: u16, peer_id: Seq<char> },
    EnableRelay { src_id: Seq<char>, target_id: Seq<char>, vip: Seq<char> },
    RelayEnabled { peer_id: Seq<char>, peer_vip: Seq<char> },
    RelayLatencyTest { target_id: Seq<char>, timestamp: u64 },
    RelayLatencyReply { target_id: Seq<char>, timestamp: u64 },
    DisconnectPeer,
    OnlineDevices(Seq<OnlineDeviceView>),
}

impl View for Packet {
    type V = PacketView;

    open spec fn view(&self) -> PacketView {
        match self {
            Packet::Handshake { token, client_id } => PacketView::Handshake {
                token: token@,
                client_id: client_id@,
            },
            Packet::HandshakeAck { ip, cidr } => PacketView::HandshakeAck {
                ip: ip@,
                cidr: cidr@,
            },
            Packet::Data(data) => PacketView::Data(data@),
            Packet::Keepalive => PacketView::Keepalive,
            Packet::Error(message) => PacketView::Error(message@),
            Packet::PeerInfo { peer_vip, peer_addr } => PacketView::PeerInfo {
                peer_vip: peer_vip@,
                peer_addr: *peer_addr,
            },
            Packet::Punch { vip } => PacketView::Punch { vip: vip@ },
            Packet::Ping(ts) => PacketView::Ping(*ts),
            Packet::Pong(ts) => PacketView::Pong(*ts),
            Packet::RequestConnect { target_id, password } => PacketView::RequestConnect {
                target_id: target_id@,
                password: password@,
            },
            Packet::ChangePort { password } => PacketView::ChangePort { password: password@ },
            Packet::PortChanged { client_id } => PacketView::PortChanged { client_id: client_id@ },
            Packet::ConnectPeer { peer_vip, peer_addr, port, peer_id } => PacketView::ConnectPeer {
                peer_vip: *peer_vip,
                peer_addr: *peer_addr,
                port: *port,
                peer_id: peer_id@,
            },
            Packet::EnableRelay { src_id, target_id, vip } => PacketView::EnableRelay {
                src_id: src_id@,
                target_id: target_id@,
                vip: vip@,
            },
            Packet::RelayEnabled { peer_id, peer_vip } => PacketView::RelayEnabled {
                peer_id: peer_id@,
                peer_vip: peer_vip@,
            },
            Packet::RelayLatencyTest { target_id, timestamp } => PacketView::RelayLatencyTest {
                target_id: target_id@,
                timestamp: *timestamp,
            },
            Packet::RelayLatencyReply { target_id, timestamp } => PacketView::RelayLatencyReply {
                target_id: target_id@,
                timestamp: *timestamp,
            },
            Packet::DisconnectPeer => PacketView::DisconnectPeer,
            Packet::OnlineDevices(devices) => PacketView::OnlineDevices(devices_view(devices@)),
        }
    }
}

/// The destination of an IPv4 packet: its bytes 16 to 19. Less than a whole header has none.
pub open spec fn dest_ip(packet: Seq<u8>) -> Option<Ipv4Addr> {
    if packet.len() < 20 {
        None
    } else {
        Some(Ipv4Addr { a: packet[16], b: packet[17], c: packet[18], d: packet[19] })
    }
}

pub fn get_dest_ip(packet: &[u8]) -> (ip: Option<Ipv4Addr>)
    ensures
        ip == dest_ip(packet@),
        packet@.len() < 20 ==> ip is None,
        packet@.len() >= 20 ==> {
            &&& ip matches Some(dst)
            &&& packet@[16] == dst.a
            &&& packet@[17] == dst.b
            &&& packet@[18] == dst.c
            &&& packet@[19] == dst.d
        },
{
    if packet.len() < 20 {
        return None;
    }
    Some(Ipv4Addr { a: packet[16], b: packet[17], c: packet[18], d: packet[19] })
}

/// The destination of a packet is what stands in its bytes 16 to 19, however long the packet is and
/// whatever else it holds: an address that is written there is read back, and two packets that
/// agree there have the same destination. A packet that is too short for a header has none.
pub proof fn law_destination_is_where_it_is_written(p: Seq<u8>, q: Seq<u8>, ip: Ipv4Addr)
    ensures
        p.len() >= 20 ==> dest_ip(
            p.update(16, ip.a).update(17, ip.b).update(18, ip.c).update(19, ip.d),
        ) == Some(ip),
        p.len() >= 20 ==> dest_ip(p) is Some,
        p.len() >= 20 && q.len() >= 20 ==> (dest_ip(p) == dest_ip(q) <==> p.subrange(16, 20)
            == q.subrange(16, 20)),
        p.len() < 20 ==> dest_ip(p) is None,
{
    if p.len() >= 20 && q.len() >= 20 {
        assert(forall|s: Seq<u8>, i: int|
            #![trigger s.subrange(16, 20), s[i]]
            s.len() >= 20 && 16 <= i < 20 ==> s.subrange(16, 20)[i - 16] == s[i]);
        if dest_ip(p) == dest_ip(q) {
            assert(p[16] == q[16] && p[17] == q[17] && p[18] == q[18] && p[19] == q[19]);
            assert(p.subrange(16, 20) =~= q.subrange(16, 20));
        }
        if p.subrange(16, 20) == q.subrange(16, 20) {
            assert(p.subrange(16, 20)[0] == q.subrange(16, 20)[0]);
            assert(p.subrange(16, 20)[1] == q.subrange(16, 20)[1]);
            assert(p.subrange(16, 20)[2] == q.subrange(16, 20)[2]);
            assert(p.subrange(16, 20)[3] == q.subrange(16, 20)[3]);
        }
    }
}

/// The model of a packet has the kind of the packet and all that it holds, each under its name.
pub proof fn law_packet_view(p: Packet)
    ensures
        match p {
            Packet::Handshake { token, client_id } => p@ matches PacketView::Handshake {
                token: t,
                client_id: i,
            } && t == token@ && i == client_id@,
            Packet::HandshakeAck { ip, cidr } => p@ matches PacketView::HandshakeAck {
                ip: i,
                cidr: n,
            } && i == ip@ && n == cidr@,
            Packet::Data(data) => p@ matches PacketView::Data(d) && d == data@,
            Packet::Keepalive => p@ is Keepalive,
            Packet::Error(message) => p@ matches PacketView::Error(m) && m == message@,
            Packet::PeerInfo { peer_vip, peer_addr } => p@ matches PacketView::PeerInfo {
                peer_vip: v,
                peer_addr: a,
            } && v == peer_vip@ && a == peer_addr,
            Packet::Punch { vip } => p@ matches PacketView::Punch { vip: v } && v == vip@,
            Packet::Ping(ts) => p@ matches PacketView::Ping(t) && t == ts,
            Packet::Pong(ts) => p@ matches PacketView::Pong(t) && t == ts,
            Packet::RequestConnect { target_id, password } => p@ matches PacketView::RequestConnect {
                target_id: t,
                password: w,
            } && t == target_id@ && w == password@,
            Packet::ChangePort { password } => p@ matches PacketView::ChangePort { password: w } && w
                == password@,
            Packet::PortChanged { client_id } => p@ matches PacketView::PortChanged { client_id: i }
                && i == client_id@,
            Packet::ConnectPeer { peer_vip, peer_addr, port, peer_id } => {
                &&& p@ matches PacketView::ConnectPeer {
                    peer_vip: v,
                    peer_addr: a,
                    port: n,
                    peer_id: i,
                }
                &&& v == peer_vip
                &&& a == peer_addr
                &&& n == port
                &&& i == peer_id@
            },
            Packet::EnableRelay { src_id, target_id, vip } => p@ matches PacketView::EnableRelay {
                src_id: s,
                target_id: t,
                vip: v,
            } && s == src_id@ && t == target_id@ && v == vip@,
            Packet::RelayEnabled { peer_id, peer_vip } => p@ matches PacketView::RelayEnabled {
                peer_id: i,
                peer_vip: v,
            } && i == peer_id@ && v == peer_vip@,
            Packet::RelayLatencyTest { target_id, timestamp } => {
                &&& p@ matches PacketView::RelayLatencyTest { target_id: t, timestamp: n }
                &&& t == target_id@
                &&& n == timestamp
            },
            Packet::RelayLatencyReply { target_id, timestamp } => {
                &&& p@ matches PacketView::RelayLatencyReply { target_id: t, timestamp: n }
                &&& t == target_id@
                &&& n == timestamp
            },
            Packet::DisconnectPeer => p@ is DisconnectPeer,
            Packet::OnlineDevices(devices) => {
                &&& p@ matches PacketView::OnlineDevices(list)
                &&& list.len() == devices@.len()
                &&& forall|i: int| 0 <= i < list.len() ==> #[trigger] list[i] == devices@[i]@
            },
        },
{
}

} // verus!

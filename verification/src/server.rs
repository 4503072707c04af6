//! The server: it admits clients, gives each a virtual address, relays packets between them,
//! and brings pairs of them together for a direct connection.

use vstd::prelude::*;
use crate::addr::{
    ip_string, ip_text, next_ip, parse_cidr, spec_next_ip, spec_parse_cidr, CidrError, Ipv4Addr,
    SocketAddr,
};
use crate::clock::{elapsed_secs, spec_elapsed_secs};
use crate::config::Config;
use crate::protocol::{dest_ip, get_dest_ip, Packet, PacketView};
use crate::table::{keys_unique, lemma_filter_step, lookup, put, Table};
use crate::text::{lex_less, text_less};
use crate::webui::{devices_view, OnlineDevice, OnlineDeviceView};

verus! {

/// After how many seconds of silence a client is dropped.
pub const CLIENT_TIMEOUT_SECS: u64 = 60;

/// After how many seconds a session for a direct connection is dropped.
pub const SESSION_TIMEOUT_SECS: u64 = 300;

/// How many seconds lie between two runs of the clean-up.
pub const CLEAN_INTERVAL_SECS: u64 = 30;

/// How many seconds lie between two announcements of who is online.
pub const ANNOUNCE_INTERVAL_SECS: u64 = 10;

/// The first offset from the network address that is given to a client.
pub const FIRST_OFFSET: u32 = 2;

/// The first offset from the network address that is no longer given to a client.
pub const END_OFFSET: u32 = 254;

/// A client as the server knows it.
#[derive(Debug)]
pub struct ClientInfo {
    /// Where to send what is meant for the client.
    pub addr: SocketAddr,
    /// When the client was last heard of.
    pub last_seen: u64,
    pub client_id: String,
    /// The virtual address of the client.
    pub vip: Ipv4Addr,
}

/// Two clients that are to be connected directly.
#[derive(Debug)]
pub struct NatSession {
    pub peer_one_id: String,
    pub peer_one_addr: SocketAddr,
    pub peer_one_vip: Ipv4Addr,
    pub peer_two_id: String,
    pub peer_two_addr: SocketAddr,
    pub peer_two_vip: Ipv4Addr,
    pub created_at: u64,
}

/// Two clients between which the server relays.
#[derive(Debug)]
pub struct RelaySession {
    pub client_one_id: String,
    pub client_two_id: String,
    pub enabled: bool,
}

/// What the server wants done.
#[derive(Debug)]
pub enum Action {
    /// Send a packet to an endpoint.
    Send { to: SocketAddr, packet: Packet },
    /// Write an IP packet to the server's own network device.
    WriteTun { data: Vec<u8> },
}

/// Why a server cannot be set up.
#[derive(Clone, Copy, Debug, PartialEq, Eq, Structural)]
pub enum ServerError {
    /// The configuration names no virtual network.
    MissingCidr,
    /// The virtual network of the configuration cannot be read.
    Cidr(CidrError),
}

/// The state of the server.
#[derive(Debug)]
pub struct Server {
    token: String,
    cidr: String,
    network_ip: Ipv4Addr,
    server_ip: Ipv4Addr,
    /// The clients by the address that they were heard from.
    peers: Table<SocketAddr, ClientInfo>,
    /// The clients by their identity.
    id_map: Table<String, ClientInfo>,
    nat_sessions: Table<String, NatSession>,
    relay_sessions: Table<String, RelaySession>,
}

pub struct ClientInfoView {
    pub addr: SocketAddr,
    pub last_seen: u64,
    pub client_id: Seq<char>,
    pub vip: Ipv4Addr,
}

pub struct NatSessionView {
    pub peer_one_id: Seq<char>,
    pub peer_one_addr: SocketAddr,
    pub peer_one_vip: Ipv4Addr,
    pub peer_two_id: Seq<char>,
    pub peer_two_addr: SocketAddr,
    pub peer_two_vip: Ipv4Addr,
    pub created_at: u64,
}

pub struct RelaySessionView {
    pub client_one_id: Seq<char>,
    pub client_two_id: Seq<char>,
    pub enabled: bool,
}

pub enum ActionView {
    Send { to: SocketAddr, packet: PacketView },
    WriteTun { data: Seq<u8> },
}

pub struct ServerView {
    pub token: Seq<char>,
    pub cidr: Seq<char>,
    pub network_ip: Ipv4Addr,
    pub server_ip: Ipv4Addr,
    pub peers: Seq<(SocketAddr, ClientInfoView)>,
    pub id_map: Seq<(Seq<char>, ClientInfoView)>,
    pub nat_sessions: Seq<(Seq<char>, NatSessionView)>,
    pub relay_sessions: Seq<(Seq<char>, RelaySessionView)>,
}

impl View for ClientInfo {
    type V = ClientInfoView;

    open spec fn view(&self) -> ClientInfoView {
        ClientInfoView {
            addr: self.addr,
            last_seen: self.last_seen,
            client_id: self.client_id@,
            vip: self.vip,
        }
    }
}

impl View for NatSession {
    type V = NatSessionView;

    open spec fn view(&self) -> NatSessionView {
        NatSessionView {
            peer_one_id: self.peer_one_id@,
            peer_one_addr: self.peer_one_addr,
            peer_one_vip: self.peer_one_vip,
            peer_two_id: self.peer_two_id@,
            peer_two_addr: self.peer_two_addr,
            peer_two_vip: self.peer_two_vip,
            created_at: self.created_at,
        }
    }
}

impl View for RelaySession {
    type V = RelaySessionView;

    open spec fn view(&self) -> RelaySessionView {
        RelaySessionView {
            client_one_id: self.client_one_id@,
            client_two_id: self.client_two_id@,
            enabled: self.enabled,
        }
    }
}

impl View for Action {
    type V = ActionView;

    open spec fn view(&self) -> ActionView {
        match self {
            Action::Send { to, packet } => ActionView::Send { to: *to, packet: packet@ },
            Action::WriteTun { data } => ActionView::WriteTun { data: data@ },
        }
    }
}

impl View for Server {
    type V = ServerView;

    closed spec fn view(&self) -> ServerView {
        ServerView {
            token: self.token@,
            cidr: self.cidr@,
            network_ip: self.network_ip,
            server_ip: self.server_ip,
            peers: self.peers@,
            id_map: self.id_map@,
            nat_sessions: self.nat_sessions@,
            relay_sessions: self.relay_sessions@,
        }
    }
}

/// Whether no key stands twice in a table of the server.
pub open spec fn tables_wf(s: ServerView) -> bool {
    &&& keys_unique(s.peers)
    &&& keys_unique(s.id_map)
    &&& keys_unique(s.nat_sessions)
    &&& keys_unique(s.relay_sessions)
}

/// The views of a list of actions.
pub open spec fn actions_view(actions: Seq<Action>) -> Seq<ActionView> {
    actions.map_values(|a: Action| a@)
}

/// The address of the server itself: the first one of the network.
pub open spec fn own_ip(network_ip: Ipv4Addr) -> Ipv4Addr {
    spec_next_ip(network_ip, 1)
}

/// The server that has not heard of any client.
pub open spec fn empty_server(
    token: Seq<char>,
    cidr: Seq<char>,
    network_ip: Ipv4Addr,
) -> ServerView {
    ServerView {
        token,
        cidr,
        network_ip,
        server_ip: own_ip(network_ip),
        peers: Seq::empty(),
        id_map: Seq::empty(),
        nat_sessions: Seq::empty(),
        relay_sessions: Seq::empty(),
    }
}

/// Whether no client holds the address `ip`.
pub open spec fn is_free(peers: Seq<(SocketAddr, ClientInfoView)>, ip: Ipv4Addr) -> bool {
    forall|i: int| 0 <= i < peers.len() ==> (#[trigger] peers[i]).1.vip != ip
}

/// The first address that no client holds, from the offset `from` on.
pub open spec fn free_ip_from(
    network_ip: Ipv4Addr,
    peers: Seq<(SocketAddr, ClientInfoView)>,
    from: int,
) -> Option<Ipv4Addr>
    decreases END_OFFSET - from,
{
    if from >= END_OFFSET {
        None
    } else if is_free(peers, spec_next_ip(network_ip, from)) {
        Some(spec_next_ip(network_ip, from))
    } else {
        free_ip_from(network_ip, peers, from + 1)
    }
}

/// The address that the next new client gets.
pub open spec fn free_ip(
    network_ip: Ipv4Addr,
    peers: Seq<(SocketAddr, ClientInfoView)>,
) -> Option<Ipv4Addr> {
    free_ip_from(network_ip, peers, FIRST_OFFSET as int)
}

/// The packet that tells of the client `vip` at `addr`.
pub open spec fn peer_info(vip: Ipv4Addr, addr: SocketAddr) -> PacketView {
    PacketView::PeerInfo { peer_vip: ip_text(vip), peer_addr: Some(addr) }
}

/// Whether a client was not heard from the address `addr`.
pub open spec fn not_from(addr: SocketAddr) -> spec_fn((SocketAddr, ClientInfoView)) -> bool {
    |e: (SocketAddr, ClientInfoView)| e.0 != addr
}

/// Tells a client of the new one.
pub open spec fn tell_of(new_addr: SocketAddr, new_ip: Ipv4Addr) -> spec_fn(
    (SocketAddr, ClientInfoView),
) -> ActionView {
    |e: (SocketAddr, ClientInfoView)|
        ActionView::Send { to: e.1.addr, packet: peer_info(new_ip, new_addr) }
}

/// Tells the new client of one that was there before.
pub open spec fn tell_new(new_addr: SocketAddr) -> spec_fn((SocketAddr, ClientInfoView)) -> ActionView {
    |e: (SocketAddr, ClientInfoView)|
        ActionView::Send { to: new_addr, packet: peer_info(e.1.vip, e.0) }
}

/// The entries of clients under other addresses than `addr`. The entry that a client left behind
/// where it was heard from before counts among them, also when `addr` is that client's own.
pub open spec fn others(
    peers: Seq<(SocketAddr, ClientInfoView)>,
    addr: SocketAddr,
) -> Seq<(SocketAddr, ClientInfoView)> {
    peers.filter(not_from(addr))
}

/// Tells everyone who is registered under another address of the new client, and the new client of
/// each of those entries. One that comes again from another address is thereby told of itself, as
/// its former entry still stands.
pub open spec fn broadcast(
    peers: Seq<(SocketAddr, ClientInfoView)>,
    new_addr: SocketAddr,
    new_ip: Ipv4Addr,
) -> Seq<ActionView> {
    others(peers, new_addr).map_values(tell_of(new_addr, new_ip)) + others(
        peers,
        new_addr,
    ).map_values(tell_new(new_addr))
}

/// The clients after the one that was known as `existing` was heard from `addr`.
pub open spec fn moved(
    peers: Seq<(SocketAddr, ClientInfoView)>,
    existing: Option<ClientInfoView>,
    addr: SocketAddr,
    now: u64,
) -> Seq<(SocketAddr, ClientInfoView)> {
    match existing {
        Some(client) => match lookup(peers, client.addr) {
            Some(entry) => put(
                peers,
                client.addr,
                ClientInfoView { addr, last_seen: now, ..entry },
            ),
            None => peers,
        },
        None => peers,
    }
}

/// What a handshake does: a client that shows the right token is registered and gets an
/// address, the one that it has if it is known, else the first free one.
pub open spec fn handshake_step(
    s: ServerView,
    addr: SocketAddr,
    token: Seq<char>,
    client_id: Seq<char>,
    now: u64,
) -> (ServerView, Seq<ActionView>) {
    if token != s.token {
        (s, Seq::empty())
    } else {
        let existing = lookup(s.id_map, client_id);
        let peers = moved(s.peers, existing, addr, now);
        let ip = match existing {
            Some(client) => Some(client.vip),
            None => free_ip(s.network_ip, peers),
        };
        match ip {
            None => (ServerView { peers, ..s }, Seq::empty()),
            Some(vip) => {
                let info = ClientInfoView { addr, last_seen: now, client_id, vip };
                let registered = put(peers, addr, info);
                let ack = PacketView::HandshakeAck { ip: ip_text(vip), cidr: s.cidr };
                (
                    ServerView {
                        peers: registered,
                        id_map: put(s.id_map, client_id, info),
                        ..s
                    },
                    seq![ActionView::Send { to: addr, packet: ack }] + broadcast(
                        registered,
                        addr,
                        vip,
                    ),
                )
            },
        }
    }
}

/// What a heartbeat does: it is answered, and the client that sent it has been heard of.
pub open spec fn ping_step(s: ServerView, addr: SocketAddr, ts: u64, now: u64) -> (
    ServerView,
    Seq<ActionView>,
) {
    let peers = match lookup(s.peers, addr) {
        Some(client) => put(s.peers, addr, ClientInfoView { last_seen: now, ..client }),
        None => s.peers,
    };
    (
        ServerView { peers, ..s },
        seq![ActionView::Send { to: addr, packet: PacketView::Pong(ts) }],
    )
}

/// The identity of the first client that is at `addr`; empty where there is none.
pub open spec fn id_at(id_map: Seq<(Seq<char>, ClientInfoView)>, addr: SocketAddr) -> Seq<char>
    decreases id_map.len(),
{
    if id_map.len() == 0 {
        Seq::empty()
    } else if id_map[0].1.addr == addr {
        id_map[0].0
    } else {
        id_at(id_map.skip(1), addr)
    }
}

/// What a request for a direct connection does: where both clients are known, a session is
/// opened for each of them, and both are told to prepare.
pub open spec fn request_step(
    s: ServerView,
    addr: SocketAddr,
    target_id: Seq<char>,
    password: Seq<char>,
    now: u64,
) -> (ServerView, Seq<ActionView>) {
    let src_id = id_at(s.id_map, addr);
    match (lookup(s.id_map, src_id), lookup(s.id_map, target_id)) {
        (Some(src), Some(target)) => if src_id.len() == 0 {
            (s, Seq::empty())
        } else {
            let session = NatSessionView {
                peer_one_id: src_id,
                peer_one_addr: addr,
                peer_one_vip: src.vip,
                peer_two_id: target_id,
                peer_two_addr: target.addr,
                peer_two_vip: target.vip,
                created_at: now,
            };
            let packet = PacketView::ChangePort { password };
            (
                ServerView {
                    nat_sessions: put(put(s.nat_sessions, src_id, session), target_id, session),
                    ..s
                },
                seq![
                    ActionView::Send { to: addr, packet },
                    ActionView::Send { to: target.addr, packet },
                ],
            )
        },
        _ => (s, Seq::empty()),
    }
}

/// Tells both clients of a session where to reach the other; nothing where one of them is
/// not on IPv4.
pub open spec fn connect_peers(session: NatSessionView) -> Seq<ActionView> {
    match (session.peer_one_addr, session.peer_two_addr) {
        (SocketAddr::V4 { ip: ip1, port: port1 }, SocketAddr::V4 { ip: ip2, port: port2 }) => seq![
            ActionView::Send {
                to: session.peer_one_addr,
                packet: PacketView::ConnectPeer {
                    peer_vip: session.peer_two_vip,
                    peer_addr: ip2,
                    port: port2,
                    peer_id: session.peer_two_id,
                },
            },
            ActionView::Send {
                to: session.peer_two_addr,
                packet: PacketView::ConnectPeer {
                    peer_vip: session.peer_one_vip,
                    peer_addr: ip1,
                    port: port1,
                    peer_id: session.peer_one_id,
                },
            },
        ],
        _ => Seq::empty(),
    }
}

/// The session with its two sides exchanged.
pub open spec fn swapped(session: NatSessionView) -> NatSessionView {
    NatSessionView {
        peer_one_id: session.peer_two_id,
        peer_one_addr: session.peer_two_addr,
        peer_one_vip: session.peer_two_vip,
        peer_two_id: session.peer_one_id,
        peer_two_addr: session.peer_one_addr,
        peer_two_vip: session.peer_one_vip,
        created_at: session.created_at,
    }
}

/// Both sides of a session are told or neither is: both where both are on IPv4, each at its own
/// address. Which side is named first makes no difference to what is sent, only to the order.
pub proof fn law_session_sides_are_equal(session: NatSessionView)
    ensures
        session.peer_one_addr is V4 && session.peer_two_addr is V4 ==> {
            let told = connect_peers(session);
            &&& told.len() == 2
            &&& told[0] matches ActionView::Send { to: to_one, .. }
            &&& told[1] matches ActionView::Send { to: to_two, .. }
            &&& to_one == session.peer_one_addr
            &&& to_two == session.peer_two_addr
            &&& connect_peers(swapped(session)) == seq![told[1], told[0]]
        },
        !(session.peer_one_addr is V4 && session.peer_two_addr is V4) ==> {
            &&& connect_peers(session) == Seq::<ActionView>::empty()
            &&& connect_peers(swapped(session)) == Seq::<ActionView>::empty()
        },
{
    if session.peer_one_addr is V4 && session.peer_two_addr is V4 {
        let told = connect_peers(session);
        assert(connect_peers(swapped(session)) =~= seq![told[1], told[0]]);
    }
}

/// The name that two clients have in common, whichever is named first.
pub open spec fn session_key(id1: Seq<char>, id2: Seq<char>) -> Seq<char> {
    if lex_less(id1, id2) {
        id1 + "_"@ + id2
    } else {
        id2 + "_"@ + id1
    }
}

/// Tells both clients that the server relays between them, where it knows both.
pub open spec fn relay_notices(
    id_map: Seq<(Seq<char>, ClientInfoView)>,
    src_id: Seq<char>,
    target_id: Seq<char>,
    src_vip: Seq<char>,
) -> Seq<ActionView> {
    match (lookup(id_map, src_id), lookup(id_map, target_id)) {
        (Some(src), Some(target)) => seq![
            ActionView::Send {
                to: src.addr,
                packet: PacketView::RelayEnabled {
                    peer_id: target_id,
                    peer_vip: ip_text(target.vip),
                },
            },
            ActionView::Send {
                to: target.addr,
                packet: PacketView::RelayEnabled { peer_id: src_id, peer_vip: src_vip },
            },
        ],
        _ => Seq::empty(),
    }
}

/// What a request to relay does: the pair is recorded, and both are told.
pub open spec fn relay_step(
    s: ServerView,
    src_id: Seq<char>,
    target_id: Seq<char>,
    vip: Seq<char>,
) -> (ServerView, Seq<ActionView>) {
    let session = RelaySessionView {
        client_one_id: src_id,
        client_two_id: target_id,
        enabled: true,
    };
    (
        ServerView {
            relay_sessions: put(s.relay_sessions, session_key(src_id, target_id), session),
            ..s
        },
        relay_notices(s.id_map, src_id, target_id, vip),
    )
}

/// Hands a packet on to the client `target_id`, where it is known.
pub open spec fn forward(
    id_map: Seq<(Seq<char>, ClientInfoView)>,
    target_id: Seq<char>,
    packet: PacketView,
) -> Seq<ActionView> {
    match lookup(id_map, target_id) {
        Some(target) => seq![ActionView::Send { to: target.addr, packet }],
        None => Seq::empty(),
    }
}

/// Where the first client that holds the virtual address `vip` is.
pub open spec fn holder_of(peers: Seq<(SocketAddr, ClientInfoView)>, vip: Ipv4Addr) -> Option<
    SocketAddr,
>
    decreases peers.len(),
{
    if peers.len() == 0 {
        None
    } else if peers[0].1.vip == vip {
        Some(peers[0].1.addr)
    } else {
        holder_of(peers.skip(1), vip)
    }
}

/// Sends an IP packet to the client that holds its destination.
pub open spec fn deliver(peers: Seq<(SocketAddr, ClientInfoView)>, data: Seq<u8>) -> Seq<
    ActionView,
> {
    match dest_ip(data) {
        Some(dst) => match holder_of(peers, dst) {
            Some(to) => seq![ActionView::Send { to, packet: PacketView::Data(data) }],
            None => Seq::empty(),
        },
        None => Seq::empty(),
    }
}

/// What an IP packet from a client does: one for the server goes to its own device, any
/// other to the client that holds its destination.
pub open spec fn data_actions(s: ServerView, data: Seq<u8>) -> Seq<ActionView> {
    if dest_ip(data) == Some(s.server_ip) {
        seq![ActionView::WriteTun { data }]
    } else {
        deliver(s.peers, data)
    }
}

/// What a packet that came from `addr` at `now` does to the server, and what it makes it do.
pub open spec fn packet_step(s: ServerView, addr: SocketAddr, packet: PacketView, now: u64) -> (
    ServerView,
    Seq<ActionView>,
) {
    match packet {
        PacketView::Handshake { token, client_id } => handshake_step(
            s,
            addr,
            token,
            client_id,
            now,
        ),
        PacketView::Ping(ts) => ping_step(s, addr, ts, now),
        PacketView::RequestConnect { target_id, password } => request_step(
            s,
            addr,
            target_id,
            password,
            now,
        ),
        PacketView::PortChanged { client_id } => (
            s,
            match lookup(s.nat_sessions, client_id) {
                Some(session) => connect_peers(session),
                None => Seq::empty(),
            },
        ),
        PacketView::EnableRelay { src_id, target_id, vip } => relay_step(s, src_id, target_id, vip),
        PacketView::RelayLatencyTest { target_id, .. } => (s, forward(s.id_map, target_id, packet)),
        PacketView::RelayLatencyReply { target_id, .. } => (
            s,
            forward(s.id_map, target_id, packet),
        ),
        PacketView::Data(data) => (s, data_actions(s, data)),
        _ => (s, Seq::empty()),
    }
}

/// Whether a client was heard of within the time limit.
pub open spec fn is_active(client: ClientInfoView, now: u64) -> bool {
    spec_elapsed_secs(now, client.last_seen) < CLIENT_TIMEOUT_SECS
}

/// Whether a session is not too old.
pub open spec fn is_current(session: NatSessionView, now: u64) -> bool {
    spec_elapsed_secs(now, session.created_at) < SESSION_TIMEOUT_SECS
}

/// Whether the entry under `addr` is one that has timed out.
pub open spec fn is_dropped(
    peers: Seq<(SocketAddr, ClientInfoView)>,
    addr: SocketAddr,
    now: u64,
) -> bool {
    lookup(peers, addr) matches Some(client) && !is_active(client, now)
}

/// What the clean-up leaves: the clients that are still heard of, and the sessions that are
/// not too old.
pub open spec fn clean_step(s: ServerView, now: u64) -> ServerView {
    ServerView {
        peers: s.peers.filter(|e: (SocketAddr, ClientInfoView)| is_active(e.1, now)),
        id_map: s.id_map.filter(
            |e: (Seq<char>, ClientInfoView)| !is_dropped(s.peers, e.1.addr, now),
        ),
        nat_sessions: s.nat_sessions.filter(
            |e: (Seq<char>, NatSessionView)| is_current(e.1, now),
        ),
        ..s
    }
}

/// The clients that are online, as they are announced.
pub open spec fn online_list(id_map: Seq<(Seq<char>, ClientInfoView)>) -> Seq<OnlineDeviceView> {
    id_map.map_values(
        |e: (Seq<char>, ClientInfoView)|
            OnlineDeviceView { client_id: e.0, vip: ip_text(e.1.vip), is_online: true },
    )
}

/// The announcement of who is online, to every client.
pub open spec fn announcement(id_map: Seq<(Seq<char>, ClientInfoView)>) -> Seq<ActionView> {
    id_map.map_values(
        |e: (Seq<char>, ClientInfoView)|
            ActionView::Send {
                to: e.1.addr,
                packet: PacketView::OnlineDevices(online_list(id_map)),
            },
    )
}

impl ClientInfo {
    fn copy(&self) -> (r: ClientInfo)
        ensures
            r@ == self@,
    {
        ClientInfo {
            addr: self.addr,
            last_seen: self.last_seen,
            client_id: self.client_id.clone(),
            vip: self.vip,
        }
    }

    fn active(&self, now: u64) -> (r: bool)
        ensures
            r == is_active(self@, now),
    {
        elapsed_secs(now, self.last_seen) < CLIENT_TIMEOUT_SECS
    }
}

impl NatSession {
    /// A session between two clients, opened at `now`.
    pub fn new(
        peer_one_id: String,
        peer_one_addr: SocketAddr,
        peer_one_vip: Ipv4Addr,
        peer_two_id: String,
        peer_two_addr: SocketAddr,
        peer_two_vip: Ipv4Addr,
        now: u64,
    ) -> (r: NatSession)
        ensures
            r@ == (NatSessionView {
                peer_one_id: peer_one_id@,
                peer_one_addr,
                peer_one_vip,
                peer_two_id: peer_two_id@,
                peer_two_addr,
                peer_two_vip,
                created_at: now,
            }),
    {
        NatSession {
            peer_one_id,
            peer_one_addr,
            peer_one_vip,
            peer_two_id,
            peer_two_addr,
            peer_two_vip,
            created_at: now,
        }
    }

    fn copy(&self) -> (r: NatSession)
        ensures
            r@ == self@,
    {
        NatSession {
            peer_one_id: self.peer_one_id.clone(),
            peer_one_addr: self.peer_one_addr,
            peer_one_vip: self.peer_one_vip,
            peer_two_id: self.peer_two_id.clone(),
            peer_two_addr: self.peer_two_addr,
            peer_two_vip: self.peer_two_vip,
            created_at: self.created_at,
        }
    }

    fn current(&self, now: u64) -> (r: bool)
        ensures
            r == is_current(self@, now),
    {
        elapsed_secs(now, self.created_at) < SESSION_TIMEOUT_SECS
    }
}

/// The name that two clients have in common, whichever is named first.
pub fn get_session_key(id1: &str, id2: &str) -> (key: String)
    ensures
        key@ == session_key(id1@, id2@),
{
    if text_less(id1, id2) {
        let mut key: String = id1.to_owned();
        key.append("_");
        key.append(id2);
        key
    } else {
        let mut key: String = id2.to_owned();
        key.append("_");
        key.append(id1);
        key
    }
}

/// The first address of the network that no client holds.
fn find_free_ip(network_ip: Ipv4Addr, peers: &Table<SocketAddr, ClientInfo>) -> (ip: Option<
    Ipv4Addr,
>)
    ensures
        ip == free_ip(network_ip, peers@),
{
    let mut offset: u32 = FIRST_OFFSET;
    while offset < END_OFFSET
        invariant
            FIRST_OFFSET <= offset <= END_OFFSET,
            free_ip(network_ip, peers@) == free_ip_from(network_ip, peers@, offset as int),
        decreases END_OFFSET - offset,
    {
        let ip: Ipv4Addr = next_ip(network_ip, offset);
        let mut used: bool = false;
        let mut i: usize = 0;
        while i < peers.len() && !used
            invariant
                i <= peers@.len(),
                !used ==> forall|j: int| 0 <= j < i ==> (#[trigger] peers@[j]).1.vip != ip,
                used ==> !is_free(peers@, ip),
            decreases peers@.len() - i,
        {
            if peers.value_at(i).vip == ip {
                assert(peers@[i as int].1.vip == ip);
                used = true;
            }
            i = i + 1;
        }
        if !used {
            return Some(ip);
        }
        offset = offset + 1;
    }
    None
}

/// The packet that tells of the client `vip` at `addr`.
fn peer_info_packet(vip: Ipv4Addr, addr: SocketAddr) -> (packet: Packet)
    ensures
        packet@ == peer_info(vip, addr),
{
    Packet::PeerInfo { peer_vip: ip_string(vip), peer_addr: Some(addr) }
}

proof fn lemma_actions_push(actions: Seq<Action>, a: Action)
    ensures
        actions_view(actions.push(a)) == actions_view(actions).push(a@),
{
    assert(actions_view(actions.push(a)) =~= actions_view(actions).push(a@));
}

/// Tells everyone who is registered under another address of the new client, and the new client of
/// each of those entries, its own former ones among them.
pub fn broadcast_new_peer(
    peers: &Table<SocketAddr, ClientInfo>,
    new_addr: SocketAddr,
    new_ip: Ipv4Addr,
    actions: &mut Vec<Action>,
)
    ensures
        actions_view(final(actions)@) == actions_view(old(actions)@) + broadcast(
            peers@,
            new_addr,
            new_ip,
        ),
{
    let ghost before = actions_view(actions@);
    let ghost keep = not_from(new_addr);
    let ghost tell = tell_of(new_addr, new_ip);
    let ghost told = tell_new(new_addr);
    let mut i: usize = 0;
    assert(actions_view(actions@) =~= before + peers@.take(0).filter(keep).map_values(tell));
    while i < peers.len()
        invariant
            i <= peers@.len(),
            keep == not_from(new_addr),
            tell == tell_of(new_addr, new_ip),
            actions_view(actions@) == before + peers@.take(i as int).filter(keep).map_values(tell),
        decreases peers@.len() - i,
    {
        let ghost shown = peers@.take(i as int).filter(keep);
        proof {
            lemma_filter_step(peers@, keep, i as int);
        }
        if *peers.key_at(i) != new_addr {
            let action = Action::Send {
                to: peers.value_at(i).addr,
                packet: peer_info_packet(new_ip, new_addr),
            };
            proof {
                lemma_actions_push(actions@, action);
                assert(action@ == tell(peers@[i as int]));
                assert(shown.push(peers@[i as int]).map_values(tell) =~= shown.map_values(
                    tell,
                ).push(action@));
            }
            actions.push(action);
        }
        i = i + 1;
        assert(actions_view(actions@) =~= before + peers@.take(i as int).filter(keep).map_values(
            tell,
        ));
    }
    assert(peers@.take(i as int) =~= peers@);
    let ghost middle = actions_view(actions@);
    i = 0;
    assert(actions_view(actions@) =~= middle + peers@.take(0).filter(keep).map_values(told));
    while i < peers.len()
        invariant
            i <= peers@.len(),
            keep == not_from(new_addr),
            told == tell_new(new_addr),
            actions_view(actions@) == middle + peers@.take(i as int).filter(keep).map_values(told),
        decreases peers@.len() - i,
    {
        let ghost shown = peers@.take(i as int).filter(keep);
        proof {
            lemma_filter_step(peers@, keep, i as int);
        }
        if *peers.key_at(i) != new_addr {
            let action = Action::Send {
                to: new_addr,
                packet: peer_info_packet(peers.value_at(i).vip, *peers.key_at(i)),
            };
            proof {
                lemma_actions_push(actions@, action);
                assert(action@ == told(peers@[i as int]));
                assert(shown.push(peers@[i as int]).map_values(told) =~= shown.map_values(
                    told,
                ).push(action@));
            }
            actions.push(action);
        }
        i = i + 1;
        assert(actions_view(actions@) =~= middle + peers@.take(i as int).filter(keep).map_values(
            told,
        ));
    }
    assert(peers@.take(i as int) =~= peers@);
    assert(actions_view(actions@) =~= before + broadcast(peers@, new_addr, new_ip));
}

/// Where the first client that holds the virtual address `vip` is.
fn find_holder(peers: &Table<SocketAddr, ClientInfo>, vip: Ipv4Addr) -> (to: Option<SocketAddr>)
    ensures
        to == holder_of(peers@, vip),
{
    let mut i: usize = 0;
    assert(peers@.skip(0) =~= peers@);
    while i < peers.len()
        invariant
            i <= peers@.len(),
            holder_of(peers@, vip) == holder_of(peers@.skip(i as int), vip),
        decreases peers@.len() - i,
    {
        assert(peers@.skip(i as int)[0] == peers@[i as int]);
        assert(peers@.skip(i as int).skip(1) =~= peers@.skip(i + 1));
        if peers.value_at(i).vip == vip {
            return Some(peers.value_at(i).addr);
        }
        i = i + 1;
    }
    None
}

/// The identity of the first client that is at `addr`; empty where there is none.
fn find_id(id_map: &Table<String, ClientInfo>, addr: SocketAddr) -> (id: String)
    ensures
        id@ == id_at(id_map@, addr),
{
    let mut i: usize = 0;
    assert(id_map@.skip(0) =~= id_map@);
    while i < id_map.len()
        invariant
            i <= id_map@.len(),
            id_at(id_map@, addr) == id_at(id_map@.skip(i as int), addr),
        decreases id_map@.len() - i,
    {
        assert(id_map@.skip(i as int)[0] == id_map@[i as int]);
        assert(id_map@.skip(i as int).skip(1) =~= id_map@.skip(i + 1));
        if id_map.value_at(i).addr == addr {
            return id_map.key_at(i).clone();
        }
        i = i + 1;
    }
    String::new()
}

/// Tells both clients of a session where to reach the other; neither of them where one is not on
/// IPv4.
pub fn send_connect_peer(session: &NatSession) -> (actions: Vec<Action>)
    ensures
        actions_view(actions@) == connect_peers(session@),
{
    let mut actions: Vec<Action> = Vec::new();
    match (session.peer_one_addr, session.peer_two_addr) {
        (SocketAddr::V4 { ip: ip1, port: port1 }, SocketAddr::V4 { ip: ip2, port: port2 }) => {
            actions.push(
                Action::Send {
                    to: session.peer_one_addr,
                    packet: Packet::ConnectPeer {
                        peer_vip: session.peer_two_vip,
                        peer_addr: ip2,
                        port: port2,
                        peer_id: session.peer_two_id.clone(),
                    },
                },
            );
            actions.push(
                Action::Send {
                    to: session.peer_two_addr,
                    packet: Packet::ConnectPeer {
                        peer_vip: session.peer_one_vip,
                        peer_addr: ip1,
                        port: port1,
                        peer_id: session.peer_one_id.clone(),
                    },
                },
            );
        },
        _ => {},
    }
    assert(actions_view(actions@) =~= connect_peers(session@));
    actions
}

/// Tells both clients that the server relays between them, where it knows both.
pub fn notify_relay_enabled(
    id_map: &Table<String, ClientInfo>,
    src_id: &String,
    target_id: &String,
    src_vip: &String,
) -> (actions: Vec<Action>)
    requires
        id_map.wf(),
    ensures
        actions_view(actions@) == relay_notices(id_map@, src_id@, target_id@, src_vip@),
{
    let mut actions: Vec<Action> = Vec::new();
    match (id_map.get(src_id), id_map.get(target_id)) {
        (Some(src), Some(target)) => {
            actions.push(
                Action::Send {
                    to: src.addr,
                    packet: Packet::RelayEnabled {
                        peer_id: target_id.clone(),
                        peer_vip: ip_string(target.vip),
                    },
                },
            );
            actions.push(
                Action::Send {
                    to: target.addr,
                    packet: Packet::RelayEnabled {
                        peer_id: src_id.clone(),
                        peer_vip: src_vip.clone(),
                    },
                },
            );
        },
        _ => {},
    }
    assert(actions_view(actions@) =~= relay_notices(id_map@, src_id@, target_id@, src_vip@));
    actions
}

/// Tells both sides of a session to prepare for a direct connection.
pub fn notify_change_port(src_addr: SocketAddr, target_addr: SocketAddr, password: String) -> (actions:
    Vec<Action>)
    ensures
        actions_view(actions@) == seq![
            ActionView::Send {
                to: src_addr,
                packet: PacketView::ChangePort { password: password@ },
            },
            ActionView::Send {
                to: target_addr,
                packet: PacketView::ChangePort { password: password@ },
            },
        ],
{
    let mut actions: Vec<Action> = Vec::new();
    actions.push(
        Action::Send { to: src_addr, packet: Packet::ChangePort { password: password.clone() } },
    );
    actions.push(Action::Send { to: target_addr, packet: Packet::ChangePort { password } });
    assert(actions_view(actions@) =~= seq![
        ActionView::Send { to: src_addr, packet: PacketView::ChangePort { password: password@ } },
        ActionView::Send { to: target_addr, packet: PacketView::ChangePort { password: password@ } },
    ]);
    actions
}

impl Server {
    /// No key stands twice in a table of the server.
    pub open spec fn wf(&self) -> bool {
        tables_wf(self@)
    }

    /// Sets up a server for the virtual network of the configuration. It fails where that
    /// is missing or cannot be read.
    pub fn new(config: &Config) -> (r: Result<Server, ServerError>)
        ensures
            match config.cidr {
                None => r == Err::<Server, ServerError>(ServerError::MissingCidr),
                Some(cidr) => match spec_parse_cidr(cidr@) {
                    Err(e) => r == Err::<Server, ServerError>(ServerError::Cidr(e)),
                    Ok((network_ip, _)) => {
                        &&& r matches Ok(server)
                        &&& server.wf()
                        &&& server@ == empty_server(config.token@, cidr@, network_ip)
                    },
                },
            },
    {
        match &config.cidr {
            None => Err(ServerError::MissingCidr),
            Some(cidr) => match parse_cidr(cidr.as_str()) {
                Err(e) => Err(ServerError::Cidr(e)),
                Ok((network_ip, _)) => Ok(
                    Server {
                        token: config.token.clone(),
                        cidr: cidr.clone(),
                        network_ip,
                        server_ip: next_ip(network_ip, 1),
                        peers: Table::new(),
                        id_map: Table::new(),
                        nat_sessions: Table::new(),
                        relay_sessions: Table::new(),
                    },
                ),
            },
        }
    }

    /// The address of the server in the virtual network.
    pub fn own_address(&self) -> (ip: Ipv4Addr)
        ensures
            ip == self@.server_ip,
    {
        self.server_ip
    }

    fn handshake(&mut self, addr: SocketAddr, token: String, client_id: String, now: u64) -> (r: Vec<
        Action,
    >)
        requires
            old(self).wf(),
        ensures
            final(self).wf(),
            (final(self)@, actions_view(r@)) == handshake_step(
                old(self)@,
                addr,
                token@,
                client_id@,
                now,
            ),
    {
        let mut actions: Vec<Action> = Vec::new();
        assert(actions_view(actions@) =~= Seq::empty());
        if token != self.token {
            return actions;
        }
        let ghost existing = lookup(self.id_map@, client_id@);
        let assigned: Option<Ipv4Addr> = match self.id_map.get(&client_id) {
            Some(client) => {
                match self.peers.get(&client.addr) {
                    Some(entry) => {
                        let mut refreshed: ClientInfo = entry.copy();
                        refreshed.addr = addr;
                        refreshed.last_seen = now;
                        let key: SocketAddr = client.addr;
                        let vip: Ipv4Addr = client.vip;
                        self.peers.insert(key, refreshed);
                        Some(vip)
                    },
                    None => Some(client.vip),
                }
            },
            None => None,
        };
        assert(self.peers@ == moved(old(self)@.peers, existing, addr, now));
        let new_ip: Ipv4Addr = match assigned {
            Some(ip) => ip,
            None => match find_free_ip(self.network_ip, &self.peers) {
                Some(ip) => ip,
                None => {
                    return actions;
                },
            },
        };
        let info = ClientInfo { addr, last_seen: now, client_id: client_id.clone(), vip: new_ip };
        self.peers.insert(addr, info.copy());
        self.id_map.insert(client_id, info);
        actions.push(
            Action::Send {
                to: addr,
                packet: Packet::HandshakeAck { ip: ip_string(new_ip), cidr: self.cidr.clone() },
            },
        );
        assert(actions_view(actions@) =~= seq![
            ActionView::Send {
                to: addr,
                packet: PacketView::HandshakeAck { ip: ip_text(new_ip), cidr: self.cidr@ },
            },
        ]);
        broadcast_new_peer(&self.peers, addr, new_ip, &mut actions);
        actions
    }

    fn ping(&mut self, addr: SocketAddr, ts: u64, now: u64) -> (r: Vec<Action>)
        requires
            old(self).wf(),
        ensures
            final(self).wf(),
            (final(self)@, actions_view(r@)) == ping_step(old(self)@, addr, ts, now),
    {
        match self.peers.get(&addr) {
            Some(client) => {
                let mut refreshed: ClientInfo = client.copy();
                refreshed.last_seen = now;
                self.peers.insert(addr, refreshed);
            },
            None => {},
        }
        let mut actions: Vec<Action> = Vec::new();
        actions.push(Action::Send { to: addr, packet: Packet::Pong(ts) });
        assert(actions_view(actions@) =~= seq![
            ActionView::Send { to: addr, packet: PacketView::Pong(ts) },
        ]);
        actions
    }

    fn request_connect(
        &mut self,
        addr: SocketAddr,
        target_id: String,
        password: String,
        now: u64,
    ) -> (r: Vec<Action>)
        requires
            old(self).wf(),
        ensures
            final(self).wf(),
            (final(self)@, actions_view(r@)) == request_step(
                old(self)@,
                addr,
                target_id@,
                password@,
                now,
            ),
    {
        let src_id: String = find_id(&self.id_map, addr);
        if src_id.as_str().is_empty() {
            let none: Vec<Action> = Vec::new();
            assert(actions_view(none@) =~= Seq::empty());
            return none;
        }
        match (self.id_map.get(&src_id), self.id_map.get(&target_id)) {
            (Some(src), Some(target)) => {
                let session = NatSession::new(
                    src_id.clone(),
                    addr,
                    src.vip,
                    target_id.clone(),
                    target.addr,
                    target.vip,
                    now,
                );
                let target_addr: SocketAddr = target.addr;
                self.nat_sessions.insert(src_id, session.copy());
                self.nat_sessions.insert(target_id, session);
                notify_change_port(addr, target_addr, password)
            },
            _ => {
                let none: Vec<Action> = Vec::new();
                assert(actions_view(none@) =~= Seq::empty());
                none
            },
        }
    }

    fn enable_relay(&mut self, src_id: String, target_id: String, vip: String) -> (r: Vec<Action>)
        requires
            old(self).wf(),
        ensures
            final(self).wf(),
            (final(self)@, actions_view(r@)) == relay_step(old(self)@, src_id@, target_id@, vip@),
    {
        let key: String = get_session_key(src_id.as_str(), target_id.as_str());
        let session = RelaySession {
            client_one_id: src_id.clone(),
            client_two_id: target_id.clone(),
            enabled: true,
        };
        self.relay_sessions.insert(key, session);
        notify_relay_enabled(&self.id_map, &src_id, &target_id, &vip)
    }

    fn forward_to(&self, target_id: &String, packet: Packet) -> (r: Vec<Action>)
        requires
            self.wf(),
        ensures
            actions_view(r@) == forward(self@.id_map, target_id@, packet@),
    {
        let mut actions: Vec<Action> = Vec::new();
        match self.id_map.get(target_id) {
            Some(target) => {
                actions.push(Action::Send { to: target.addr, packet });
            },
            None => {},
        }
        assert(actions_view(actions@) =~= forward(self@.id_map, target_id@, packet@));
        actions
    }

    /// Takes an IP packet that the server's own network device hands out: it goes to the client
    /// that holds its destination.
    pub fn handle_tun(&self, data: Vec<u8>) -> (r: Vec<Action>)
        ensures
            actions_view(r@) == deliver(self@.peers, data@),
    {
        let mut actions: Vec<Action> = Vec::new();
        match get_dest_ip(data.as_slice()) {
            Some(dst) => {
                match find_holder(&self.peers, dst) {
                    Some(to) => {
                        actions.push(Action::Send { to, packet: Packet::Data(data) });
                    },
                    None => {},
                }
            },
            None => {},
        }
        assert(actions_view(actions@) =~= deliver(self@.peers, data@));
        actions
    }

    fn data(&self, data: Vec<u8>) -> (r: Vec<Action>)
        ensures
            actions_view(r@) == data_actions(self@, data@),
    {
        if let Some(dst) = get_dest_ip(data.as_slice()) {
            if dst == self.server_ip {
                let mut actions: Vec<Action> = Vec::new();
                actions.push(Action::WriteTun { data });
                assert(actions_view(actions@) =~= data_actions(self@, data@));
                return actions;
            }
        }
        self.handle_tun(data)
    }

    /// Takes a packet that came from `addr` at `now`, and says what is to be done.
    pub fn handle_packet(&mut self, addr: SocketAddr, packet: Packet, now: u64) -> (r: Vec<Action>)
        requires
            old(self).wf(),
        ensures
            final(self).wf(),
            (final(self)@, actions_view(r@)) == packet_step(old(self)@, addr, packet@, now),
    {
        match packet {
            Packet::Handshake { token, client_id } => self.handshake(addr, token, client_id, now),
            Packet::Ping(ts) => self.ping(addr, ts, now),
            Packet::RequestConnect { target_id, password } => self.request_connect(
                addr,
                target_id,
                password,
                now,
            ),
            Packet::PortChanged { client_id } => {
                match self.nat_sessions.get(&client_id) {
                    Some(session) => send_connect_peer(session),
                    None => {
                        let none: Vec<Action> = Vec::new();
                        assert(actions_view(none@) =~= Seq::empty());
                        none
                    },
                }
            },
            Packet::EnableRelay { src_id, target_id, vip } => self.enable_relay(
                src_id,
                target_id,
                vip,
            ),
            Packet::RelayLatencyTest { target_id, timestamp } => {
                let to: String = target_id.clone();
                self.forward_to(&to, Packet::RelayLatencyTest { target_id, timestamp })
            },
            Packet::RelayLatencyReply { target_id, timestamp } => {
                let to: String = target_id.clone();
                self.forward_to(&to, Packet::RelayLatencyReply { target_id, timestamp })
            },
            Packet::Data(data) => self.data(data),
            _ => {
                let none: Vec<Action> = Vec::new();
                assert(actions_view(none@) =~= Seq::empty());
                none
            },
        }
    }

    /// Drops the clients that have not been heard of for too long, whose addresses are free
    /// again, and the sessions that are too old.
    pub fn clean(&mut self, now: u64)
        requires
            old(self).wf(),
        ensures
            final(self).wf(),
            final(self)@ == clean_step(old(self)@, now),
    {
        let ghost start = self@;
        // Identities first: whether they go is told by the entries of their addresses.
        let mut marks: Vec<bool> = Vec::new();
        let mut i: usize = 0;
        while i < self.id_map.len()
            invariant
                self.wf(),
                start.peers == self.peers@,
                i <= self.id_map@.len(),
                marks@.len() == i,
                forall|j: int| 0 <= j < i ==> #[trigger] marks@[j] == !is_dropped(
                    start.peers,
                    self.id_map@[j].1.addr,
                    now,
                ),
            decreases self.id_map@.len() - i,
        {
            let active: bool = match self.peers.get(&self.id_map.value_at(i).addr) {
                Some(entry) => entry.active(now),
                None => true,
            };
            marks.push(active);
            i = i + 1;
        }
        self.id_map.retain(
            &marks,
            Ghost(|e: (Seq<char>, ClientInfoView)| !is_dropped(start.peers, e.1.addr, now)),
        );

        marks = Vec::new();
        i = 0;
        while i < self.peers.len()
            invariant
                self.wf(),
                start.peers == self.peers@,
                i <= self.peers@.len(),
                marks@.len() == i,
                forall|j: int| 0 <= j < i ==> #[trigger] marks@[j] == is_active(self.peers@[j].1, now),
            decreases self.peers@.len() - i,
        {
            marks.push(self.peers.value_at(i).active(now));
            i = i + 1;
        }
        self.peers.retain(&marks, Ghost(|e: (SocketAddr, ClientInfoView)| is_active(e.1, now)));

        marks = Vec::new();
        i = 0;
        while i < self.nat_sessions.len()
            invariant
                self.wf(),
                i <= self.nat_sessions@.len(),
                marks@.len() == i,
                forall|j: int| 0 <= j < i ==> #[trigger] marks@[j] == is_current(
                    self.nat_sessions@[j].1,
                    now,
                ),
            decreases self.nat_sessions@.len() - i,
        {
            marks.push(self.nat_sessions.value_at(i).current(now));
            i = i + 1;
        }
        self.nat_sessions.retain(
            &marks,
            Ghost(|e: (Seq<char>, NatSessionView)| is_current(e.1, now)),
        );
    }

    /// The clients that are online.
    pub fn online_devices(&self) -> (r: Vec<OnlineDevice>)
        ensures
            devices_view(r@) == online_list(self@.id_map),
    {
        let mut devices: Vec<OnlineDevice> = Vec::new();
        let mut i: usize = 0;
        while i < self.id_map.len()
            invariant
                i <= self.id_map@.len(),
                self@.id_map == self.id_map@,
                devices@.len() == i,
                forall|j: int| 0 <= j < i ==> (#[trigger] devices@[j])@ == online_list(
                    self.id_map@,
                )[j],
            decreases self.id_map@.len() - i,
        {
            devices.push(
                OnlineDevice {
                    client_id: self.id_map.key_at(i).clone(),
                    vip: ip_string(self.id_map.value_at(i).vip),
                    is_online: true,
                },
            );
            i = i + 1;
        }
        assert(devices_view(devices@) =~= online_list(self@.id_map));
        devices
    }

    /// Tells every client who is online.
    pub fn announce_online(&self) -> (r: Vec<Action>)
        ensures
            actions_view(r@) == announcement(self@.id_map),
    {
        let mut actions: Vec<Action> = Vec::new();
        let mut i: usize = 0;
        while i < self.id_map.len()
            invariant
                i <= self.id_map@.len(),
                self@.id_map == self.id_map@,
                actions@.len() == i,
                forall|j: int| 0 <= j < i ==> (#[trigger] actions@[j])@ == announcement(
                    self.id_map@,
                )[j],
            decreases self.id_map@.len() - i,
        {
            actions.push(
                Action::Send {
                    to: self.id_map.value_at(i).addr,
                    packet: Packet::OnlineDevices(self.online_devices()),
                },
            );
            i = i + 1;
        }
        assert(actions_view(actions@) =~= announcement(self@.id_map));
        actions
    }
}

} // verus!

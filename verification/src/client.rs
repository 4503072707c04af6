//! A client: it registers with the server, and exchanges packets with its peer directly where
//! a hole can be punched, and through the server where it cannot.

use vstd::prelude::*;
use crate::addr::{ip_string, ip_text, parse_ip, spec_parse_ip, Ipv4Addr, SocketAddr};
use crate::clock::{elapsed_millis, elapsed_secs, spec_elapsed_millis, spec_elapsed_secs};
use crate::protocol::{dest_ip, get_dest_ip, Packet, PacketView};
use crate::table::{keys_unique, lookup, put, Table};
use crate::text::same_text;
use crate::webui::{
    devices_view, ConnectionStatus, ConnectionStatusView, OnlineDevice, OnlineDeviceView,
};

verus! {

/// How many seconds a client waits for the answer to a handshake.
pub const HANDSHAKE_WAIT_SECS: u64 = 2;

/// How many seconds a client waits before it sends the next handshake.
pub const HANDSHAKE_PAUSE_SECS: u64 = 1;

/// How many milliseconds lie between two calls of `tick`.
pub const TICK_MILLIS: u64 = 100;

/// How many seconds lie between two heartbeats to the server.
pub const BEAT_INTERVAL_SECS: u64 = 3;

/// How many seconds lie between two heartbeats to a peer that is reached directly.
pub const PEER_BEAT_INTERVAL_SECS: u64 = 2;

/// By how many milliseconds the pause after a punch grows from one port to the next.
pub const PUNCH_PAUSE_MILLIS: u64 = 10;

/// How packets travel between a client and its peer.
#[derive(Clone, Copy, Debug, PartialEq, Eq, Structural)]
pub enum ConnectionMode {
    /// Directly, through a hole that was punched.
    Direct,
    /// Through the server.
    Relay,
    /// Not at all.
    Disconnected,
}

/// The mode that a number stands for.
pub open spec fn mode_of(val: u8) -> ConnectionMode {
    match val {
        0 => ConnectionMode::Direct,
        1 => ConnectionMode::Relay,
        _ => ConnectionMode::Disconnected,
    }
}

/// The number that stands for a mode.
pub open spec fn code_of(mode: ConnectionMode) -> u8 {
    match mode {
        ConnectionMode::Direct => 0,
        ConnectionMode::Relay => 1,
        ConnectionMode::Disconnected => 2,
    }
}

impl From<u8> for ConnectionMode {
    fn from(val: u8) -> (mode: Self) {
        match val {
            0 => ConnectionMode::Direct,
            1 => ConnectionMode::Relay,
            _ => ConnectionMode::Disconnected,
        }
    }
}

impl vstd::std_specs::convert::FromSpecImpl<u8> for ConnectionMode {
    open spec fn obeys_from_spec() -> bool {
        true
    }

    open spec fn from_spec(val: u8) -> ConnectionMode {
        mode_of(val)
    }
}

impl From<ConnectionMode> for u8 {
    fn from(mode: ConnectionMode) -> (val: Self) {
        match mode {
            ConnectionMode::Direct => 0,
            ConnectionMode::Relay => 1,
            ConnectionMode::Disconnected => 2,
        }
    }
}

impl vstd::std_specs::convert::FromSpecImpl<ConnectionMode> for u8 {
    open spec fn obeys_from_spec() -> bool {
        true
    }

    open spec fn from_spec(mode: ConnectionMode) -> u8 {
        code_of(mode)
    }
}

/// A mode can be read back from its number, and every number above 1 stands for no connection.
pub proof fn law_mode_codes(mode: ConnectionMode, val: u8)
    ensures
        mode_of(code_of(mode)) == mode,
        val <= 2 ==> code_of(mode_of(val)) == val,
        val >= 2 ==> mode_of(val) == ConnectionMode::Disconnected,
{
}

/// A peer that a direct connection was asked for, and where it was seen.
#[derive(Clone, Copy, Debug, PartialEq, Eq, Structural)]
pub struct Target {
    pub vip: Ipv4Addr,
    pub addr: SocketAddr,
}

/// How the connection to the peer stands.
#[derive(Debug)]
pub struct ConnectionState {
    pub mode: ConnectionMode,
    pub peer_addr: Option<SocketAddr>,
    pub peer_vip: Option<Ipv4Addr>,
    pub peer_id: String,
    /// Whether the peer is reached directly.
    pub is_p2p: bool,
    /// When the peer was last sent a punch or a heartbeat.
    pub last_punch: u64,
    pub punch_attempts: u32,
    /// The last round trip in milliseconds; -1 before the first one.
    pub last_latency: i32,
    pub last_mode_change: u64,
    pub is_connecting: bool,
    pub connect_failed: bool,
    pub connect_message: String,
    /// The peer that a direct connection was asked for. Holes are punched to it alone.
    pub target: Option<Target>,
    /// When the server was last sent a heartbeat.
    pub server_ping_time: Option<u64>,
    /// When the peer was last sent a heartbeat.
    pub p2p_ping_time: Option<u64>,
    /// When the peer was last sent a packet to keep the hole open.
    pub last_keepalive: u64,
}

pub struct ConnectionStateView {
    pub mode: ConnectionMode,
    pub peer_addr: Option<SocketAddr>,
    pub peer_vip: Option<Ipv4Addr>,
    pub peer_id: Seq<char>,
    pub is_p2p: bool,
    pub last_punch: u64,
    pub punch_attempts: u32,
    pub last_latency: i32,
    pub last_mode_change: u64,
    pub is_connecting: bool,
    pub connect_failed: bool,
    pub connect_message: Seq<char>,
    pub target: Option<Target>,
    pub server_ping_time: Option<u64>,
    pub p2p_ping_time: Option<u64>,
    pub last_keepalive: u64,
}

impl View for ConnectionState {
    type V = ConnectionStateView;

    open spec fn view(&self) -> ConnectionStateView {
        ConnectionStateView {
            mode: self.mode,
            peer_addr: self.peer_addr,
            peer_vip: self.peer_vip,
            peer_id: self.peer_id@,
            is_p2p: self.is_p2p,
            last_punch: self.last_punch,
            punch_attempts: self.punch_attempts,
            last_latency: self.last_latency,
            last_mode_change: self.last_mode_change,
            is_connecting: self.is_connecting,
            connect_failed: self.connect_failed,
            connect_message: self.connect_message@,
            target: self.target,
            server_ping_time: self.server_ping_time,
            p2p_ping_time: self.p2p_ping_time,
            last_keepalive: self.last_keepalive,
        }
    }
}

/// The state of a client that has no peer yet.
pub open spec fn default_state(now: u64) -> ConnectionStateView {
    ConnectionStateView {
        mode: ConnectionMode::Disconnected,
        peer_addr: None,
        peer_vip: None,
        peer_id: Seq::empty(),
        is_p2p: false,
        last_punch: now,
        punch_attempts: 0,
        last_latency: (-1) as i32,
        last_mode_change: now,
        is_connecting: false,
        connect_failed: false,
        connect_message: Seq::empty(),
        target: None,
        server_ping_time: None,
        p2p_ping_time: None,
        last_keepalive: now,
    }
}

impl ConnectionState {
    /// The state of a client that has no peer yet, at `now`.
    pub fn default(now: u64) -> (r: ConnectionState)
        ensures
            r@ == default_state(now),
    {
        ConnectionState {
            mode: ConnectionMode::Disconnected,
            peer_addr: None,
            peer_vip: None,
            peer_id: String::new(),
            is_p2p: false,
            last_punch: now,
            punch_attempts: 0,
            last_latency: -1,
            last_mode_change: now,
            is_connecting: false,
            connect_failed: false,
            connect_message: String::new(),
            target: None,
            server_ping_time: None,
            p2p_ping_time: None,
            last_keepalive: now,
        }
    }
}

/// How holes are punched.
#[derive(Clone, Copy, Debug, PartialEq, Eq, Structural)]
pub struct PunchHoleConfig {
    /// How many punches may be under way at a time.
    pub max_concurrency: usize,
    /// How many ports beyond the first are tried.
    pub port_range: u16,
    /// How far the first port lies from the one that the peer was seen at.
    pub base_port_offset: i32,
    /// Whether the server may relay.
    pub enable_relay: bool,
    /// After how many seconds punching is given up.
    pub punch_timeout: u64,
    /// Whether to turn to the server where punching was given up.
    pub relay_fallback: bool,
    /// How many milliseconds lie between two rounds of punches.
    pub punch_interval: u64,
    /// How many seconds lie between two packets that keep a hole open.
    pub keepalive_interval: u64,
}

/// How holes are punched unless something else is said.
pub open spec fn default_punch_config() -> PunchHoleConfig {
    PunchHoleConfig {
        max_concurrency: 2,
        port_range: 6,
        base_port_offset: 0,
        enable_relay: true,
        punch_timeout: 10,
        relay_fallback: true,
        punch_interval: 200,
        keepalive_interval: 30,
    }
}

impl Default for PunchHoleConfig {
    fn default() -> (r: Self)
        ensures
            r == default_punch_config(),
    {
        PunchHoleConfig {
            max_concurrency: 2,
            port_range: 6,
            base_port_offset: 0,
            enable_relay: true,
            punch_timeout: 10,
            relay_fallback: true,
            punch_interval: 200,
            keepalive_interval: 30,
        }
    }
}

impl PunchHoleConfig {
    /// Whether, with so many punches under way, one has to end before the next begins.
    pub fn at_limit(&self, under_way: usize) -> (r: bool)
        ensures
            r == (under_way >= self.max_concurrency),
    {
        under_way >= self.max_concurrency
    }
}

/// What a client wants done.
#[derive(Debug)]
pub enum ClientAction {
    /// Send a packet to an endpoint.
    Send { to: SocketAddr, packet: Packet },
    /// Send a packet to an endpoint, and count as under way for a while after that.
    Punch { to: SocketAddr, packet: Packet, pause_millis: u64 },
    /// Write an IP packet to the client's network device.
    WriteTun { data: Vec<u8> },
    /// Call `punch_timed_out` after so many seconds.
    StartPunchTimer { secs: u64 },
    /// Report the round trip to the server, or to the peer.
    ReportLatency { via_server: bool, millis: u64 },
    /// Show which clients are online.
    ShowDevices { devices: Vec<OnlineDevice> },
}

pub enum ClientActionView {
    Send { to: SocketAddr, packet: PacketView },
    Punch { to: SocketAddr, packet: PacketView, pause_millis: u64 },
    WriteTun { data: Seq<u8> },
    StartPunchTimer { secs: u64 },
    ReportLatency { via_server: bool, millis: u64 },
    ShowDevices { devices: Seq<OnlineDeviceView> },
}

impl View for ClientAction {
    type V = ClientActionView;

    open spec fn view(&self) -> ClientActionView {
        match self {
            ClientAction::Send { to, packet } => ClientActionView::Send {
                to: *to,
                packet: packet@,
            },
            ClientAction::Punch { to, packet, pause_millis } => ClientActionView::Punch {
                to: *to,
                packet: packet@,
                pause_millis: *pause_millis,
            },
            ClientAction::WriteTun { data } => ClientActionView::WriteTun { data: data@ },
            ClientAction::StartPunchTimer { secs } => ClientActionView::StartPunchTimer {
                secs: *secs,
            },
            ClientAction::ReportLatency { via_server, millis } => ClientActionView::ReportLatency {
                via_server: *via_server,
                millis: *millis,
            },
            ClientAction::ShowDevices { devices } => ClientActionView::ShowDevices {
                devices: devices_view(devices@),
            },
        }
    }
}

/// The views of a list of actions.
pub open spec fn client_actions_view(actions: Seq<ClientAction>) -> Seq<ClientActionView> {
    actions.map_values(|a: ClientAction| a@)
}

/// What becomes of the peer that was asked for when a client is announced: it was seen where the
/// announcement says, if it is the one that is announced.
pub open spec fn retargeted(target: Option<Target>, vip: Ipv4Addr, addr: SocketAddr) -> Option<
    Target,
> {
    match target {
        Some(t) => if t.vip == vip {
            Some(Target { vip, addr })
        } else {
            target
        },
        None => None,
    }
}

/// What a packet from the server makes of the connection, and whether the time for punching
/// begins.
pub open spec fn server_packet_step(s: ConnectionStateView, packet: PacketView) -> (
    ConnectionStateView,
    bool,
) {
    match packet {
        PacketView::PeerInfo { peer_vip, peer_addr } => match (spec_parse_ip(peer_vip), peer_addr) {
            (Some(vip), Some(addr)) => (
                ConnectionStateView {
                    peer_addr: Some(addr),
                    peer_vip: Some(vip),
                    is_connecting: true,
                    connect_message: "正在建立 P2P 连接..."@,
                    connect_failed: false,
                    punch_attempts: 0,
                    target: retargeted(s.target, vip, addr),
                    ..s
                },
                true,
            ),
            _ => (s, false),
        },
        PacketView::ConnectPeer { peer_vip, peer_addr, port, .. } => (
            ConnectionStateView {
                peer_addr: Some(SocketAddr::V4 { ip: peer_addr, port }),
                peer_vip: Some(peer_vip),
                is_connecting: true,
                connect_message: "正在打洞..."@,
                target: Some(
                    Target { vip: peer_vip, addr: SocketAddr::V4 { ip: peer_addr, port } },
                ),
                ..s
            },
            false,
        ),
        PacketView::RelayEnabled { peer_id, peer_vip } => match spec_parse_ip(peer_vip) {
            Some(vip) => (
                ConnectionStateView {
                    mode: ConnectionMode::Relay,
                    peer_id,
                    peer_vip: Some(vip),
                    is_connecting: false,
                    connect_message: Seq::empty(),
                    ..s
                },
                false,
            ),
            None => (s, false),
        },
        PacketView::DisconnectPeer => (
            ConnectionStateView {
                mode: ConnectionMode::Disconnected,
                peer_addr: None,
                peer_vip: None,
                is_p2p: false,
                is_connecting: false,
                connect_message: Seq::empty(),
                target: None,
                ..s
            },
            false,
        ),
        _ => (s, false),
    }
}

/// What becomes of the connection when the time for punching is over and there is no hole.
pub open spec fn timeout_step(s: ConnectionStateView, config: PunchHoleConfig) -> ConnectionStateView {
    if s.is_p2p || !s.is_connecting {
        s
    } else if config.enable_relay && config.relay_fallback {
        ConnectionStateView {
            mode: ConnectionMode::Relay,
            connect_message: "使用中转模式"@,
            ..s
        }
    } else {
        ConnectionStateView {
            connect_failed: true,
            connect_message: "连接失败：无法建立 P2P 连接"@,
            is_connecting: false,
            ..s
        }
    }
}

/// The connection after the peer `vip` punched through from `src`.
pub open spec fn punched(
    s: ConnectionStateView,
    src: SocketAddr,
    vip: Ipv4Addr,
    now: u64,
) -> ConnectionStateView {
    ConnectionStateView {
        is_p2p: true,
        peer_addr: Some(src),
        peer_vip: Some(vip),
        mode: ConnectionMode::Direct,
        last_mode_change: now,
        is_connecting: false,
        connect_message: Seq::empty(),
        ..s
    }
}

/// Takes a packet from the server, and says whether the time for punching begins.
pub fn handle_server_packet(state: &mut ConnectionState, packet: &Packet) -> (starts: bool)
    ensures
        (final(state)@, starts) == server_packet_step(old(state)@, packet@),
{
    match packet {
        Packet::PeerInfo { peer_vip, peer_addr } => {
            match (parse_ip(peer_vip.as_str()), *peer_addr) {
                (Some(vip), Some(addr)) => {
                    state.peer_addr = Some(addr);
                    state.peer_vip = Some(vip);
                    state.is_connecting = true;
                    state.connect_message = "正在建立 P2P 连接...".to_owned();
                    state.connect_failed = false;
                    state.punch_attempts = 0;
                    if let Some(target) = state.target {
                        if target.vip == vip {
                            state.target = Some(Target { vip, addr });
                        }
                    }
                    true
                },
                _ => false,
            }
        },
        Packet::ConnectPeer { peer_vip, peer_addr, port, .. } => {
            let addr = SocketAddr::V4 { ip: *peer_addr, port: *port };
            state.peer_addr = Some(addr);
            state.peer_vip = Some(*peer_vip);
            state.is_connecting = true;
            state.connect_message = "正在打洞...".to_owned();
            state.target = Some(Target { vip: *peer_vip, addr });
            false
        },
        Packet::RelayEnabled { peer_id, peer_vip } => {
            if let Some(vip) = parse_ip(peer_vip.as_str()) {
                state.mode = ConnectionMode::Relay;
                state.peer_id = peer_id.clone();
                state.peer_vip = Some(vip);
                state.is_connecting = false;
                state.connect_message = String::new();
            }
            false
        },
        Packet::DisconnectPeer => {
            state.mode = ConnectionMode::Disconnected;
            state.peer_addr = None;
            state.peer_vip = None;
            state.is_p2p = false;
            state.is_connecting = false;
            state.connect_message = String::new();
            state.target = None;
            false
        },
        _ => false,
    }
}

/// Ends the time for punching: where no hole was punched, the client turns to the server, or
/// gives up.
pub fn punch_timed_out(state: &mut ConnectionState, config: &PunchHoleConfig)
    ensures
        final(state)@ == timeout_step(old(state)@, *config),
{
    if !state.is_p2p && state.is_connecting {
        if config.enable_relay && config.relay_fallback {
            state.mode = ConnectionMode::Relay;
            state.connect_message = "使用中转模式".to_owned();
        } else {
            state.connect_failed = true;
            state.connect_message = "连接失败：无法建立 P2P 连接".to_owned();
            state.is_connecting = false;
        }
    }
}

/// The first port of a list: `offset` away from `base_port`, at least 1, and in 16 bits.
pub open spec fn first_port(base_port: u16, offset: i32) -> int {
    let sum = base_port + offset;
    if sum < 1 || sum > i32::MAX {
        1
    } else {
        sum % 0x1_0000
    }
}

/// The ports to try: the first one and `port_range` more, but none beyond the last port there is.
/// Port 0 is never among them.
pub open spec fn port_list(base_port: u16, port_range: u16, offset: i32) -> Seq<u16> {
    let start = first_port(base_port, offset);
    let end = if start + port_range < 0xffff {
        start + port_range
    } else {
        0xffff
    };
    let from = if start < 1 {
        1
    } else {
        start
    };
    if end < from {
        Seq::empty()
    } else {
        Seq::new((end - from + 1) as nat, |i: int| (from + i) as u16)
    }
}

/// The ports to try, in order.
pub fn generate_port_list(base_port: u16, port_range: u16, offset: i32) -> (ports: Vec<u16>)
    ensures
        ports@ == port_list(base_port, port_range, offset),
{
    let sum: i64 = base_port as i64 + offset as i64;
    let start: u32 = if sum < 1 || sum > i32::MAX as i64 {
        1
    } else {
        (sum % 0x1_0000) as u32
    };
    let end: u32 = if start + (port_range as u32) < 0xffff {
        start + port_range as u32
    } else {
        0xffff
    };
    let from: u32 = if start < 1 {
        1
    } else {
        start
    };
    let mut ports: Vec<u16> = Vec::new();
    let mut p: u32 = from;
    while p <= end
        invariant
            1 <= from <= p,
            end < 0x1_0000,
            p <= 0x1_0000,
            p > from ==> p <= end + 1,
            ports@.len() == p - from,
            forall|i: int| 0 <= i < p - from ==> ports@[i] == from + i,
        decreases end + 1 - p,
    {
        ports.push(p as u16);
        p = p + 1;
    }
    assert(ports@ =~= port_list(base_port, port_range, offset));
    ports
}

/// What the answer to a handshake comes to.
#[derive(Debug)]
pub enum HandshakeOutcome {
    /// It was no answer of the server: the handshake is to be sent again.
    Retry,
    /// The client is admitted.
    Accepted { ip: Ipv4Addr, cidr: String },
    /// The client is admitted, but what it was given is no address.
    BadAddress,
}

/// The packet that asks the server to be admitted.
pub fn handshake_packet(token: &str, client_id: &str) -> (packet: Packet)
    ensures
        packet@ == (PacketView::Handshake { token: token@, client_id: client_id@ }),
{
    Packet::Handshake { token: token.to_owned(), client_id: client_id.to_owned() }
}

/// Takes what came from `src` while the client waits to be admitted. Only the server can
/// admit it.
pub fn handshake_reply(server_addr: SocketAddr, src: SocketAddr, packet: Packet) -> (r:
    HandshakeOutcome)
    ensures
        match packet@ {
            PacketView::HandshakeAck { ip, cidr } => if src != server_addr {
                r is Retry
            } else {
                match spec_parse_ip(ip) {
                    Some(vip) => r matches HandshakeOutcome::Accepted { ip: got, cidr: net } && got
                        == vip && net@ == cidr,
                    None => r is BadAddress,
                }
            },
            _ => r is Retry,
        },
{
    if src == server_addr {
        if let Packet::HandshakeAck { ip, cidr } = packet {
            return match parse_ip(ip.as_str()) {
                Some(vip) => HandshakeOutcome::Accepted { ip: vip, cidr },
                None => HandshakeOutcome::BadAddress,
            };
        }
    }
    HandshakeOutcome::Retry
}

/// A client that was admitted.
#[derive(Debug)]
pub struct Client {
    config: PunchHoleConfig,
    server_addr: SocketAddr,
    local_addr: SocketAddr,
    /// The virtual address of the client.
    my_ip: Ipv4Addr,
    /// When the server was last sent a heartbeat, or the client was set up.
    last_beat: u64,
    state: ConnectionState,
    /// Where the clients that were announced are, by their virtual addresses.
    peer_map: Table<Ipv4Addr, SocketAddr>,
    /// The clients that were last said to be online.
    devices: Vec<OnlineDevice>,
    /// The client that a direct connection was asked for, until it is known where that client is.
    pending: Option<String>,
}

pub struct ClientView {
    pub config: PunchHoleConfig,
    pub server_addr: SocketAddr,
    pub local_addr: SocketAddr,
    pub my_ip: Ipv4Addr,
    pub last_beat: u64,
    pub state: ConnectionStateView,
    pub peer_map: Seq<(Ipv4Addr, SocketAddr)>,
    pub devices: Seq<OnlineDeviceView>,
    pub pending: Option<Seq<char>>,
}

impl View for Client {
    type V = ClientView;

    closed spec fn view(&self) -> ClientView {
        ClientView {
            config: self.config,
            server_addr: self.server_addr,
            local_addr: self.local_addr,
            my_ip: self.my_ip,
            last_beat: self.last_beat,
            state: self.state@,
            peer_map: self.peer_map@,
            devices: devices_view(self.devices@),
            pending: match self.pending {
                Some(id) => Some(id@),
                None => None,
            },
        }
    }
}

/// A client that was just admitted.
pub open spec fn new_client(
    server_addr: SocketAddr,
    local_addr: SocketAddr,
    my_ip: Ipv4Addr,
    now: u64,
) -> ClientView {
    ClientView {
        config: default_punch_config(),
        server_addr,
        local_addr,
        my_ip,
        last_beat: now,
        state: default_state(now),
        peer_map: Seq::empty(),
        devices: Seq::empty(),
        pending: None,
    }
}

/// Whether the endpoint `addr` is the client itself.
pub open spec fn is_self(local_addr: SocketAddr, addr: SocketAddr) -> bool {
    local_addr.spec_port() == addr.spec_port() && local_addr.spec_same_ip(addr)
}

/// The point in time `now` in milliseconds.
pub open spec fn timestamp(now: u64) -> u64 {
    (now / 1_000_000) as u64
}

/// The packet that opens the client's side of a direct connection.
pub open spec fn punch_packet(c: ClientView) -> PacketView {
    PacketView::Punch { vip: ip_text(c.my_ip) }
}

/// The punches at the first `n` of the ports, one each, but none at the client itself.
pub open spec fn punches(c: ClientView, peer: SocketAddr, ports: Seq<u16>, n: int) -> Seq<
    ClientActionView,
>
    decreases n,
{
    if n <= 0 {
        Seq::empty()
    } else {
        let to = peer.spec_at_port(ports[n - 1]);
        let earlier = punches(c, peer, ports, n - 1);
        if is_self(c.local_addr, to) {
            earlier
        } else {
            earlier.push(
                ClientActionView::Punch {
                    to,
                    packet: punch_packet(c),
                    pause_millis: ((n - 1) * PUNCH_PAUSE_MILLIS) as u64,
                },
            )
        }
    }
}

/// A round of punches: one at each port of the list.
pub open spec fn punch_round(c: ClientView, peer: SocketAddr) -> Seq<ClientActionView> {
    let ports = port_list(peer.spec_port(), c.config.port_range, c.config.base_port_offset);
    punches(c, peer, ports, ports.len() as int)
}

/// The state after a punch or a heartbeat was sent to the peer.
pub open spec fn attempted(s: ConnectionStateView, now: u64) -> ConnectionStateView {
    ConnectionStateView {
        last_punch: now,
        punch_attempts: if s.punch_attempts == u32::MAX {
            0
        } else {
            (s.punch_attempts + 1) as u32
        },
        ..s
    }
}

/// The heartbeat to the server, when it is due.
pub open spec fn beat_step(c: ClientView, now: u64) -> (ClientView, Seq<ClientActionView>) {
    if spec_elapsed_secs(now, c.last_beat) >= BEAT_INTERVAL_SECS {
        (
            ClientView {
                last_beat: now,
                state: ConnectionStateView { server_ping_time: Some(now), ..c.state },
                ..c
            },
            seq![
                ClientActionView::Send {
                    to: c.server_addr,
                    packet: PacketView::Ping(timestamp(now)),
                },
            ],
        )
    } else {
        (c, Seq::empty())
    }
}

/// The round of punches at a peer that was seen at `peer`, when it is due.
pub open spec fn punch_step(c: ClientView, peer: SocketAddr, now: u64) -> (
    ClientView,
    Seq<ClientActionView>,
) {
    if spec_elapsed_millis(now, c.state.last_punch) >= c.config.punch_interval {
        (ClientView { state: attempted(c.state, now), ..c }, punch_round(c, peer))
    } else {
        (c, Seq::empty())
    }
}

/// The heartbeat to a peer that is reached directly, when it is due.
pub open spec fn peer_beat_step(c: ClientView, peer: SocketAddr, now: u64) -> (
    ClientView,
    Seq<ClientActionView>,
) {
    if spec_elapsed_secs(now, c.state.last_punch) >= PEER_BEAT_INTERVAL_SECS {
        (
            ClientView {
                state: ConnectionStateView { p2p_ping_time: Some(now), ..attempted(c.state, now) },
                ..c
            },
            seq![ClientActionView::Send { to: peer, packet: PacketView::Ping(timestamp(now)) }],
        )
    } else {
        (c, Seq::empty())
    }
}

/// The packet that keeps the hole to the peer open, when it is due.
pub open spec fn keepalive_step(c: ClientView, peer: SocketAddr, now: u64) -> (
    ClientView,
    Seq<ClientActionView>,
) {
    if spec_elapsed_secs(now, c.state.last_keepalive) >= c.config.keepalive_interval {
        (
            ClientView { state: ConnectionStateView { last_keepalive: now, ..c.state }, ..c },
            seq![ClientActionView::Send { to: peer, packet: PacketView::Keepalive }],
        )
    } else {
        (c, Seq::empty())
    }
}

/// What the passing of time makes the client do. Where its peer is not reached yet, it punches at
/// the one that was asked for, and at no other.
pub open spec fn tick_step(c: ClientView, now: u64) -> (ClientView, Seq<ClientActionView>) {
    let (c1, beat) = beat_step(c, now);
    match (c1.state.peer_addr, c1.state.peer_vip) {
        (Some(peer), Some(_)) => if c1.state.is_p2p {
            let (c2, peer_beat) = peer_beat_step(c1, peer, now);
            let (c3, keepalive) = keepalive_step(c2, peer, now);
            (c3, beat + peer_beat + keepalive)
        } else {
            match c1.state.target {
                Some(target) => {
                    let (c2, round) = punch_step(c1, target.addr, now);
                    (c2, beat + round)
                },
                None => (c1, beat),
            }
        },
        _ => (c1, beat),
    }
}

/// What the answer to a heartbeat tells: the round trip to whoever it came from. One that the
/// client sent itself tells nothing.
pub open spec fn pong_step(c: ClientView, src: SocketAddr, now: u64) -> (
    ClientView,
    Seq<ClientActionView>,
) {
    let via_server = src == c.server_addr;
    let sent = if via_server {
        c.state.server_ping_time
    } else {
        c.state.p2p_ping_time
    };
    if is_self(c.local_addr, src) {
        (c, Seq::empty())
    } else {
        match sent {
            Some(then) => {
                let millis = spec_elapsed_millis(now, then) as u64;
                (
                    ClientView {
                        state: ConnectionStateView { last_latency: millis as i32, ..c.state },
                        ..c
                    },
                    seq![ClientActionView::ReportLatency { via_server, millis }],
                )
            },
            None => (c, Seq::empty()),
        }
    }
}

/// The virtual address of the device `id`, if it is among the devices. Of several devices with the
/// same identity the first counts.
pub open spec fn device_vip(devices: Seq<OnlineDeviceView>, id: Seq<char>) -> Option<Ipv4Addr>
    decreases devices.len(),
{
    if devices.len() == 0 {
        None
    } else if devices[0].client_id == id {
        spec_parse_ip(devices[0].vip)
    } else {
        device_vip(devices.skip(1), id)
    }
}

/// The client `id` and where it is, as far as this one was told. A client is no peer of itself.
pub open spec fn find_target(c: ClientView, id: Seq<char>) -> Option<Target> {
    match device_vip(c.devices, id) {
        Some(vip) => match lookup(c.peer_map, vip) {
            Some(addr) => if vip == c.my_ip {
                None
            } else {
                Some(Target { vip, addr })
            },
            None => None,
        },
        None => None,
    }
}

/// What becomes of the connection when the peer that was asked for is found, and whether the time
/// for punching begins. Nothing is to be done where that peer is reached directly already.
pub open spec fn choose_step(s: ConnectionStateView, target: Target) -> (ConnectionStateView, bool) {
    if s.is_p2p && s.peer_vip == Some(target.vip) {
        (s, false)
    } else {
        (
            ConnectionStateView {
                mode: ConnectionMode::Disconnected,
                peer_addr: Some(target.addr),
                peer_vip: Some(target.vip),
                is_p2p: false,
                is_connecting: true,
                connect_message: "正在建立 P2P 连接..."@,
                connect_failed: false,
                punch_attempts: 0,
                target: Some(target),
                ..s
            },
            true,
        )
    }
}

/// Looks for the peer that was asked for, if one was.
pub open spec fn settle_step(c: ClientView) -> (ClientView, bool) {
    match c.pending {
        Some(id) => match find_target(c, id) {
            Some(target) => {
                let (state, begins) = choose_step(c.state, target);
                (ClientView { state, pending: None, ..c }, begins)
            },
            None => (c, false),
        },
        None => (c, false),
    }
}

/// Whether `vip` is the address of the peer that was asked for and that it was not known where to
/// find.
pub open spec fn is_awaited(c: ClientView, vip: Ipv4Addr) -> bool {
    c.pending matches Some(id) && device_vip(c.devices, id) == Some(vip) && vip != c.my_ip
}

/// What else an announcement does: it is remembered where the client is and, where that one was
/// waited for, a request for it is met.
pub open spec fn announced(c: ClientView, packet: PacketView) -> ClientView {
    match packet {
        PacketView::PeerInfo { peer_vip, peer_addr } => match (spec_parse_ip(peer_vip), peer_addr) {
            (Some(vip), Some(addr)) => {
                let peer_map = put(c.peer_map, vip, addr);
                if is_awaited(c, vip) {
                    ClientView {
                        peer_map,
                        pending: None,
                        state: ConnectionStateView {
                            target: Some(Target { vip, addr }),
                            ..c.state
                        },
                        ..c
                    }
                } else {
                    ClientView { peer_map, ..c }
                }
            },
            _ => c,
        },
        _ => c,
    }
}

/// The timer for punching, where it is to be started.
pub open spec fn punch_timer(config: PunchHoleConfig, starts: bool) -> Seq<ClientActionView> {
    if starts {
        seq![ClientActionView::StartPunchTimer { secs: config.punch_timeout }]
    } else {
        Seq::empty()
    }
}

/// What a packet that came from `src` at `now` does to the client, and what it makes it do.
pub open spec fn client_step(c: ClientView, src: SocketAddr, packet: PacketView, now: u64) -> (
    ClientView,
    Seq<ClientActionView>,
) {
    match packet {
        PacketView::Data(data) => (c, seq![ClientActionView::WriteTun { data }]),
        PacketView::Punch { vip } => match spec_parse_ip(vip) {
            Some(ip) => (
                ClientView { state: punched(c.state, src, ip, now), ..c },
                Seq::empty(),
            ),
            None => (c, Seq::empty()),
        },
        PacketView::Ping(ts) => (
            c,
            seq![ClientActionView::Send { to: src, packet: PacketView::Pong(ts) }],
        ),
        PacketView::Pong(_) => pong_step(c, src, now),
        _ => if src != c.server_addr {
            (c, Seq::empty())
        } else if let PacketView::OnlineDevices(devices) = packet {
            let (after, begins) = settle_step(ClientView { devices, ..c });
            (
                after,
                seq![ClientActionView::ShowDevices { devices }] + punch_timer(c.config, begins),
            )
        } else {
            let (state, starts) = server_packet_step(c.state, packet);
            let told = ClientView {
                state,
                pending: if packet is DisconnectPeer {
                    None
                } else {
                    c.pending
                },
                ..c
            };
            (announced(told, packet), punch_timer(c.config, starts))
        },
    }
}

/// What a request for a direct connection to the client `target_id` makes this one do: it tells
/// the server, and punches as soon as it knows where that client is.
pub open spec fn connect_step(c: ClientView, target_id: Seq<char>) -> (
    ClientView,
    Seq<ClientActionView>,
) {
    let (after, begins) = settle_step(ClientView { pending: Some(target_id), ..c });
    (
        after,
        seq![ClientActionView::Send { to: c.server_addr, packet: request_packet(target_id) }]
            + punch_timer(c.config, begins),
    )
}

/// The packet that asks the server for a direct connection to the client `target_id`.
pub open spec fn request_packet(target_id: Seq<char>) -> PacketView {
    PacketView::RequestConnect { target_id, password: Seq::empty() }
}

/// Where IP packets of this client go: to the peer where it is reached directly, else to the
/// server.
pub open spec fn route(c: ClientView) -> SocketAddr {
    match c.state.peer_addr {
        Some(peer) => if c.state.is_p2p {
            peer
        } else {
            c.server_addr
        },
        None => c.server_addr,
    }
}

/// The virtual address of the device `id`, if it is among the devices.
fn find_device(devices: &Vec<OnlineDevice>, id: &str) -> (vip: Option<Ipv4Addr>)
    ensures
        vip == device_vip(devices_view(devices@), id@),
{
    let ghost all = devices_view(devices@);
    let mut i: usize = 0;
    assert(all.skip(0) =~= all);
    while i < devices.len()
        invariant
            i <= devices@.len(),
            all == devices_view(devices@),
            device_vip(all, id@) == device_vip(all.skip(i as int), id@),
        decreases devices@.len() - i,
    {
        assert(all.skip(i as int)[0] == devices@[i as int]@);
        assert(all.skip(i as int).skip(1) =~= all.skip(i + 1));
        if same_text(devices[i].client_id.as_str(), id) {
            return parse_ip(devices[i].vip.as_str());
        }
        i = i + 1;
    }
    None
}

fn copy_devices(devices: &Vec<OnlineDevice>) -> (r: Vec<OnlineDevice>)
    ensures
        devices_view(r@) == devices_view(devices@),
{
    let mut r: Vec<OnlineDevice> = Vec::new();
    let mut i: usize = 0;
    while i < devices.len()
        invariant
            i <= devices@.len(),
            r@.len() == i,
            forall|j: int| 0 <= j < i ==> (#[trigger] r@[j])@ == devices@[j]@,
        decreases devices@.len() - i,
    {
        let d = &devices[i];
        r.push(
            OnlineDevice {
                client_id: d.client_id.clone(),
                vip: d.vip.clone(),
                is_online: d.is_online,
            },
        );
        i = i + 1;
    }
    assert(devices_view(r@) =~= devices_view(devices@));
    r
}

impl Client {
    /// No address stands twice among the clients that were announced.
    pub open spec fn wf(&self) -> bool {
        keys_unique(self@.peer_map)
    }

    /// A client that was given the address `my_ip` by the server at `server_addr`.
    pub fn new(server_addr: SocketAddr, local_addr: SocketAddr, my_ip: Ipv4Addr, now: u64) -> (r:
        Client)
        ensures
            r.wf(),
            r@ == new_client(server_addr, local_addr, my_ip, now),
    {
        let r = Client {
            config: PunchHoleConfig::default(),
            server_addr,
            local_addr,
            my_ip,
            last_beat: now,
            state: ConnectionState::default(now),
            peer_map: Table::new(),
            devices: Vec::new(),
            pending: None,
        };
        assert(r@.devices =~= Seq::empty());
        r
    }

    /// How the client punches holes.
    pub fn punch_config(&self) -> (r: PunchHoleConfig)
        ensures
            r == self@.config,
    {
        self.config
    }

    /// Looks for the peer that was asked for, and says whether the time for punching begins.
    fn settle(&mut self) -> (begins: bool)
        requires
            old(self).wf(),
        ensures
            final(self).wf(),
            (final(self)@, begins) == settle_step(old(self)@),
    {
        let found: Option<Target> = match &self.pending {
            Some(id) => self.find(id.as_str()),
            None => None,
        };
        match found {
            Some(target) => {
                self.pending = None;
                if self.state.is_p2p && self.state.peer_vip == Some(target.vip) {
                    return false;
                }
                self.state.mode = ConnectionMode::Disconnected;
                self.state.peer_addr = Some(target.addr);
                self.state.peer_vip = Some(target.vip);
                self.state.is_p2p = false;
                self.state.is_connecting = true;
                self.state.connect_message = "正在建立 P2P 连接...".to_owned();
                self.state.connect_failed = false;
                self.state.punch_attempts = 0;
                self.state.target = Some(target);
                true
            },
            None => false,
        }
    }

    /// The client `id` and where it is, as far as this one was told.
    fn find(&self, id: &str) -> (r: Option<Target>)
        requires
            self.wf(),
        ensures
            r == find_target(self@, id@),
    {
        match find_device(&self.devices, id) {
            Some(vip) => match self.peer_map.get(&vip) {
                Some(addr) => if vip == self.my_ip {
                    None
                } else {
                    Some(Target { vip, addr: *addr })
                },
                None => None,
            },
            None => None,
        }
    }

    /// Remembers where the client `vip` is, and meets a request that waited for it.
    fn announce(&mut self, vip: Ipv4Addr, addr: SocketAddr)
        requires
            old(self).wf(),
        ensures
            final(self).wf(),
            final(self)@ == (ClientView {
                peer_map: put(old(self)@.peer_map, vip, addr),
                pending: if is_awaited(old(self)@, vip) {
                    None
                } else {
                    old(self)@.pending
                },
                state: ConnectionStateView {
                    target: if is_awaited(old(self)@, vip) {
                        Some(Target { vip, addr })
                    } else {
                        old(self)@.state.target
                    },
                    ..old(self)@.state
                },
                ..old(self)@
            }),
    {
        let awaited: bool = match &self.pending {
            Some(id) => find_device(&self.devices, id.as_str()) == Some(vip) && vip != self.my_ip,
            None => false,
        };
        self.peer_map.insert(vip, addr);
        if awaited {
            self.pending = None;
            self.state.target = Some(Target { vip, addr });
        }
    }

    /// Asks for a direct connection to the client `target_id`: says what is to be sent, and looks
    /// for that client among those that were announced. Where it cannot be found yet, it is looked
    /// for again whenever the server tells more.
    pub fn connect(&mut self, target_id: String) -> (r: Vec<ClientAction>)
        requires
            old(self).wf(),
        ensures
            final(self).wf(),
            (final(self)@, client_actions_view(r@)) == connect_step(old(self)@, target_id@),
    {
        let mut actions: Vec<ClientAction> = Vec::new();
        actions.push(
            ClientAction::Send {
                to: self.server_addr,
                packet: Packet::RequestConnect {
                    target_id: target_id.clone(),
                    password: String::new(),
                },
            },
        );
        self.pending = Some(target_id);
        if self.settle() {
            actions.push(ClientAction::StartPunchTimer { secs: self.config.punch_timeout });
        }
        assert(client_actions_view(actions@) =~= connect_step(old(self)@, target_id@).1);
        actions
    }

    /// Ends the time for punching.
    pub fn punch_timed_out(&mut self)
        requires
            old(self).wf(),
        ensures
            final(self).wf(),
            final(self)@ == (ClientView {
                state: timeout_step(old(self)@.state, old(self)@.config),
                ..old(self)@
            }),
    {
        let config: PunchHoleConfig = self.config;
        punch_timed_out(&mut self.state, &config);
    }

    /// Takes an IP packet that the client's network device hands out. One without a whole
    /// header goes nowhere.
    pub fn handle_tun(&self, data: Vec<u8>) -> (r: Option<ClientAction>)
        ensures
            dest_ip(data@) is None ==> r is None,
            dest_ip(data@) is Some ==> {
                &&& r matches Some(action)
                &&& action@ == (ClientActionView::Send {
                    to: route(self@),
                    packet: PacketView::Data(data@),
                })
                &&& action@ matches ClientActionView::Send { to, .. }
                &&& self@.state.is_p2p && self@.state.peer_addr is Some ==> to
                    == self@.state.peer_addr->0
                &&& !(self@.state.is_p2p && self@.state.peer_addr is Some) ==> to
                    == self@.server_addr
            },
    {
        match get_dest_ip(data.as_slice()) {
            Some(_) => {
                let to: SocketAddr = match self.state.peer_addr {
                    Some(peer) => if self.state.is_p2p {
                        peer
                    } else {
                        self.server_addr
                    },
                    None => self.server_addr,
                };
                Some(ClientAction::Send { to, packet: Packet::Data(data) })
            },
            None => None,
        }
    }

    /// Whether the endpoint `addr` is the client itself.
    fn is_own(&self, addr: &SocketAddr) -> (r: bool)
        ensures
            r == is_self(self@.local_addr, *addr),
    {
        self.local_addr.port() == addr.port() && self.local_addr.same_ip(addr)
    }

    fn pong(&mut self, src: SocketAddr, now: u64) -> (r: Vec<ClientAction>)
        ensures
            (final(self)@, client_actions_view(r@)) == pong_step(old(self)@, src, now),
    {
        let mut actions: Vec<ClientAction> = Vec::new();
        assert(client_actions_view(actions@) =~= Seq::empty());
        if self.is_own(&src) {
            return actions;
        }
        let via_server: bool = src == self.server_addr;
        let sent: Option<u64> = if via_server {
            self.state.server_ping_time
        } else {
            self.state.p2p_ping_time
        };
        if let Some(then) = sent {
            let millis: u64 = elapsed_millis(now, then);
            self.state.last_latency = #[verifier::truncate] (millis as i32);
            actions.push(ClientAction::ReportLatency { via_server, millis });
            assert(client_actions_view(actions@) =~= seq![
                ClientActionView::ReportLatency { via_server, millis },
            ]);
        }
        actions
    }

    /// Takes a packet that came from `src` at `now`, and says what is to be done.
    pub fn handle_packet(&mut self, src: SocketAddr, packet: Packet, now: u64) -> (r: Vec<
        ClientAction,
    >)
        requires
            old(self).wf(),
        ensures
            final(self).wf(),
            (final(self)@, client_actions_view(r@)) == client_step(old(self)@, src, packet@, now),
    {
        let ghost expected = client_step(self@, src, packet@, now).1;
        let mut actions: Vec<ClientAction> = Vec::new();
        match packet {
            Packet::Data(data) => {
                actions.push(ClientAction::WriteTun { data });
            },
            Packet::Punch { vip } => {
                if let Some(ip) = parse_ip(vip.as_str()) {
                    self.state.is_p2p = true;
                    self.state.peer_addr = Some(src);
                    self.state.peer_vip = Some(ip);
                    self.state.mode = ConnectionMode::Direct;
                    self.state.last_mode_change = now;
                    self.state.is_connecting = false;
                    self.state.connect_message = String::new();
                }
            },
            Packet::Ping(ts) => {
                actions.push(ClientAction::Send { to: src, packet: Packet::Pong(ts) });
            },
            Packet::Pong(_) => {
                return self.pong(src, now);
            },
            Packet::OnlineDevices(devices) => {
                if src == self.server_addr {
                    self.devices = copy_devices(&devices);
                    actions.push(ClientAction::ShowDevices { devices });
                    if self.settle() {
                        actions.push(
                            ClientAction::StartPunchTimer { secs: self.config.punch_timeout },
                        );
                    }
                }
            },
            other => {
                if src == self.server_addr {
                    let starts: bool = handle_server_packet(&mut self.state, &other);
                    match &other {
                        Packet::PeerInfo { peer_vip, peer_addr: Some(addr) } => {
                            if let Some(vip) = parse_ip(peer_vip.as_str()) {
                                self.announce(vip, *addr);
                            }
                        },
                        Packet::DisconnectPeer => {
                            self.pending = None;
                        },
                        _ => {},
                    }
                    if starts {
                        actions.push(
                            ClientAction::StartPunchTimer { secs: self.config.punch_timeout },
                        );
                    }
                }
            },
        }
        assert(client_actions_view(actions@) =~= expected);
        actions
    }

    fn push_punches(&self, peer: SocketAddr, actions: &mut Vec<ClientAction>)
        ensures
            client_actions_view(final(actions)@) == client_actions_view(old(actions)@)
                + punch_round(self@, peer),
    {
        let ghost before = client_actions_view(actions@);
        let ports: Vec<u16> = generate_port_list(
            peer.port(),
            self.config.port_range,
            self.config.base_port_offset,
        );
        let mut i: usize = 0;
        assert(client_actions_view(actions@) =~= before + punches(self@, peer, ports@, 0));
        while i < ports.len()
            invariant
                i <= ports@.len() <= 0x1_0000,
                client_actions_view(actions@) == before + punches(self@, peer, ports@, i as int),
            decreases ports@.len() - i,
        {
            let ghost shown = client_actions_view(actions@);
            let to: SocketAddr = peer.at_port(ports[i]);
            if !self.is_own(&to) {
                let action = ClientAction::Punch {
                    to,
                    packet: Packet::Punch { vip: ip_string(self.my_ip) },
                    pause_millis: i as u64 * PUNCH_PAUSE_MILLIS,
                };
                actions.push(action);
                assert(client_actions_view(actions@) =~= shown.push(action@));
            }
            i = i + 1;
            assert(client_actions_view(actions@) =~= before + punches(
                self@,
                peer,
                ports@,
                i as int,
            ));
        }
    }

    /// Lets time pass until `now`, and says what is to be done.
    pub fn tick(&mut self, now: u64) -> (r: Vec<ClientAction>)
        requires
            old(self).wf(),
        ensures
            final(self).wf(),
            (final(self)@, client_actions_view(r@)) == tick_step(old(self)@, now),
    {
        let mut actions: Vec<ClientAction> = Vec::new();
        assert(client_actions_view(actions@) =~= Seq::empty());
        if elapsed_secs(now, self.last_beat) >= BEAT_INTERVAL_SECS {
            actions.push(
                ClientAction::Send { to: self.server_addr, packet: Packet::Ping(now / 1_000_000) },
            );
            self.last_beat = now;
            self.state.server_ping_time = Some(now);
        }
        let ghost (c1, beat) = beat_step(old(self)@, now);
        assert(client_actions_view(actions@) =~= beat);
        assert(self@ == c1);
        match (self.state.peer_addr, self.state.peer_vip) {
            (Some(peer), Some(_)) => {
                if self.state.is_p2p {
                    if elapsed_secs(now, self.state.last_punch) >= PEER_BEAT_INTERVAL_SECS {
                        actions.push(
                            ClientAction::Send { to: peer, packet: Packet::Ping(now / 1_000_000) },
                        );
                        self.state.p2p_ping_time = Some(now);
                        self.state.last_punch = now;
                        self.state.punch_attempts = self.state.punch_attempts.wrapping_add(1);
                    }
                    let ghost (c2, peer_beat) = peer_beat_step(c1, peer, now);
                    assert(client_actions_view(actions@) =~= beat + peer_beat);
                    assert(self@ == c2);
                    if elapsed_secs(now, self.state.last_keepalive)
                        >= self.config.keepalive_interval {
                        actions.push(ClientAction::Send { to: peer, packet: Packet::Keepalive });
                        self.state.last_keepalive = now;
                    }
                    assert(client_actions_view(actions@) =~= tick_step(old(self)@, now).1);
                } else {
                    if let Some(target) = self.state.target {
                        if elapsed_millis(now, self.state.last_punch)
                            >= self.config.punch_interval {
                            self.push_punches(target.addr, &mut actions);
                            self.state.last_punch = now;
                            self.state.punch_attempts = self.state.punch_attempts.wrapping_add(1);
                        }
                    }
                    assert(client_actions_view(actions@) =~= tick_step(old(self)@, now).1);
                }
            },
            _ => {},
        }
        actions
    }
}

/// The name of a mode.
pub open spec fn mode_name(mode: ConnectionMode) -> Seq<char> {
    match mode {
        ConnectionMode::Direct => "direct"@,
        ConnectionMode::Relay => "relay"@,
        ConnectionMode::Disconnected => "disconnected"@,
    }
}

/// Whether what the state says is for the user to see: not while the client only prepares for a
/// peer that was announced and that nobody asked for.
pub open spec fn is_shown(s: ConnectionStateView) -> bool {
    s.target is Some || s.is_p2p || !s.is_connecting
}

/// The mode that the user sees.
pub open spec fn shown_mode(s: ConnectionStateView) -> ConnectionMode {
    if is_shown(s) {
        s.mode
    } else {
        ConnectionMode::Disconnected
    }
}

/// What the control panel shows of a connection, beside the devices that are online.
pub open spec fn panel_status(
    s: ConnectionStateView,
    online_devices: Seq<OnlineDeviceView>,
) -> ConnectionStatusView {
    let message = if is_shown(s) {
        s.connect_message
    } else {
        Seq::empty()
    };
    ConnectionStatusView {
        mode: mode_name(shown_mode(s)),
        mode_code: code_of(shown_mode(s)),
        is_connected: shown_mode(s) != ConnectionMode::Disconnected,
        status_text: message,
        is_connecting: is_shown(s) && s.is_connecting && s.mode == ConnectionMode::Disconnected,
        connect_failed: s.connect_failed,
        connect_message: message,
        peer_ip: match s.peer_vip {
            Some(vip) => ip_text(vip),
            None => Seq::empty(),
        },
        peer_latency: s.last_latency,
        online_devices,
    }
}

impl Client {
    /// What the control panel is to show of the connection, beside the devices that are online.
    pub fn status(&self, online_devices: Vec<OnlineDevice>) -> (r: ConnectionStatus)
        ensures
            r@ == panel_status(self@.state, devices_view(online_devices@)),
    {
        let shown: bool = self.state.target.is_some() || self.state.is_p2p
            || !self.state.is_connecting;
        let mode: ConnectionMode = if shown {
            self.state.mode
        } else {
            ConnectionMode::Disconnected
        };
        let message: String = if shown {
            self.state.connect_message.clone()
        } else {
            String::new()
        };
        ConnectionStatus {
            mode: (match mode {
                ConnectionMode::Direct => "direct",
                ConnectionMode::Relay => "relay",
                ConnectionMode::Disconnected => "disconnected",
            }).to_owned(),
            mode_code: u8::from(mode),
            is_connected: mode != ConnectionMode::Disconnected,
            status_text: message.clone(),
            is_connecting: shown && self.state.is_connecting && mode
                == ConnectionMode::Disconnected,
            connect_failed: self.state.connect_failed,
            connect_message: message,
            peer_ip: match self.state.peer_vip {
                Some(vip) => ip_string(vip),
                None => String::new(),
            },
            peer_latency: self.state.last_latency,
            online_devices,
        }
    }
}

/// How a connection stands, as it is reported to the user.
#[derive(Debug)]
pub struct ConnectionReport {
    pub mode: String,
    pub mode_code: u8,
    pub is_connected: bool,
    pub is_connecting: bool,
    pub connect_failed: bool,
    pub connect_message: String,
}

/// The report before there is anything to report: no connection.
pub fn get_connection_status() -> (r: ConnectionReport)
    ensures
        r.mode@ == "disconnected"@,
        r.mode_code == code_of(ConnectionMode::Disconnected),
        !r.is_connected,
        !r.is_connecting,
        !r.connect_failed,
        r.connect_message@ == Seq::<char>::empty(),
{
    ConnectionReport {
        mode: "disconnected".to_owned(),
        mode_code: u8::from(ConnectionMode::Disconnected),
        is_connected: false,
        is_connecting: false,
        connect_failed: false,
        connect_message: String::new(),
    }
}

} // verus!

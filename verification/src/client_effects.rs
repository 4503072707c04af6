//! What each packet, each request and the passing of time do to a client and make it do, told by
//! what is found in its state.

use vstd::prelude::*;
use crate::addr::{ip_text, law_ip_text_roundtrip, spec_parse_ip, Ipv4Addr, SocketAddr};
use crate::client::{
    beat_step, client_actions_view, client_step, code_of, connect_step, default_state, device_vip,
    find_target, is_self, mode_of, new_client, panel_status, port_list, punch_step, punches,
    route, server_packet_step, tick_step, timeout_step, ClientAction, ClientActionView,
    ClientView, ConnectionMode, ConnectionState, ConnectionStateView, PunchHoleConfig, Target,
    BEAT_INTERVAL_SECS, HANDSHAKE_PAUSE_SECS, HANDSHAKE_WAIT_SECS, PEER_BEAT_INTERVAL_SECS,
    PUNCH_PAUSE_MILLIS, TICK_MILLIS,
};
use crate::client_laws::law_port_list;
use crate::clock::{spec_elapsed_millis, spec_elapsed_secs};
use crate::protocol::PacketView;
use crate::table::lookup;
use crate::webui::OnlineDeviceView;

verus! {

/// The periods of a client, and that every further port of a round waits ten milliseconds more.
pub proof fn law_client_periods()
    ensures
        HANDSHAKE_WAIT_SECS == 2,
        HANDSHAKE_PAUSE_SECS == 1,
        TICK_MILLIS == 100,
        BEAT_INTERVAL_SECS == 3,
        PEER_BEAT_INTERVAL_SECS == 2,
        PUNCH_PAUSE_MILLIS == 10,
{
}

/// The modes and their numbers.
pub proof fn law_mode_numbers(val: u8)
    ensures
        code_of(ConnectionMode::Direct) == 0,
        code_of(ConnectionMode::Relay) == 1,
        code_of(ConnectionMode::Disconnected) == 2,
        mode_of(val) == ConnectionMode::Direct <==> val == 0,
        mode_of(val) == ConnectionMode::Relay <==> val == 1,
        mode_of(val) == ConnectionMode::Disconnected <==> val >= 2,
{
}

/// The models of what a client wants done, and of its state, hold all that is in them.
pub proof fn law_client_views(
    action: ClientAction,
    actions: Seq<ClientAction>,
    s: ConnectionState,
    i: int,
)
    ensures
        match action {
            ClientAction::Send { to, packet } => action@ matches ClientActionView::Send {
                to: t,
                packet: p,
            } && t == to && p == packet@,
            ClientAction::Punch { to, packet, pause_millis } => {
                &&& action@ matches ClientActionView::Punch { to: t, packet: p, pause_millis: m }
                &&& t == to
                &&& p == packet@
                &&& m == pause_millis
            },
            ClientAction::WriteTun { data } => action@ matches ClientActionView::WriteTun { data: d }
                && d == data@,
            ClientAction::StartPunchTimer { secs } => {
                action@ matches ClientActionView::StartPunchTimer { secs: n } && n == secs
            },
            ClientAction::ReportLatency { via_server, millis } => {
                &&& action@ matches ClientActionView::ReportLatency { via_server: v, millis: m }
                &&& v == via_server
                &&& m == millis
            },
            ClientAction::ShowDevices { devices } => {
                &&& action@ matches ClientActionView::ShowDevices { devices: list }
                &&& list.len() == devices@.len()
                &&& forall|k: int| 0 <= k < list.len() ==> #[trigger] list[k] == devices@[k]@
            },
        },
        client_actions_view(actions).len() == actions.len(),
        0 <= i < actions.len() ==> client_actions_view(actions)[i] == actions[i]@,
        s@.mode == s.mode,
        s@.peer_addr == s.peer_addr,
        s@.peer_vip == s.peer_vip,
        s@.peer_id == s.peer_id@,
        s@.is_p2p == s.is_p2p,
        s@.last_punch == s.last_punch,
        s@.punch_attempts == s.punch_attempts,
        s@.last_latency == s.last_latency,
        s@.last_mode_change == s.last_mode_change,
        s@.is_connecting == s.is_connecting,
        s@.connect_failed == s.connect_failed,
        s@.connect_message == s.connect_message@,
        s@.target == s.target,
        s@.server_ping_time == s.server_ping_time,
        s@.p2p_ping_time == s.p2p_ping_time,
        s@.last_keepalive == s.last_keepalive,
{
}

/// A client starts out with no peer, nothing asked for, nothing measured, and all its clocks at the
/// time of its start.
pub proof fn law_client_at_start(
    server_addr: SocketAddr,
    local_addr: SocketAddr,
    my_ip: Ipv4Addr,
    now: u64,
)
    ensures
        ({
            let c = new_client(server_addr, local_addr, my_ip, now);
            let s = c.state;
            &&& c.server_addr == server_addr
            &&& c.local_addr == local_addr
            &&& c.my_ip == my_ip
            &&& c.last_beat == now
            &&& c.peer_map.len() == 0
            &&& c.devices.len() == 0
            &&& c.pending is None
            &&& s == default_state(now)
            &&& s.mode == ConnectionMode::Disconnected
            &&& s.peer_addr is None
            &&& s.peer_vip is None
            &&& s.peer_id.len() == 0
            &&& !s.is_p2p
            &&& s.last_punch == now
            &&& s.punch_attempts == 0
            &&& s.last_latency == -1
            &&& s.last_mode_change == now
            &&& !s.is_connecting
            &&& !s.connect_failed
            &&& s.connect_message.len() == 0
            &&& s.target is None
            &&& s.server_ping_time is None
            &&& s.p2p_ping_time is None
            &&& s.last_keepalive == now
            &&& c.config.max_concurrency == 2
            &&& c.config.port_range == 6
            &&& c.config.base_port_offset == 0
            &&& c.config.enable_relay
            &&& c.config.relay_fallback
            &&& c.config.punch_timeout == 10
            &&& c.config.punch_interval == 200
            &&& c.config.keepalive_interval == 30
        }),
{
}

/// Whether two states agree on the peer and on how it is reached.
pub open spec fn same_link(s: ConnectionStateView, t: ConnectionStateView) -> bool {
    &&& s.mode == t.mode
    &&& s.peer_addr == t.peer_addr
    &&& s.peer_vip == t.peer_vip
    &&& s.peer_id == t.peer_id
    &&& s.is_p2p == t.is_p2p
    &&& s.last_mode_change == t.last_mode_change
    &&& s.is_connecting == t.is_connecting
    &&& s.connect_failed == t.connect_failed
    &&& s.connect_message == t.connect_message
    &&& s.target == t.target
}

/// Whether two states agree on when what was sent.
pub open spec fn same_clocks(s: ConnectionStateView, t: ConnectionStateView) -> bool {
    &&& s.last_punch == t.last_punch
    &&& s.server_ping_time == t.server_ping_time
    &&& s.p2p_ping_time == t.p2p_ping_time
    &&& s.last_keepalive == t.last_keepalive
}

/// Whether two clients were set up alike.
pub open spec fn same_setup(c: ClientView, d: ClientView) -> bool {
    &&& c.config == d.config
    &&& c.server_addr == d.server_addr
    &&& c.local_addr == d.local_addr
    &&& c.my_ip == d.my_ip
}

/// Whether two clients were told the same, and were asked for the same.
pub open spec fn same_knowledge(c: ClientView, d: ClientView) -> bool {
    &&& c.peer_map == d.peer_map
    &&& c.devices == d.devices
    &&& c.pending == d.pending
}

/// Nothing changes what a client was set up with, and only time when it last beat.
pub proof fn law_setup_stays(
    c: ClientView,
    src: SocketAddr,
    packet: PacketView,
    now: u64,
    id: Seq<char>,
)
    ensures
        same_setup(tick_step(c, now).0, c),
        same_setup(client_step(c, src, packet, now).0, c),
        same_setup(connect_step(c, id).0, c),
        client_step(c, src, packet, now).0.last_beat == c.last_beat,
        connect_step(c, id).0.last_beat == c.last_beat,
{
}

/// Time alone changes neither the peer nor how it is reached, neither what the client was told nor
/// what was measured.
pub proof fn law_time_keeps_link(c: ClientView, now: u64)
    ensures
        same_link(tick_step(c, now).0.state, c.state),
        same_knowledge(tick_step(c, now).0, c),
        tick_step(c, now).0.state.last_latency == c.state.last_latency,
{
}

/// How many heartbeats to the server are due.
pub open spec fn beats_due(c: ClientView, now: u64) -> int {
    if spec_elapsed_secs(now, c.last_beat) >= 3 {
        1
    } else {
        0
    }
}

/// Whenever three seconds have passed since the last one, the server gets a heartbeat first of all,
/// with the time in milliseconds, and it is noted when. Until then it gets none.
pub proof fn law_server_gets_heartbeats(c: ClientView, now: u64)
    ensures
        ({
            let (after, actions) = tick_step(c, now);
            &&& spec_elapsed_secs(now, c.last_beat) >= 3 ==> {
                &&& actions.len() > 0
                &&& actions[0] matches ClientActionView::Send { to, packet: PacketView::Ping(ts) }
                &&& to == c.server_addr
                &&& ts == now as int / 1_000_000
                &&& after.last_beat == now
                &&& after.state.server_ping_time == Some(now)
            }
            &&& spec_elapsed_secs(now, c.last_beat) < 3 ==> {
                &&& after.last_beat == c.last_beat
                &&& after.state.server_ping_time == c.state.server_ping_time
            }
        }),
{
}

/// Without a peer, or with one that is neither reached nor asked for, time makes a client send
/// nothing but the heartbeat to the server.
pub proof fn law_time_without_peer(c: ClientView, now: u64)
    requires
        c.state.peer_addr is None || c.state.peer_vip is None || (!c.state.is_p2p
            && c.state.target is None),
    ensures
        ({
            let (after, actions) = tick_step(c, now);
            &&& actions.len() == beats_due(c, now)
            &&& after.state.last_punch == c.state.last_punch
            &&& after.state.punch_attempts == c.state.punch_attempts
            &&& after.state.p2p_ping_time == c.state.p2p_ping_time
            &&& after.state.last_keepalive == c.state.last_keepalive
        }),
{
}

/// A peer that is reached directly gets a heartbeat whenever two seconds have passed since it was
/// last sent one, and a packet that keeps the hole open whenever the interval for that has passed;
/// it is noted when. Nothing else is sent to it.
pub proof fn law_reached_peer_is_kept(c: ClientView, peer: SocketAddr, now: u64)
    requires
        c.state.is_p2p,
        c.state.peer_addr == Some(peer),
        c.state.peer_vip is Some,
    ensures
        ({
            let (after, actions) = tick_step(c, now);
            let ping_due = spec_elapsed_secs(now, c.state.last_punch) >= 2;
            let keep_due = spec_elapsed_secs(now, c.state.last_keepalive)
                >= c.config.keepalive_interval;
            let b = beats_due(c, now);
            let p: int = if ping_due {
                1
            } else {
                0
            };
            let k: int = if keep_due {
                1
            } else {
                0
            };
            &&& actions.len() == b + p + k
            &&& ping_due ==> {
                &&& actions[b] matches ClientActionView::Send { to, packet: PacketView::Ping(ts) }
                &&& to == peer
                &&& ts == now as int / 1_000_000
                &&& after.state.last_punch == now
                &&& after.state.p2p_ping_time == Some(now)
                &&& c.state.punch_attempts < u32::MAX ==> after.state.punch_attempts
                    == c.state.punch_attempts + 1
                &&& c.state.punch_attempts == u32::MAX ==> after.state.punch_attempts == 0
            }
            &&& !ping_due ==> {
                &&& after.state.last_punch == c.state.last_punch
                &&& after.state.p2p_ping_time == c.state.p2p_ping_time
                &&& after.state.punch_attempts == c.state.punch_attempts
            }
            &&& keep_due ==> {
                &&& actions[b + p] matches ClientActionView::Send { to, packet }
                &&& to == peer
                &&& packet is Keepalive
                &&& after.state.last_keepalive == now
            }
            &&& !keep_due ==> after.state.last_keepalive == c.state.last_keepalive
        }),
{
}

proof fn lemma_punches_cover(c: ClientView, peer: SocketAddr, ports: Seq<u16>, n: int, k: int)
    requires
        0 <= k < n <= ports.len(),
        n <= 0x1_0000,
    ensures
        !(c.local_addr.spec_port() == ports[k] && c.local_addr.spec_same_ip(peer)) ==> punches(
            c,
            peer,
            ports,
            n,
        ).contains(
            ClientActionView::Punch {
                to: peer.spec_at_port(ports[k]),
                packet: PacketView::Punch { vip: ip_text(c.my_ip) },
                pause_millis: (10 * k) as u64,
            },
        ),
    decreases n,
{
    let all = punches(c, peer, ports, n);
    let earlier = punches(c, peer, ports, n - 1);
    if k < n - 1 {
        lemma_punches_cover(c, peer, ports, n - 1, k);
        if !(c.local_addr.spec_port() == ports[k] && c.local_addr.spec_same_ip(peer)) {
            let wanted = ClientActionView::Punch {
                to: peer.spec_at_port(ports[k]),
                packet: PacketView::Punch { vip: ip_text(c.my_ip) },
                pause_millis: (10 * k) as u64,
            };
            let j = choose|j: int| 0 <= j < earlier.len() && earlier[j] == wanted;
            assert(all[j] == wanted);
        }
    } else if !is_self(c.local_addr, peer.spec_at_port(ports[k])) {
        assert(all.last() == all[all.len() - 1]);
    }
}

/// Whether `action` is the punch at the port with the number `k` of a list, sent by `c` to the host
/// of `peer`.
pub open spec fn is_punch_at(
    action: ClientActionView,
    c: ClientView,
    peer: SocketAddr,
    ports: Seq<u16>,
    k: int,
) -> bool {
    &&& action matches ClientActionView::Punch { to, packet: PacketView::Punch { vip }, pause_millis }
    &&& to == peer.spec_at_port(ports[k])
    &&& vip == ip_text(c.my_ip)
    &&& pause_millis == 10 * k
    &&& !(c.local_addr.spec_port() == ports[k] && c.local_addr.spec_same_ip(peer))
}

proof fn lemma_punches_are_punches(c: ClientView, peer: SocketAddr, ports: Seq<u16>, n: int, j: int)
    requires
        0 <= n <= ports.len(),
        n <= 0x1_0000,
        0 <= j < punches(c, peer, ports, n).len(),
    ensures
        exists|k: int|
            0 <= k < n && #[trigger] is_punch_at(
                punches(c, peer, ports, n)[j],
                c,
                peer,
                ports,
                k,
            ),
        punches(c, peer, ports, n).len() <= n,
    decreases n,
{
    if n > 0 {
        let earlier = punches(c, peer, ports, n - 1);
        if earlier.len() > 0 {
            lemma_punches_are_punches(
                c,
                peer,
                ports,
                n - 1,
                if j < earlier.len() {
                    j
                } else {
                    0
                },
            );
        }
        if j < earlier.len() {
            let k = choose|k: int|
                0 <= k < n - 1 && #[trigger] is_punch_at(earlier[j], c, peer, ports, k);
            assert(is_punch_at(punches(c, peer, ports, n)[j], c, peer, ports, k));
        } else {
            assert(is_punch_at(punches(c, peer, ports, n)[j], c, peer, ports, n - 1));
        }
    }
}

/// Whenever the interval has passed since the last round, the peer that was asked for and is not
/// reached is punched: at every port of the list on the host where it was seen, but not where the
/// client itself is, each with the client's own address and a longer pause after every further
/// port; and at nothing else. Before that nothing is sent to it.
pub proof fn law_round_covers_ports(c: ClientView, target: Target, now: u64, k: int, j: int)
    requires
        !c.state.is_p2p,
        c.state.peer_addr is Some,
        c.state.peer_vip is Some,
        c.state.target == Some(target),
    ensures
        ({
            let (after, actions) = tick_step(c, now);
            let ports = port_list(
                target.addr.spec_port(),
                c.config.port_range,
                c.config.base_port_offset,
            );
            let b = beats_due(c, now);
            if spec_elapsed_millis(now, c.state.last_punch) >= c.config.punch_interval {
                &&& after.state.last_punch == now
                &&& c.state.punch_attempts < u32::MAX ==> after.state.punch_attempts
                    == c.state.punch_attempts + 1
                &&& c.state.punch_attempts == u32::MAX ==> after.state.punch_attempts == 0
                &&& b <= actions.len() <= b + ports.len()
                &&& 0 <= k < ports.len() && !(c.local_addr.spec_port() == ports[k]
                    && c.local_addr.spec_same_ip(target.addr)) ==> actions.contains(
                    ClientActionView::Punch {
                        to: target.addr.spec_at_port(ports[k]),
                        packet: PacketView::Punch { vip: ip_text(c.my_ip) },
                        pause_millis: (10 * k) as u64,
                    },
                )
                &&& b <= j < actions.len() ==> exists|i: int|
                    0 <= i < ports.len() && #[trigger] is_punch_at(
                        actions[j],
                        c,
                        target.addr,
                        ports,
                        i,
                    )
            } else {
                &&& after.state.last_punch == c.state.last_punch
                &&& after.state.punch_attempts == c.state.punch_attempts
                &&& actions.len() == b
            }
        }),
        tick_step(c, now).0.state.p2p_ping_time == c.state.p2p_ping_time,
        tick_step(c, now).0.state.last_keepalive == c.state.last_keepalive,
{
    let (c1, beat) = beat_step(c, now);
    let actions = tick_step(c, now).1;
    let ports = port_list(target.addr.spec_port(), c.config.port_range, c.config.base_port_offset);
    let n: int = ports.len() as int;
    if spec_elapsed_millis(now, c.state.last_punch) >= c.config.punch_interval {
        let round = punch_step(c1, target.addr, now).1;
        assert(actions == beat + round);
        assert(round == punches(c1, target.addr, ports, n));
        assert(n <= 0x1_0000);
        if round.len() > 0 {
            lemma_punches_are_punches(c1, target.addr, ports, n, 0);
        }
        if 0 <= k < n {
            lemma_punches_cover(c1, target.addr, ports, n, k);
            let wanted = ClientActionView::Punch {
                to: target.addr.spec_at_port(ports[k]),
                packet: PacketView::Punch { vip: ip_text(c.my_ip) },
                pause_millis: (10 * k) as u64,
            };
            if round.contains(wanted) {
                let m = choose|m: int| 0 <= m < round.len() && round[m] == wanted;
                assert(actions[beat.len() + m] == wanted);
            }
        }
        if beat.len() <= j < actions.len() {
            lemma_punches_are_punches(c1, target.addr, ports, n, j - beat.len());
            assert(actions[j] == round[j - beat.len()]);
            let i = choose|i: int|
                0 <= i < n && #[trigger] is_punch_at(
                    round[j - beat.len()],
                    c1,
                    target.addr,
                    ports,
                    i,
                );
            assert(is_punch_at(actions[j], c, target.addr, ports, i));
        }
    }
}

/// Every punch names the client that sent it, and whoever gets it takes that client to be its peer,
/// reached directly at where the punch came from.
pub proof fn law_punch_names_sender(
    one: ClientView,
    two: ClientView,
    src: SocketAddr,
    now: u64,
    later: u64,
    j: int,
)
    requires
        0 <= j < tick_step(one, now).1.len(),
        tick_step(one, now).1[j] is Punch,
    ensures
        ({
            let sent = tick_step(one, now).1[j]->Punch_packet;
            let after = client_step(two, src, sent, later).0;
            &&& sent matches PacketView::Punch { vip }
            &&& spec_parse_ip(vip) == Some(one.my_ip)
            &&& after.state.peer_vip == Some(one.my_ip)
            &&& after.state.peer_addr == Some(src)
            &&& after.state.is_p2p
            &&& after.state.mode == ConnectionMode::Direct
        }),
{
    law_ip_text_roundtrip(one.my_ip);
    if one.state.is_p2p && one.state.peer_addr is Some && one.state.peer_vip is Some {
        law_reached_peer_is_kept(one, one.state.peer_addr->0, now);
        law_server_gets_heartbeats(one, now);
        let b = beats_due(one, now);
        assert(j == 0 || j == b || j == b + 1);
        assert(!(tick_step(one, now).1[j] is Punch));
    } else if one.state.peer_addr is None || one.state.peer_vip is None
        || one.state.target is None {
        law_time_without_peer(one, now);
        law_server_gets_heartbeats(one, now);
    } else {
        let target = one.state.target->0;
        law_round_covers_ports(one, target, now, 0, j);
        law_server_gets_heartbeats(one, now);
        if j >= beats_due(one, now) {
            let ports = port_list(
                target.addr.spec_port(),
                one.config.port_range,
                one.config.base_port_offset,
            );
            let i = choose|i: int|
                0 <= i < ports.len() && #[trigger] is_punch_at(
                    tick_step(one, now).1[j],
                    one,
                    target.addr,
                    ports,
                    i,
                );
        }
    }
}

/// The ports that are tried begin `offset` away from the base, or at 1 where that would be lower;
/// a first port that does not fit in 16 bits is cut to them. They go on for as many more ports as
/// the range says, or as there are.
pub proof fn law_ports_tried(base_port: u16, port_range: u16, offset: i32, start: int)
    requires
        1 <= base_port + offset <= 0xffff ==> start == base_port + offset,
        base_port + offset < 1 || base_port + offset > i32::MAX ==> start == 1,
        0xffff < base_port + offset <= i32::MAX ==> start == (base_port + offset) % 0x1_0000,
    ensures
        ({
            let ports = port_list(base_port, port_range, offset);
            let last = if start + port_range <= 0xffff {
                start + port_range
            } else {
                0xffff
            };
            &&& start > 0 ==> ports.len() == last - start + 1 && ports[0] == start
            &&& start == 0 ==> ports.len() == port_range && (port_range > 0 ==> ports[0] == 1)
            &&& ports.len() > 0 ==> ports.last() == last
        }),
{
    let ports = port_list(base_port, port_range, offset);
    if ports.len() > 0 {
        law_port_list(base_port, port_range, offset, ports.len() - 1);
    }
}

/// An IP packet goes to the device and a heartbeat is answered to whoever sent it, with what it
/// held; neither changes the client.
pub proof fn law_packets_and_heartbeats(
    c: ClientView,
    src: SocketAddr,
    data: Seq<u8>,
    ts: u64,
    now: u64,
)
    ensures
        client_step(c, src, PacketView::Data(data), now).0 == c,
        client_step(c, src, PacketView::Data(data), now).1 == seq![
            ClientActionView::WriteTun { data },
        ],
        client_step(c, src, PacketView::Ping(ts), now).0 == c,
        client_step(c, src, PacketView::Ping(ts), now).1 == seq![
            ClientActionView::Send { to: src, packet: PacketView::Pong(ts) },
        ],
{
}

/// A punch makes the connection direct, to where it came from and with whom it names, whoever sent
/// it and whatever was before; it is not answered. What was measured, asked for and sent stays. A
/// punch that names no address does nothing.
pub proof fn law_punch_makes_direct(c: ClientView, src: SocketAddr, vip: Seq<char>, now: u64)
    ensures
        ({
            let (after, actions) = client_step(c, src, PacketView::Punch { vip }, now);
            &&& actions.len() == 0
            &&& match spec_parse_ip(vip) {
                Some(ip) => {
                    &&& after.state.mode == ConnectionMode::Direct
                    &&& after.state.is_p2p
                    &&& after.state.peer_addr == Some(src)
                    &&& after.state.peer_vip == Some(ip)
                    &&& after.state.last_mode_change == now
                    &&& !after.state.is_connecting
                    &&& after.state.connect_message.len() == 0
                    &&& after.state.peer_id == c.state.peer_id
                    &&& after.state.punch_attempts == c.state.punch_attempts
                    &&& after.state.last_latency == c.state.last_latency
                    &&& after.state.connect_failed == c.state.connect_failed
                    &&& after.state.target == c.state.target
                    &&& same_clocks(after.state, c.state)
                    &&& same_knowledge(after, c)
                },
                None => after == c,
            }
        }),
{
}

/// The answer to a heartbeat tells the milliseconds since the last one was sent to whoever answers:
/// the server, or else the peer. It is reported and kept. Where none was sent, or the client hears
/// itself, it tells nothing. Nothing else changes.
pub proof fn law_answer_tells_latency(c: ClientView, src: SocketAddr, ts: u64, now: u64)
    ensures
        ({
            let (after, actions) = client_step(c, src, PacketView::Pong(ts), now);
            let own = c.local_addr.spec_port() == src.spec_port() && c.local_addr.spec_same_ip(src);
            let sent = if src == c.server_addr {
                c.state.server_ping_time
            } else {
                c.state.p2p_ping_time
            };
            &&& own || sent is None ==> after == c && actions.len() == 0
            &&& !own ==> (sent matches Some(then) ==> {
                &&& actions.len() == 1
                &&& actions[0] matches ClientActionView::ReportLatency { via_server, millis }
                &&& via_server <==> src == c.server_addr
                &&& millis == spec_elapsed_millis(now, then)
                &&& millis <= i32::MAX ==> after.state.last_latency == millis
                &&& after.state.last_latency == millis as i32
            })
            &&& same_link(after.state, c.state)
            &&& same_clocks(after.state, c.state)
            &&& after.state.punch_attempts == c.state.punch_attempts
            &&& same_knowledge(after, c)
        }),
{
}

/// An announcement makes the client take whoever it names to be its peer, where it says, and begin
/// to connect, with the attempts counted anew; the time for punching begins. It changes neither how
/// the peer is reached nor what was measured. Of the peer that was asked for only where it is, and
/// only if it is the one announced. An announcement that cannot be read does nothing.
pub proof fn law_announcement_sets_peer(
    s: ConnectionStateView,
    peer_vip: Seq<char>,
    peer_addr: Option<SocketAddr>,
)
    ensures
        ({
            let (after, starts) = server_packet_step(
                s,
                PacketView::PeerInfo { peer_vip, peer_addr },
            );
            match (spec_parse_ip(peer_vip), peer_addr) {
                (Some(vip), Some(addr)) => {
                    &&& starts
                    &&& after.peer_addr == Some(addr)
                    &&& after.peer_vip == Some(vip)
                    &&& after.is_connecting
                    &&& after.connect_message == "正在建立 P2P 连接..."@
                    &&& !after.connect_failed
                    &&& after.punch_attempts == 0
                    &&& after.mode == s.mode
                    &&& after.is_p2p == s.is_p2p
                    &&& after.peer_id == s.peer_id
                    &&& after.last_latency == s.last_latency
                    &&& after.last_mode_change == s.last_mode_change
                    &&& same_clocks(after, s)
                    &&& match s.target {
                        Some(target) => {
                            &&& after.target matches Some(now_at)
                            &&& now_at.vip == target.vip
                            &&& now_at.addr == if target.vip == vip {
                                addr
                            } else {
                                target.addr
                            }
                        },
                        None => after.target is None,
                    }
                },
                _ => after == s && !starts,
            }
        }),
{
}

/// The server's word of where to reach a peer makes that peer the one that is connected to and the
/// one that was asked for. No time for punching begins with it, and nothing else changes.
pub proof fn law_word_of_peer_sets_target(
    s: ConnectionStateView,
    peer_vip: Ipv4Addr,
    peer_addr: Ipv4Addr,
    port: u16,
    peer_id: Seq<char>,
)
    ensures
        ({
            let (after, starts) = server_packet_step(
                s,
                PacketView::ConnectPeer { peer_vip, peer_addr, port, peer_id },
            );
            let addr = SocketAddr::V4 { ip: peer_addr, port };
            &&& !starts
            &&& after.peer_addr == Some(addr)
            &&& after.peer_vip == Some(peer_vip)
            &&& after.is_connecting
            &&& after.connect_message == "正在打洞..."@
            &&& after.target == Some(Target { vip: peer_vip, addr })
            &&& after.mode == s.mode
            &&& after.is_p2p == s.is_p2p
            &&& after.peer_id == s.peer_id
            &&& after.connect_failed == s.connect_failed
            &&& after.punch_attempts == s.punch_attempts
            &&& after.last_latency == s.last_latency
            &&& after.last_mode_change == s.last_mode_change
            &&& same_clocks(after, s)
        }),
{
}

/// The word that the server relays puts the client in the relay mode with the peer that is named,
/// and ends connecting; one that names no address does nothing. The word to disconnect takes the
/// peer away, and what was asked for. Neither begins the time for punching, and neither changes
/// anything else.
pub proof fn law_relay_and_disconnect(
    s: ConnectionStateView,
    peer_id: Seq<char>,
    peer_vip: Seq<char>,
)
    ensures
        ({
            let (after, starts) = server_packet_step(
                s,
                PacketView::RelayEnabled { peer_id, peer_vip },
            );
            &&& !starts
            &&& match spec_parse_ip(peer_vip) {
                Some(vip) => {
                    &&& after.mode == ConnectionMode::Relay
                    &&& after.peer_id == peer_id
                    &&& after.peer_vip == Some(vip)
                    &&& !after.is_connecting
                    &&& after.connect_message.len() == 0
                    &&& after.peer_addr == s.peer_addr
                    &&& after.is_p2p == s.is_p2p
                    &&& after.connect_failed == s.connect_failed
                    &&& after.punch_attempts == s.punch_attempts
                    &&& after.last_latency == s.last_latency
                    &&& after.last_mode_change == s.last_mode_change
                    &&& after.target == s.target
                    &&& same_clocks(after, s)
                },
                None => after == s,
            }
        }),
        ({
            let (after, starts) = server_packet_step(s, PacketView::DisconnectPeer);
            &&& !starts
            &&& after.mode == ConnectionMode::Disconnected
            &&& after.peer_addr is None
            &&& after.peer_vip is None
            &&& !after.is_p2p
            &&& !after.is_connecting
            &&& after.connect_message.len() == 0
            &&& after.target is None
            &&& after.peer_id == s.peer_id
            &&& after.connect_failed == s.connect_failed
            &&& after.punch_attempts == s.punch_attempts
            &&& after.last_latency == s.last_latency
            &&& after.last_mode_change == s.last_mode_change
            &&& same_clocks(after, s)
        }),
{
}

/// No other packet of the server changes how the connection stands.
pub proof fn law_other_words_change_nothing(s: ConnectionStateView, packet: PacketView)
    requires
        !(packet is PeerInfo || packet is ConnectPeer || packet is RelayEnabled
            || packet is DisconnectPeer),
    ensures
        server_packet_step(s, packet) == (s, false),
{
}

/// What comes from the server changes the connection as said of it, and starts the timer exactly
/// where the time for punching begins. Only an announcement changes where clients are known to be,
/// and only a disconnect ends a request that waits, but for the announcement that meets it.
pub proof fn law_server_is_obeyed(c: ClientView, packet: PacketView, now: u64)
    requires
        !(packet is Data || packet is Punch || packet is Ping || packet is Pong
            || packet is OnlineDevices),
    ensures
        ({
            let (after, actions) = client_step(c, c.server_addr, packet, now);
            let (state, starts) = server_packet_step(c.state, packet);
            &&& starts ==> actions.len() == 1 && actions[0] == (ClientActionView::StartPunchTimer {
                secs: c.config.punch_timeout,
            })
            &&& !starts ==> actions.len() == 0
            &&& !(packet is PeerInfo) ==> after.state == state && after.peer_map == c.peer_map
            &&& packet is PeerInfo ==> {
                &&& c.pending is None ==> after.state == state
                &&& after.pending is Some ==> after.state == state && after.pending == c.pending
                &&& after.state == (ConnectionStateView { target: after.state.target, ..state })
            }
            &&& packet is DisconnectPeer ==> after.pending is None
            &&& !(packet is PeerInfo || packet is DisconnectPeer) ==> after.pending == c.pending
            &&& after.devices == c.devices
        }),
{
}

/// The list of who is online is shown as it came and remembered. Where nothing waits for it, it
/// changes nothing else.
pub proof fn law_list_is_shown(c: ClientView, devices: Seq<OnlineDeviceView>, now: u64)
    ensures
        ({
            let (after, actions) = client_step(
                c,
                c.server_addr,
                PacketView::OnlineDevices(devices),
                now,
            );
            &&& actions.len() > 0
            &&& actions[0] == (ClientActionView::ShowDevices { devices })
            &&& after.devices == devices
            &&& after.peer_map == c.peer_map
            &&& c.pending is None ==> actions.len() == 1 && after.state == c.state
                && after.pending is None
        }),
{
}

/// When the time for punching is over, a client that is connecting and has not reached its peer is
/// in the relay mode, or has failed where it may not turn to the server. Nothing changes for one
/// that has reached its peer or is not connecting, and nothing else for any.
pub proof fn law_end_of_punching(s: ConnectionStateView, config: PunchHoleConfig)
    ensures
        ({
            let after = timeout_step(s, config);
            &&& s.is_p2p || !s.is_connecting ==> after == s
            &&& !s.is_p2p && s.is_connecting && config.enable_relay && config.relay_fallback ==> {
                &&& after.mode == ConnectionMode::Relay
                &&& after.connect_message == "使用中转模式"@
                &&& after.is_connecting
                &&& after.connect_failed == s.connect_failed
            }
            &&& !s.is_p2p && s.is_connecting && !(config.enable_relay && config.relay_fallback)
                ==> {
                &&& after.mode == s.mode
                &&& after.connect_message == "连接失败：无法建立 P2P 连接"@
                &&& !after.is_connecting
                &&& after.connect_failed
            }
            &&& after.peer_addr == s.peer_addr
            &&& after.peer_vip == s.peer_vip
            &&& after.peer_id == s.peer_id
            &&& after.is_p2p == s.is_p2p
            &&& after.punch_attempts == s.punch_attempts
            &&& after.last_latency == s.last_latency
            &&& after.last_mode_change == s.last_mode_change
            &&& after.target == s.target
            &&& same_clocks(after, s)
        }),
{
}

proof fn lemma_first_device(devices: Seq<OnlineDeviceView>, id: Seq<char>, i: int)
    requires
        0 <= i <= devices.len(),
        forall|j: int| 0 <= j < i ==> (#[trigger] devices[j]).client_id != id,
        i < devices.len() ==> devices[i].client_id == id,
    ensures
        i < devices.len() ==> device_vip(devices, id) == spec_parse_ip(devices[i].vip),
        i == devices.len() ==> device_vip(devices, id) is None,
    decreases i,
{
    if i > 0 {
        let rest = devices.skip(1);
        assert(devices[0].client_id != id);
        assert forall|j: int| 0 <= j < i - 1 implies (#[trigger] rest[j]).client_id != id by {
            assert(rest[j] == devices[j + 1]);
        }
        if i < devices.len() {
            assert(rest[i - 1] == devices[i]);
        }
        lemma_first_device(rest, id, i - 1);
    }
}

/// The client that is asked for is found where it was announced, under the address that the first
/// device of the list with its identity has; not where it is not in the list, was not announced, or
/// is the client itself.
pub proof fn law_target_is_found(c: ClientView, id: Seq<char>, i: int, vip: Ipv4Addr)
    requires
        0 <= i <= c.devices.len(),
        forall|j: int| 0 <= j < i ==> (#[trigger] c.devices[j]).client_id != id,
        i < c.devices.len() ==> c.devices[i].client_id == id && c.devices[i].vip == ip_text(vip),
    ensures
        i == c.devices.len() ==> find_target(c, id) is None,
        i < c.devices.len() && vip == c.my_ip ==> find_target(c, id) is None,
        i < c.devices.len() && vip != c.my_ip ==> match lookup(c.peer_map, vip) {
            Some(addr) => {
                &&& find_target(c, id) matches Some(target)
                &&& target.vip == vip
                &&& target.addr == addr
            },
            None => find_target(c, id) is None,
        },
{
    lemma_first_device(c.devices, id, i);
    law_ip_text_roundtrip(vip);
}

/// A device whose address cannot be read is not found.
pub proof fn law_unreadable_device_is_not_found(c: ClientView, id: Seq<char>, i: int)
    requires
        0 <= i < c.devices.len(),
        forall|j: int| 0 <= j < i ==> (#[trigger] c.devices[j]).client_id != id,
        c.devices[i].client_id == id,
        spec_parse_ip(c.devices[i].vip) is None,
    ensures
        find_target(c, id) is None,
{
    lemma_first_device(c.devices, id, i);
}

/// A request is told to the server, by the identity that is asked for and without a password. Where
/// that client is found and not reached already, the client turns to it: what it was connected to
/// before is given up, punching begins, and its time with it. Where it is reached already, nothing
/// changes.
pub proof fn law_request_turns_to_target(c: ClientView, id: Seq<char>)
    ensures
        ({
            let (after, actions) = connect_step(c, id);
            let s = after.state;
            &&& actions.len() > 0
            &&& actions[0] matches ClientActionView::Send {
                to,
                packet: PacketView::RequestConnect { target_id, password },
            }
            &&& to == c.server_addr
            &&& target_id == id
            &&& password.len() == 0
            &&& after.peer_map == c.peer_map
            &&& after.devices == c.devices
            &&& match find_target(c, id) {
                Some(target) => {
                    &&& after.pending is None
                    &&& c.state.is_p2p && c.state.peer_vip == Some(target.vip) ==> s == c.state
                        && actions.len() == 1
                    &&& !(c.state.is_p2p && c.state.peer_vip == Some(target.vip)) ==> {
                        &&& actions.len() == 2
                        &&& actions[1] == (ClientActionView::StartPunchTimer {
                            secs: c.config.punch_timeout,
                        })
                        &&& s.mode == ConnectionMode::Disconnected
                        &&& !s.is_p2p
                        &&& s.peer_addr == Some(target.addr)
                        &&& s.peer_vip == Some(target.vip)
                        &&& s.target == Some(target)
                        &&& s.is_connecting
                        &&& !s.connect_failed
                        &&& s.connect_message == "正在建立 P2P 连接..."@
                        &&& s.punch_attempts == 0
                        &&& s.peer_id == c.state.peer_id
                        &&& s.last_latency == c.state.last_latency
                        &&& s.last_mode_change == c.state.last_mode_change
                        &&& same_clocks(s, c.state)
                    }
                },
                None => after.pending == Some(id) && s == c.state && actions.len() == 1,
            }
        }),
{
}

/// IP packets go to the peer where it is reached directly, and to the server in every other case.
pub proof fn law_route(c: ClientView, peer: SocketAddr)
    ensures
        c.state.is_p2p && c.state.peer_addr == Some(peer) ==> route(c) == peer,
        !c.state.is_p2p || c.state.peer_addr is None ==> route(c) == c.server_addr,
{
}

/// The panel shows how the connection stands, the peer, the last round trip and the devices; but
/// not a connection that nobody asked for and that has not come about.
pub proof fn law_panel_shows_connection(
    s: ConnectionStateView,
    devices: Seq<OnlineDeviceView>,
    vip: Ipv4Addr,
)
    ensures
        ({
            let shown = panel_status(s, devices);
            let hidden = s.target is None && !s.is_p2p && s.is_connecting;
            let mode = if hidden {
                ConnectionMode::Disconnected
            } else {
                s.mode
            };
            &&& mode == ConnectionMode::Direct ==> shown.mode == "direct"@ && shown.mode_code == 0
            &&& mode == ConnectionMode::Relay ==> shown.mode == "relay"@ && shown.mode_code == 1
            &&& mode == ConnectionMode::Disconnected ==> shown.mode == "disconnected"@
                && shown.mode_code == 2
            &&& shown.is_connected <==> mode == ConnectionMode::Direct || mode
                == ConnectionMode::Relay
            &&& shown.is_connecting <==> !hidden && s.is_connecting && mode
                == ConnectionMode::Disconnected
            &&& shown.connect_failed == s.connect_failed
            &&& hidden ==> shown.connect_message.len() == 0 && shown.status_text.len() == 0
            &&& !hidden ==> shown.connect_message == s.connect_message && shown.status_text
                == s.connect_message
            &&& s.peer_vip is None ==> shown.peer_ip.len() == 0
            &&& s.peer_vip == Some(vip) ==> shown.peer_ip == ip_text(vip)
            &&& shown.peer_latency == s.last_latency
            &&& shown.online_devices == devices
        }),
{
}

/// A list of who is online meets a request that waits just as the request would have been met had
/// the list been there before it, but that the server is not told again.
pub proof fn law_list_meets_request(
    c: ClientView,
    devices: Seq<OnlineDeviceView>,
    id: Seq<char>,
    now: u64,
)
    requires
        c.pending == Some(id),
    ensures
        ({
            let (after, actions) = client_step(
                c,
                c.server_addr,
                PacketView::OnlineDevices(devices),
                now,
            );
            let (met, wanted) = connect_step(ClientView { devices, ..c }, id);
            &&& after == met
            &&& actions.len() == wanted.len()
            &&& forall|k: int| 1 <= k < actions.len() ==> #[trigger] actions[k] == wanted[k]
        }),
{
}

/// The announcement of the client that a request waits for meets it: that client is asked for, where
/// it was announced. The announcement of any other client leaves the request waiting.
pub proof fn law_announcement_meets_request(
    c: ClientView,
    id: Seq<char>,
    i: int,
    vip: Ipv4Addr,
    announced: Ipv4Addr,
    addr: SocketAddr,
    now: u64,
)
    requires
        c.pending == Some(id),
        0 <= i < c.devices.len(),
        forall|j: int| 0 <= j < i ==> (#[trigger] c.devices[j]).client_id != id,
        c.devices[i].client_id == id,
        c.devices[i].vip == ip_text(vip),
        vip != c.my_ip,
    ensures
        ({
            let packet = PacketView::PeerInfo {
                peer_vip: ip_text(announced),
                peer_addr: Some(addr),
            };
            let after = client_step(c, c.server_addr, packet, now).0;
            &&& announced == vip ==> {
                &&& after.pending is None
                &&& after.state.target matches Some(target)
                &&& target.vip == vip
                &&& target.addr == addr
            }
            &&& announced != vip ==> after.pending == Some(id)
        }),
{
    lemma_first_device(c.devices, id, i);
    law_ip_text_roundtrip(vip);
    law_ip_text_roundtrip(announced);
}

} // verus!

//! What holds of a client whatever it is sent.

use vstd::prelude::*;
use crate::addr::{ip_text, law_ip_text_roundtrip, spec_parse_ip, Ipv4Addr, SocketAddr};
use crate::client::{
    beat_step, client_step, connect_step, default_state, device_vip, find_target, first_port,
    is_self, keepalive_step, peer_beat_step, port_list, punch_packet, punch_step, punches,
    request_packet, route, tick_step, timeout_step, ClientActionView, ClientView, ConnectionMode,
    ConnectionStateView, PunchHoleConfig, Target, BEAT_INTERVAL_SECS, PEER_BEAT_INTERVAL_SECS,
};
use crate::clock::{spec_elapsed_millis, spec_elapsed_secs};
use crate::protocol::PacketView;
use crate::server::{
    connect_peers, online_list, peer_info, relay_notices, tables_wf, ActionView, ClientInfoView,
    NatSessionView, ServerView,
};
use crate::table::{is_at, keys_unique, lemma_put, lookup, place_of};
use crate::webui::OnlineDeviceView;

verus! {

/// A client that reaches its peer directly, or was asked to, knows where a peer is; and it says
/// that it is connected directly only if it is.
pub open spec fn consistent(s: ConnectionStateView) -> bool {
    &&& s.is_p2p ==> s.peer_addr is Some && s.peer_vip is Some
    &&& s.target is Some ==> s.peer_addr is Some && s.peer_vip is Some
    &&& s.mode == ConnectionMode::Direct ==> s.is_p2p
}

/// A client starts out consistent.
pub proof fn law_consistent_at_start(now: u64)
    ensures
        consistent(default_state(now)),
{
}

/// A client stays consistent, whatever it is sent or asked for, as time passes, and when the time
/// for punching is over.
pub proof fn law_stays_consistent(
    c: ClientView,
    src: SocketAddr,
    packet: PacketView,
    now: u64,
    config: PunchHoleConfig,
    target_id: Seq<char>,
)
    requires
        consistent(c.state),
    ensures
        consistent(connect_step(c, target_id).0.state),
        consistent(client_step(c, src, packet, now).0.state),
        consistent(tick_step(c, now).0.state),
        consistent(timeout_step(c.state, config)),
{
}

/// From a punch on, the client is connected directly, and its IP packets go to where the punch
/// came from; the end of the time for punching changes nothing of that.
pub proof fn law_direct_after_punch(
    c: ClientView,
    src: SocketAddr,
    vip: Ipv4Addr,
    now: u64,
    config: PunchHoleConfig,
)
    ensures
        ({
            let (after, actions) = client_step(
                c,
                src,
                PacketView::Punch { vip: ip_text(vip) },
                now,
            );
            &&& after.state.mode == ConnectionMode::Direct
            &&& after.state.peer_vip == Some(vip)
            &&& route(after) == src
            &&& timeout_step(after.state, config) == after.state
            &&& actions == Seq::<ClientActionView>::empty()
        }),
{
    law_ip_text_roundtrip(vip);
}

/// Before a punch came, IP packets go through the server, whatever else the client was told.
pub proof fn law_relayed_without_punch(c: ClientView, src: SocketAddr, packet: PacketView, now: u64)
    requires
        !c.state.is_p2p,
        !(packet is Punch),
    ensures
        route(c) == c.server_addr,
        route(client_step(c, src, packet, now).0) == c.server_addr,
        route(tick_step(c, now).0) == c.server_addr,
{
}

/// When the server takes the peer away, IP packets go through the server, and nothing but the
/// heartbeat to the server is sent any more.
pub proof fn law_quiet_after_disconnect(c: ClientView, now: u64, later: u64)
    ensures
        ({
            let after = client_step(c, c.server_addr, PacketView::DisconnectPeer, now).0;
            &&& route(after) == c.server_addr
            &&& after.state.mode == ConnectionMode::Disconnected
            &&& tick_step(after, later) == beat_step(after, later)
        }),
{
}

/// Only the server commands: what others send, other than packets of a connection, changes
/// nothing and is not answered.
pub proof fn law_only_server_commands(c: ClientView, src: SocketAddr, packet: PacketView, now: u64)
    requires
        src != c.server_addr,
        !(packet is Data || packet is Punch || packet is Ping || packet is Pong),
    ensures
        client_step(c, src, packet, now) == (c, Seq::<ClientActionView>::empty()),
{
}

/// Where the time for punching is over without a hole, a client that may turn to the server
/// does, and one that may not has failed.
pub proof fn law_relay_fallback(s: ConnectionStateView, config: PunchHoleConfig)
    requires
        !s.is_p2p,
        s.is_connecting,
    ensures
        config.enable_relay && config.relay_fallback ==> timeout_step(s, config).mode
            == ConnectionMode::Relay && timeout_step(s, config).connect_failed == s.connect_failed,
        !(config.enable_relay && config.relay_fallback) ==> timeout_step(s, config).connect_failed
            && !timeout_step(s, config).is_connecting,
{
}

proof fn lemma_punches(c: ClientView, peer: SocketAddr, ports: Seq<u16>, n: int)
    requires
        0 <= n <= ports.len(),
    ensures
        punches(c, peer, ports, n).len() <= n,
        forall|i: int|
            0 <= i < punches(c, peer, ports, n).len() ==> {
                let action = #[trigger] punches(c, peer, ports, n)[i];
                &&& action is Punch
                &&& !is_self(c.local_addr, action->Punch_to)
                &&& action->Punch_to.spec_same_ip(peer)
                &&& action->Punch_packet == punch_packet(c)
            },
    decreases n,
{
    if n > 0 {
        lemma_punches(c, peer, ports, n - 1);
    }
}

/// Whether an action is a heartbeat or a packet that keeps a hole open.
pub open spec fn is_upkeep(action: ClientActionView) -> bool {
    action matches ClientActionView::Send { packet, .. } && (packet is Ping || packet is Keepalive)
}

/// No hole is punched before a direct connection was asked for: until then the passing of time
/// makes the client send heartbeats and packets that keep a hole open, and nothing else; and only
/// the server's word of where to reach a peer makes it otherwise, whatever clients are announced.
pub proof fn law_no_punch_before_request(
    c: ClientView,
    src: SocketAddr,
    packet: PacketView,
    now: u64,
    config: PunchHoleConfig,
)
    requires
        c.state.target is None,
        c.pending is None,
    ensures
        forall|i: int|
            0 <= i < tick_step(c, now).1.len() ==> is_upkeep(#[trigger] tick_step(c, now).1[i]),
        tick_step(c, now).0.state.target is None,
        tick_step(c, now).0.pending is None,
        timeout_step(c.state, config).target is None,
        !(packet is ConnectPeer && src == c.server_addr) ==> client_step(
            c,
            src,
            packet,
            now,
        ).0.state.target is None,
        client_step(c, src, packet, now).0.pending is None,
{
}

/// Holes are punched to the peer that was asked for, and to no other: neither time nor the word of
/// another client changes which one that is, unless a newer request waits to be met.
pub proof fn law_target_stays(c: ClientView, src: SocketAddr, packet: PacketView, now: u64)
    requires
        c.state.target is Some,
        c.pending is None,
        !(src == c.server_addr && (packet is ConnectPeer || packet is DisconnectPeer)),
    ensures
        tick_step(c, now).0.state.target == c.state.target,
        client_step(c, src, packet, now).0.state.target matches Some(target) && target.vip
            == c.state.target->0.vip,
        packet matches PacketView::PeerInfo { peer_vip, .. } ==> spec_parse_ip(peer_vip) != Some(
            c.state.target->0.vip,
        ) ==> client_step(c, src, packet, now).0.state.target == c.state.target,
{
}

/// A client never punches at itself.
pub proof fn law_no_punch_at_self(c: ClientView, now: u64, i: int)
    requires
        0 <= i < tick_step(c, now).1.len(),
    ensures
        tick_step(c, now).1[i] matches ClientActionView::Punch { to, .. } ==> !is_self(
            c.local_addr,
            to,
        ),
{
    let (c1, beat) = beat_step(c, now);
    match (c1.state.peer_addr, c1.state.peer_vip) {
        (Some(peer), Some(_)) => {
            if !c1.state.is_p2p {
                let round = match c1.state.target {
                    Some(target) => {
                        let ports = port_list(
                            target.addr.spec_port(),
                            c1.config.port_range,
                            c1.config.base_port_offset,
                        );
                        lemma_punches(c1, target.addr, ports, ports.len() as int);
                        punch_step(c1, target.addr, now).1
                    },
                    None => Seq::empty(),
                };
                if i >= beat.len() {
                    assert(tick_step(c, now).1[i] == round[i - beat.len()]);
                } else {
                    assert(tick_step(c, now).1[i] == beat[i]);
                }
            } else {
                let (c2, peer_beat) = peer_beat_step(c1, peer, now);
                let keepalive = keepalive_step(c2, peer, now).1;
                if i < beat.len() {
                    assert(tick_step(c, now).1[i] == beat[i]);
                } else if i < beat.len() + peer_beat.len() {
                    assert(tick_step(c, now).1[i] == peer_beat[i - beat.len()]);
                } else {
                    assert(tick_step(c, now).1[i] == keepalive[i - beat.len() - peer_beat.len()]);
                }
            }
        },
        _ => {},
    }
}

proof fn lemma_first_punch(c: ClientView, peer: SocketAddr, ports: Seq<u16>, n: int)
    requires
        1 <= n <= ports.len(),
        !is_self(c.local_addr, peer.spec_at_port(ports[0])),
    ensures
        punches(c, peer, ports, n).len() > 0,
        punches(c, peer, ports, n)[0] == (ClientActionView::Punch {
            to: peer.spec_at_port(ports[0]),
            packet: punch_packet(c),
            pause_millis: 0,
        }),
    decreases n,
{
    reveal_with_fuel(punches, 2);
    if n > 1 {
        lemma_first_punch(c, peer, ports, n - 1);
    }
}

/// Once a direct connection was asked for, the peer is punched at where it was seen, whenever a
/// round is due, until it is reached. No punch leaves the host that it was seen at.
pub proof fn law_target_is_punched(c: ClientView, target: Target, now: u64)
    requires
        consistent(c.state),
        c.state.target == Some(target),
        !c.state.is_p2p,
        spec_elapsed_millis(now, c.state.last_punch) >= c.config.punch_interval,
    ensures
        c.config.base_port_offset == 0 && target.addr is V4 && target.addr.spec_port() > 0
            && !is_self(c.local_addr, target.addr) ==> tick_step(c, now).1.contains(
            ClientActionView::Punch {
                to: target.addr,
                packet: punch_packet(c),
                pause_millis: 0,
            },
        ),
        forall|i: int|
            0 <= i < tick_step(c, now).1.len() ==> match #[trigger] tick_step(c, now).1[i] {
                ClientActionView::Punch { to, packet, .. } => to.spec_same_ip(target.addr)
                    && packet == punch_packet(c),
                action => is_upkeep(action),
            },
{
    let (c1, beat) = beat_step(c, now);
    let port = target.addr.spec_port();
    let ports = port_list(port, c.config.port_range, c.config.base_port_offset);
    let round = punch_step(c1, target.addr, now).1;
    assert(tick_step(c, now).1 == beat + round);
    lemma_punches(c1, target.addr, ports, ports.len() as int);
    assert forall|i: int| 0 <= i < (beat + round).len() implies match #[trigger] (beat + round)[i] {
        ClientActionView::Punch { to, packet, .. } => to.spec_same_ip(target.addr) && packet
            == punch_packet(c),
        action => is_upkeep(action),
    } by {
        if i >= beat.len() {
            assert((beat + round)[i] == round[i - beat.len()]);
        }
    }
    if c.config.base_port_offset == 0 && target.addr is V4 && port > 0 && !is_self(
        c.local_addr,
        target.addr,
    ) {
        law_port_list_starts_at_peer(port, c.config.port_range);
        lemma_first_punch(c1, target.addr, ports, ports.len() as int);
        assert((beat + round)[beat.len() as int] == round[0]);
    }
}

/// What the server tells the two clients of a session makes each of them look for the other one
/// where it was seen, and punch at it.
pub proof fn law_session_brings_peers_together(
    one: ClientView,
    two: ClientView,
    session: NatSessionView,
    now: u64,
)
    requires
        session.peer_one_addr is V4,
        session.peer_two_addr is V4,
    ensures
        ({
            let told = connect_peers(session);
            &&& told.len() == 2
            &&& told[0] matches ActionView::Send { to: to_one, packet: for_one }
            &&& told[1] matches ActionView::Send { to: to_two, packet: for_two }
            &&& to_one == session.peer_one_addr
            &&& to_two == session.peer_two_addr
            &&& looks_for(
                client_step(one, one.server_addr, for_one, now).0,
                session.peer_two_addr,
                session.peer_two_vip,
            )
            &&& looks_for(
                client_step(two, two.server_addr, for_two, now).0,
                session.peer_one_addr,
                session.peer_one_vip,
            )
        }),
{
}

/// Whether the client was asked to connect to the peer `vip`, and takes it to be at `addr`.
pub open spec fn looks_for(c: ClientView, addr: SocketAddr, vip: Ipv4Addr) -> bool {
    &&& c.state.target == Some(Target { vip, addr })
    &&& c.state.is_connecting
    &&& c.state.peer_addr == Some(addr)
    &&& c.state.peer_vip == Some(vip)
}

/// Of several devices the first that has the identity counts.
proof fn lemma_device_vip(devices: Seq<OnlineDeviceView>, id: Seq<char>, i: int)
    requires
        0 <= i < devices.len(),
        devices[i].client_id == id,
        forall|j: int| 0 <= j < i ==> (#[trigger] devices[j]).client_id != id,
    ensures
        device_vip(devices, id) == spec_parse_ip(devices[i].vip),
    decreases devices.len(),
{
    if i > 0 {
        let rest = devices.skip(1);
        assert(devices[0].client_id != id);
        assert forall|j: int| 0 <= j < i - 1 implies (#[trigger] rest[j]).client_id != id by {
            assert(rest[j] == devices[j + 1]);
        }
        assert(rest[i - 1] == devices[i]);
        lemma_device_vip(rest, id, i - 1);
    }
}

/// A request connects to the device that was chosen: where the client was last told by the server
/// who is online, and the chosen device was announced to it, it looks for that very device where
/// it was announced, whichever other clients were announced before or after.
pub proof fn law_chosen_device_is_looked_for(
    s: ServerView,
    c: ClientView,
    id: Seq<char>,
    addr: SocketAddr,
)
    requires
        tables_wf(s),
        c.devices == online_list(s.id_map),
        lookup(s.id_map, id) matches Some(known) && known.vip != c.my_ip && lookup(
            c.peer_map,
            known.vip,
        ) == Some(addr) && !(c.state.is_p2p && c.state.peer_vip == Some(known.vip)),
    ensures
        ({
            let (after, actions) = connect_step(c, id);
            &&& looks_for(after, addr, lookup(s.id_map, id)->0.vip)
            &&& !after.state.is_p2p
            &&& after.pending is None
            &&& actions == seq![
                ClientActionView::Send { to: c.server_addr, packet: request_packet(id) },
                ClientActionView::StartPunchTimer { secs: c.config.punch_timeout },
            ]
        }),
{
    let vip = lookup(s.id_map, id)->0.vip;
    let i = place_of(s.id_map, id);
    assert(is_at(s.id_map, id, i));
    assert forall|j: int| 0 <= j < i implies (#[trigger] c.devices[j]).client_id != id by {
        assert(s.id_map[j].0 != s.id_map[i].0);
    }
    lemma_device_vip(c.devices, id, i);
    law_ip_text_roundtrip(vip);
    assert(connect_step(c, id).1 =~= seq![
        ClientActionView::Send { to: c.server_addr, packet: request_packet(id) },
        ClientActionView::StartPunchTimer { secs: c.config.punch_timeout },
    ]);
}

/// A request that cannot be met yet waits, and is met by the announcement or the list that brings
/// what was missing.
pub proof fn law_request_waits(c: ClientView, id: Seq<char>, packet: PacketView, now: u64)
    requires
        keys_unique(c.peer_map),
        find_target(c, id) is None,
        packet is PeerInfo || packet is OnlineDevices,
    ensures
        ({
            let asked = connect_step(c, id).0;
            let after = client_step(asked, c.server_addr, packet, now).0;
            &&& asked == (ClientView { pending: Some(id), ..c })
            &&& match find_target(after, id) {
                Some(target) => {
                    &&& after.pending is None
                    &&& after.state.is_p2p && after.state.peer_vip == Some(target.vip)
                        || looks_for(after, target.addr, target.vip)
                },
                None => after.pending == Some(id),
            }
        }),
{
    if let PacketView::PeerInfo { peer_vip, peer_addr } = packet {
        if let (Some(vip), Some(addr)) = (spec_parse_ip(peer_vip), peer_addr) {
            lemma_put(c.peer_map, vip, addr, vip);
            if let Some(wanted) = device_vip(c.devices, id) {
                lemma_put(c.peer_map, vip, addr, wanted);
            }
        }
    }
}

/// What was announced is remembered, one announcement beside the other.
pub proof fn law_announcements_are_remembered(
    c: ClientView,
    vip: Ipv4Addr,
    addr: SocketAddr,
    other: Ipv4Addr,
    now: u64,
)
    requires
        keys_unique(c.peer_map),
    ensures
        ({
            let after = client_step(c, c.server_addr, peer_info(vip, addr), now).0;
            &&& lookup(after.peer_map, vip) == Some(addr)
            &&& other != vip ==> lookup(after.peer_map, other) == lookup(c.peer_map, other)
        }),
{
    law_ip_text_roundtrip(vip);
    lemma_put(c.peer_map, vip, addr, other);
}

/// The word to prepare for a direct connection changes nothing, and is not answered.
pub proof fn law_change_port_does_nothing(
    c: ClientView,
    src: SocketAddr,
    password: Seq<char>,
    now: u64,
)
    ensures
        client_step(c, src, PacketView::ChangePort { password }, now) == (
            c,
            Seq::<ClientActionView>::empty(),
        ),
{
}

/// What the server tells of a client is understood: whoever is told takes that client to be its
/// peer, at the address that the server named.
pub proof fn law_peer_info_is_understood(c: ClientView, vip: Ipv4Addr, addr: SocketAddr, now: u64)
    ensures
        ({
            let (after, actions) = client_step(c, c.server_addr, peer_info(vip, addr), now);
            &&& after.state.peer_addr == Some(addr)
            &&& after.state.peer_vip == Some(vip)
            &&& after.state.is_connecting
            &&& actions == seq![
                ClientActionView::StartPunchTimer { secs: c.config.punch_timeout },
            ]
        }),
{
    law_ip_text_roundtrip(vip);
}

/// When the server tells two clients that it knows that it relays between them, both are in the
/// relay mode, and each knows the identity and the virtual address of the other.
pub proof fn law_relay_is_agreed(
    one: ClientView,
    two: ClientView,
    id_map: Seq<(Seq<char>, ClientInfoView)>,
    src_id: Seq<char>,
    target_id: Seq<char>,
    now: u64,
)
    requires
        lookup(id_map, src_id) is Some,
        lookup(id_map, target_id) is Some,
    ensures
        ({
            let src = lookup(id_map, src_id)->0;
            let target = lookup(id_map, target_id)->0;
            let told = relay_notices(id_map, src_id, target_id, ip_text(src.vip));
            &&& told.len() == 2
            &&& told[0] matches ActionView::Send { to: to_one, packet: for_one }
            &&& told[1] matches ActionView::Send { to: to_two, packet: for_two }
            &&& to_one == src.addr
            &&& to_two == target.addr
            &&& is_relayed(
                client_step(one, one.server_addr, for_one, now).0.state,
                target_id,
                target.vip,
            )
            &&& is_relayed(
                client_step(two, two.server_addr, for_two, now).0.state,
                src_id,
                src.vip,
            )
        }),
{
    law_ip_text_roundtrip(lookup(id_map, src_id)->0.vip);
    law_ip_text_roundtrip(lookup(id_map, target_id)->0.vip);
}

/// Whether a client is in the relay mode with the peer `id`, which holds the address `vip`.
pub open spec fn is_relayed(s: ConnectionStateView, id: Seq<char>, vip: Ipv4Addr) -> bool {
    &&& s.mode == ConnectionMode::Relay
    &&& !s.is_connecting
    &&& s.peer_id == id
    &&& s.peer_vip == Some(vip)
}

/// The answer to a heartbeat tells how long ago that heartbeat was sent, for the server and for
/// a peer that is reached directly.
pub proof fn law_latency_is_round_trip(c: ClientView, now: u64, later: u64, ts: u64)
    requires
        spec_elapsed_secs(now, c.last_beat) >= BEAT_INTERVAL_SECS,
        !is_self(c.local_addr, c.server_addr),
    ensures
        client_step(tick_step(c, now).0, c.server_addr, PacketView::Pong(ts), later).1 == seq![
            ClientActionView::ReportLatency {
                via_server: true,
                millis: spec_elapsed_millis(later, now) as u64,
            },
        ],
        c.state.is_p2p && c.state.peer_vip is Some && spec_elapsed_secs(now, c.state.last_punch)
            >= PEER_BEAT_INTERVAL_SECS ==> (c.state.peer_addr matches Some(peer) ==> (peer
            != c.server_addr && !is_self(c.local_addr, peer) ==> client_step(
            tick_step(c, now).0,
            peer,
            PacketView::Pong(ts),
            later,
        ).1 == seq![
            ClientActionView::ReportLatency {
                via_server: false,
                millis: spec_elapsed_millis(later, now) as u64,
            },
        ])),
{
}

/// The ports that are tried follow one another from the first one on; none is 0, and there is
/// at most one more than the range says.
pub proof fn law_port_list(base_port: u16, port_range: u16, offset: i32, i: int)
    requires
        0 <= i < port_list(base_port, port_range, offset).len(),
    ensures
        port_list(base_port, port_range, offset)[i] > 0,
        port_list(base_port, port_range, offset)[i] == port_list(
            base_port,
            port_range,
            offset,
        )[0] + i,
        port_list(base_port, port_range, offset).len() <= port_range + 1,
{
}

/// The list holds the port that the peer was seen at, and as many more as the range says or as
/// there are up to the last port.
pub proof fn law_port_list_starts_at_peer(base_port: u16, port_range: u16)
    requires
        base_port > 0,
    ensures
        port_list(base_port, port_range, 0).len() == if base_port + port_range <= 0xffff {
            port_range + 1
        } else {
            0xffff - base_port + 1
        },
        port_list(base_port, port_range, 0)[0] == base_port,
{
    assert(first_port(base_port, 0) == base_port);
}

} // verus!

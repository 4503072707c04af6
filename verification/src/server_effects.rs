//! What each packet does to the server and makes it do, told by what is found in its tables.

use vstd::prelude::*;
use crate::addr::{ip_text, spec_next_ip, Ipv4Addr, SocketAddr};
use crate::clock::spec_elapsed_secs;
use crate::protocol::{dest_ip, PacketView};
use crate::server::{
    actions_view, announcement, broadcast, clean_step, data_actions, deliver,
    empty_server, free_ip_from, holder_of, id_at, is_active, is_current, is_dropped, is_free, moved,
    not_from, online_list, others, packet_step, session_key, tables_wf, tell_new, tell_of, Action,
    ActionView, ClientInfo, ClientInfoView, NatSession, NatSessionView, RelaySession,
    RelaySessionView, ServerView, ANNOUNCE_INTERVAL_SECS, CLEAN_INTERVAL_SECS, CLIENT_TIMEOUT_SECS,
    SESSION_TIMEOUT_SECS,
};
use crate::server_laws::{law_pool_leaves_out_server, orderly, Peers};
use crate::table::{
    has_key, is_at, keys_unique, lemma_filter, lemma_place, lemma_put, lookup, place_of, put,
};
use crate::text::{law_first_difference_decides, lemma_lex_total};

verus! {

/// A silent client is dropped after a minute and a session after five; the clean-up runs twice a
/// minute, and who is online is announced every ten seconds.
pub proof fn law_server_periods()
    ensures
        CLIENT_TIMEOUT_SECS == 60,
        SESSION_TIMEOUT_SECS == 300,
        CLEAN_INTERVAL_SECS == 30,
        ANNOUNCE_INTERVAL_SECS == 10,
{
}

/// The models of what the server keeps and wants done hold all that is in them.
pub proof fn law_server_views(
    action: Action,
    actions: Seq<Action>,
    client: ClientInfo,
    session: NatSession,
    relay: RelaySession,
    i: int,
)
    ensures
        match action {
            Action::Send { to, packet } => action@ matches ActionView::Send { to: t, packet: p } && t
                == to && p == packet@,
            Action::WriteTun { data } => action@ matches ActionView::WriteTun { data: d } && d
                == data@,
        },
        actions_view(actions).len() == actions.len(),
        0 <= i < actions.len() ==> actions_view(actions)[i] == actions[i]@,
        client@.addr == client.addr,
        client@.last_seen == client.last_seen,
        client@.client_id == client.client_id@,
        client@.vip == client.vip,
        session@.peer_one_id == session.peer_one_id@,
        session@.peer_one_addr == session.peer_one_addr,
        session@.peer_one_vip == session.peer_one_vip,
        session@.peer_two_id == session.peer_two_id@,
        session@.peer_two_addr == session.peer_two_addr,
        session@.peer_two_vip == session.peer_two_vip,
        session@.created_at == session.created_at,
        relay@.client_one_id == relay.client_one_id@,
        relay@.client_two_id == relay.client_two_id@,
        relay@.enabled == relay.enabled,
{
}

/// A new server knows its token and its network, takes the first address of it, and has heard of
/// nobody.
pub proof fn law_server_at_start(token: Seq<char>, cidr: Seq<char>, network_ip: Ipv4Addr)
    ensures
        ({
            let s = empty_server(token, cidr, network_ip);
            &&& s.token == token
            &&& s.cidr == cidr
            &&& s.network_ip == network_ip
            &&& s.server_ip == spec_next_ip(network_ip, 1)
            &&& s.peers.len() == 0
            &&& s.id_map.len() == 0
            &&& s.nat_sessions.len() == 0
            &&& s.relay_sessions.len() == 0
        }),
{
}

/// No packet changes what the server was set up with.
pub proof fn law_settings_stay(s: ServerView, addr: SocketAddr, packet: PacketView, now: u64)
    ensures
        packet_step(s, addr, packet, now).0.token == s.token,
        packet_step(s, addr, packet, now).0.cidr == s.cidr,
        packet_step(s, addr, packet, now).0.network_ip == s.network_ip,
        packet_step(s, addr, packet, now).0.server_ip == s.server_ip,
        clean_step(s, now).token == s.token,
        clean_step(s, now).cidr == s.cidr,
        clean_step(s, now).network_ip == s.network_ip,
        clean_step(s, now).server_ip == s.server_ip,
{
}

/// Only a handshake changes who is known, only a handshake or a heartbeat what is registered by
/// address, only a request the sessions, and only a request to relay the relayed pairs.
pub proof fn law_packets_change_their_own_tables(
    s: ServerView,
    addr: SocketAddr,
    packet: PacketView,
    now: u64,
)
    ensures
        !(packet is Handshake) ==> packet_step(s, addr, packet, now).0.id_map == s.id_map,
        !(packet is Handshake || packet is Ping) ==> packet_step(s, addr, packet, now).0.peers
            == s.peers,
        !(packet is RequestConnect) ==> packet_step(s, addr, packet, now).0.nat_sessions
            == s.nat_sessions,
        !(packet is EnableRelay) ==> packet_step(s, addr, packet, now).0.relay_sessions
            == s.relay_sessions,
{
}

/// What only a server sends is not answered and changes nothing.
pub proof fn law_other_packets_are_ignored(
    s: ServerView,
    addr: SocketAddr,
    packet: PacketView,
    now: u64,
)
    requires
        packet is HandshakeAck || packet is Keepalive || packet is Error || packet is PeerInfo
            || packet is Punch || packet is Pong || packet is ChangePort || packet is ConnectPeer
            || packet is RelayEnabled || packet is DisconnectPeer || packet is OnlineDevices,
    ensures
        packet_step(s, addr, packet, now) == (s, Seq::<ActionView>::empty()),
{
}

/// A handshake touches three entries at most: what is registered where it came from, what is known
/// under its identity, and the client's own former entry, which is made to point to where it is
/// now. Every other client stays as it was, in both tables, with its addresses and its time.
pub proof fn law_handshake_leaves_others(
    s: ServerView,
    addr: SocketAddr,
    token: Seq<char>,
    client_id: Seq<char>,
    now: u64,
    other: SocketAddr,
    other_id: Seq<char>,
)
    requires
        tables_wf(s),
    ensures
        ({
            let after = packet_step(s, addr, PacketView::Handshake { token, client_id }, now).0;
            let former = lookup(s.id_map, client_id);
            &&& other_id != client_id ==> lookup(after.id_map, other_id) == lookup(
                s.id_map,
                other_id,
            )
            &&& other != addr && !(former matches Some(known) && known.addr == other) ==> lookup(
                after.peers,
                other,
            ) == lookup(s.peers, other)
            &&& other != addr && token == s.token && (former matches Some(known) && known.addr
                == other) ==> match lookup(s.peers, other) {
                Some(before) => {
                    &&& lookup(after.peers, other) matches Some(entry)
                    &&& entry.addr == addr
                    &&& entry.last_seen == now
                    &&& entry.client_id == before.client_id
                    &&& entry.vip == before.vip
                },
                None => lookup(after.peers, other) is None,
            }
            &&& token != s.token ==> after == s
            &&& keys_unique(after.peers)
            &&& keys_unique(after.id_map)
        }),
{
    if token == s.token {
        let existing = lookup(s.id_map, client_id);
        let peers = moved(s.peers, existing, addr, now);
        let after = packet_step(s, addr, PacketView::Handshake { token, client_id }, now).0;
        if let Some(known) = existing {
            if let Some(entry) = lookup(s.peers, known.addr) {
                let changed = ClientInfoView { addr, last_seen: now, ..entry };
                lemma_put(s.peers, known.addr, changed, other);
            }
        }
        if after.id_map != s.id_map || after.peers != peers {
            let vip = if existing is Some {
                existing->0.vip
            } else {
                free_ip_from(s.network_ip, peers, 2)->0
            };
            let info = ClientInfoView { addr, last_seen: now, client_id, vip };
            lemma_put(peers, addr, info, other);
            lemma_put(s.id_map, client_id, info, other_id);
        }
    }
}

/// In an orderly server the entry of another client stays as it was over a handshake, whatever
/// address it stands under, unless the handshake comes from that very address.
pub proof fn law_handshake_keeps_other_clients(
    s: ServerView,
    addr: SocketAddr,
    token: Seq<char>,
    client_id: Seq<char>,
    now: u64,
    other: SocketAddr,
)
    requires
        orderly(s),
        other != addr,
        lookup(s.peers, other) matches Some(entry) && entry.client_id != client_id,
    ensures
        lookup(
            packet_step(s, addr, PacketView::Handshake { token, client_id }, now).0.peers,
            other,
        ) == lookup(s.peers, other),
{
    law_handshake_leaves_others(s, addr, token, client_id, now, other, client_id);
    if let Some(known) = lookup(s.id_map, client_id) {
        assert(lookup(s.peers, known.addr) is Some);
        assert(known.addr != other);
    }
}

proof fn lemma_first_free(network_ip: Ipv4Addr, peers: Peers, from: int, offset: int)
    requires
        from <= offset <= 254,
        forall|o: int|
            from <= o < offset ==> !is_free(peers, #[trigger] spec_next_ip(network_ip, o)),
    ensures
        offset == 254 ==> free_ip_from(network_ip, peers, from) is None,
        offset < 254 && is_free(peers, spec_next_ip(network_ip, offset)) ==> free_ip_from(
            network_ip,
            peers,
            from,
        ) == Some(spec_next_ip(network_ip, offset)),
    decreases offset - from,
{
    if from < offset {
        assert(!is_free(peers, spec_next_ip(network_ip, from)));
        lemma_first_free(network_ip, peers, from + 1, offset);
    }
}

/// Whether a client is registered that holds `vip`.
pub open spec fn is_held(peers: Peers, vip: Ipv4Addr) -> bool {
    exists|i: int| 0 <= i < peers.len() && (#[trigger] peers[i]).1.vip == vip
}

/// A client that was not known gets the first address from the second one of the network on that
/// nobody holds; it is registered with it where it came from, and told so.
pub proof fn law_new_client_gets_first_free_address(
    s: ServerView,
    addr: SocketAddr,
    client_id: Seq<char>,
    now: u64,
    offset: int,
)
    requires
        tables_wf(s),
        lookup(s.id_map, client_id) is None,
        2 <= offset < 254,
        forall|o: int|
            2 <= o < offset ==> is_held(s.peers, #[trigger] spec_next_ip(s.network_ip, o)),
        !is_held(s.peers, spec_next_ip(s.network_ip, offset)),
    ensures
        ({
            let vip = spec_next_ip(s.network_ip, offset);
            let packet = PacketView::Handshake { token: s.token, client_id };
            let (after, actions) = packet_step(s, addr, packet, now);
            &&& lookup(after.id_map, client_id) matches Some(known)
            &&& known.addr == addr
            &&& known.last_seen == now
            &&& known.client_id == client_id
            &&& known.vip == vip
            &&& lookup(after.peers, addr) == Some(known)
            &&& actions.len() > 0
            &&& actions[0] matches ActionView::Send { to, packet: PacketView::HandshakeAck { ip, cidr } }
            &&& to == addr
            &&& ip == ip_text(vip)
            &&& cidr == s.cidr
        }),
{
    let vip = spec_next_ip(s.network_ip, offset);
    assert forall|o: int| 2 <= o < offset implies !is_free(
        s.peers,
        #[trigger] spec_next_ip(s.network_ip, o),
    ) by {
        assert(is_held(s.peers, spec_next_ip(s.network_ip, o)));
    }
    assert(is_free(s.peers, vip));
    lemma_first_free(s.network_ip, s.peers, 2, offset);
    let info = ClientInfoView { addr, last_seen: now, client_id, vip };
    lemma_put(s.peers, addr, info, addr);
    lemma_put(s.id_map, client_id, info, client_id);
}

/// A client that was not known gets nothing, not even an answer, while all 252 addresses are held.
pub proof fn law_full_pool_admits_nobody(
    s: ServerView,
    addr: SocketAddr,
    client_id: Seq<char>,
    now: u64,
)
    requires
        lookup(s.id_map, client_id) is None,
        forall|o: int|
            2 <= o < 254 ==> is_held(s.peers, #[trigger] spec_next_ip(s.network_ip, o)),
    ensures
        packet_step(s, addr, PacketView::Handshake { token: s.token, client_id }, now) == (
            s,
            Seq::<ActionView>::empty(),
        ),
{
    assert forall|o: int| 2 <= o < 254 implies !is_free(
        s.peers,
        #[trigger] spec_next_ip(s.network_ip, o),
    ) by {
        assert(is_held(s.peers, spec_next_ip(s.network_ip, o)));
    }
    lemma_first_free(s.network_ip, s.peers, 2, 254);
}

proof fn lemma_others_len(peers: Peers, addr: SocketAddr)
    requires
        keys_unique(peers),
    ensures
        others(peers, addr).len() == if has_key(peers, addr) {
            peers.len() - 1
        } else {
            peers.len() as int
        },
    decreases peers.len(),
{
    reveal(Seq::filter);
    if peers.len() == 0 {
        if has_key(peers, addr) {
            assert(is_at(peers, addr, place_of(peers, addr)));
        }
    } else {
        let front = peers.drop_last();
        let last = peers.last();
        assert forall|i: int, j: int| 0 <= i < j < front.len() implies (#[trigger] front[i]).0 != (
        #[trigger] front[j]).0 by {
            assert(peers[i].0 != peers[j].0);
        }
        lemma_others_len(front, addr);
        if has_key(front, addr) {
            let i = place_of(front, addr);
            assert(is_at(front, addr, i));
            assert(is_at(peers, addr, i));
            assert(peers[i].0 != peers[peers.len() - 1].0);
        } else if last.0 == addr {
            assert(is_at(peers, addr, peers.len() - 1));
        } else if has_key(peers, addr) {
            let i = place_of(peers, addr);
            assert(is_at(peers, addr, i));
            assert(is_at(front, addr, i));
        }
    }
}

/// Whether `action` tells the client at an entry `e` of the newcomer `vip` at `addr`, or the
/// newcomer of that entry.
pub open spec fn tells_of_each_other(
    action: ActionView,
    e: (SocketAddr, ClientInfoView),
    addr: SocketAddr,
    vip: Ipv4Addr,
) -> bool {
    &&& action matches ActionView::Send { to, packet: PacketView::PeerInfo { peer_vip, peer_addr } }
    &&& (to == e.1.addr && peer_vip == ip_text(vip) && peer_addr == Some(addr)) || (to == addr
        && peer_vip == ip_text(e.1.vip) && peer_addr == Some(e.0))
}

/// When a client is admitted, every entry under another address and the newcomer are told of each
/// other: one message each way for every entry, after the answer, and no other message.
pub proof fn law_newcomer_and_others_meet(
    s: ServerView,
    addr: SocketAddr,
    client_id: Seq<char>,
    now: u64,
    i: int,
    j: int,
)
    requires
        tables_wf(s),
        packet_step(s, addr, PacketView::Handshake { token: s.token, client_id }, now).1.len() > 0,
    ensures
        ({
            let packet = PacketView::Handshake { token: s.token, client_id };
            let (after, actions) = packet_step(s, addr, packet, now);
            &&& lookup(after.id_map, client_id) matches Some(new)
            &&& actions.len() == 2 * after.peers.len() - 1
            &&& 0 <= i < after.peers.len() && after.peers[i].0 != addr ==> {
                let e = after.peers[i];
                &&& actions.contains(
                    ActionView::Send {
                        to: e.1.addr,
                        packet: PacketView::PeerInfo {
                            peer_vip: ip_text(new.vip),
                            peer_addr: Some(addr),
                        },
                    },
                )
                &&& actions.contains(
                    ActionView::Send {
                        to: addr,
                        packet: PacketView::PeerInfo {
                            peer_vip: ip_text(e.1.vip),
                            peer_addr: Some(e.0),
                        },
                    },
                )
            }
            &&& 1 <= j < actions.len() ==> exists|k: int|
                0 <= k < after.peers.len() && (#[trigger] after.peers[k]).0 != addr
                    && tells_of_each_other(actions[j], after.peers[k], addr, new.vip)
        }),
{
    let packet = PacketView::Handshake { token: s.token, client_id };
    let (after, actions) = packet_step(s, addr, packet, now);
    let existing = lookup(s.id_map, client_id);
    let peers = moved(s.peers, existing, addr, now);
    if let Some(known) = existing {
        if let Some(entry) = lookup(s.peers, known.addr) {
            let changed = ClientInfoView { addr, last_seen: now, ..entry };
            lemma_put(s.peers, known.addr, changed, addr);
        }
    }
    let vip = if existing is Some {
        existing->0.vip
    } else {
        free_ip_from(s.network_ip, peers, 2)->0
    };
    let info = ClientInfoView { addr, last_seen: now, client_id, vip };
    assert(after.peers == put(peers, addr, info));
    lemma_put(peers, addr, info, addr);
    lemma_put(s.id_map, client_id, info, client_id);
    let rest = others(after.peers, addr);
    let keep = not_from(addr);
    lemma_others_len(after.peers, addr);
    assert(has_key(after.peers, addr));
    let first = rest.map_values(tell_of(addr, vip));
    let second = rest.map_values(tell_new(addr));
    let n: int = rest.len() as int;
    assert(broadcast(after.peers, addr, vip) == first + second);
    assert(actions.len() == 1 + 2 * n);
    assert forall|m: int| 0 <= m < n implies actions[1 + m] == first[m] && actions[1 + n + m]
        == second[m] by {}
    if 0 <= i < after.peers.len() && after.peers[i].0 != addr {
        let e = after.peers[i];
        assert(keep(e));
        after.peers.lemma_filter_contains(keep, i);
        let m = choose|m: int| 0 <= m < rest.len() && rest[m] == e;
        assert(actions[1 + m] == first[m]);
        assert(actions[1 + n + m] == second[m]);
    }
    if 1 <= j < actions.len() {
        let m: int = if j < 1 + n {
            j - 1
        } else {
            j - 1 - n
        };
        assert(rest.contains(rest[m]));
        after.peers.lemma_filter_contains_rev(keep, rest[m]);
        broadcast use vstd::seq_lib::group_filter_ensures;

        assert(keep(rest[m]));
        let k = choose|k: int| 0 <= k < after.peers.len() && after.peers[k] == rest[m];
        assert(actions[j] == first[m] || actions[j] == second[m]);
        assert(tells_of_each_other(actions[j], after.peers[k], addr, vip));
    }
}

/// A heartbeat is answered with what it held, to where it came from. It is noted when the client
/// that is registered there was heard of, and nothing else.
pub proof fn law_heartbeat_is_answered(
    s: ServerView,
    addr: SocketAddr,
    ts: u64,
    now: u64,
    other: SocketAddr,
)
    requires
        tables_wf(s),
    ensures
        ({
            let (after, actions) = packet_step(s, addr, PacketView::Ping(ts), now);
            &&& actions.len() == 1
            &&& actions[0] matches ActionView::Send { to, packet: PacketView::Pong(answer) }
            &&& to == addr
            &&& answer == ts
            &&& other != addr ==> lookup(after.peers, other) == lookup(s.peers, other)
            &&& match lookup(s.peers, addr) {
                Some(before) => {
                    &&& lookup(after.peers, addr) matches Some(entry)
                    &&& entry.last_seen == now
                    &&& entry.addr == before.addr
                    &&& entry.client_id == before.client_id
                    &&& entry.vip == before.vip
                },
                None => after.peers == s.peers,
            }
        }),
{
    if let Some(client) = lookup(s.peers, addr) {
        let changed = ClientInfoView { last_seen: now, ..client };
        lemma_put(s.peers, addr, changed, other);
    }
}

proof fn lemma_id_at(id_map: Seq<(Seq<char>, ClientInfoView)>, addr: SocketAddr, i: int)
    requires
        0 <= i <= id_map.len(),
        forall|j: int| 0 <= j < i ==> (#[trigger] id_map[j]).1.addr != addr,
        i < id_map.len() ==> id_map[i].1.addr == addr,
    ensures
        i < id_map.len() ==> id_at(id_map, addr) == id_map[i].0,
        i == id_map.len() ==> id_at(id_map, addr).len() == 0,
    decreases i,
{
    if i > 0 {
        let rest = id_map.skip(1);
        assert(id_map[0].1.addr != addr);
        assert forall|j: int| 0 <= j < i - 1 implies (#[trigger] rest[j]).1.addr != addr by {
            assert(rest[j] == id_map[j + 1]);
        }
        if i < id_map.len() {
            assert(rest[i - 1] == id_map[i]);
        }
        lemma_id_at(rest, addr, i - 1);
    }
}

/// A request from the first client that is known at an address opens one session between that
/// client and the one it names, found under both of their identities and no other, and both are
/// told to prepare with the password of the request.
pub proof fn law_request_opens_session(
    s: ServerView,
    addr: SocketAddr,
    target_id: Seq<char>,
    password: Seq<char>,
    now: u64,
    i: int,
    other: Seq<char>,
)
    requires
        tables_wf(s),
        0 <= i < s.id_map.len(),
        s.id_map[i].1.addr == addr,
        forall|j: int| 0 <= j < i ==> (#[trigger] s.id_map[j]).1.addr != addr,
        s.id_map[i].0.len() > 0,
        lookup(s.id_map, target_id) is Some,
    ensures
        ({
            let src_id = s.id_map[i].0;
            let src = s.id_map[i].1;
            let target = lookup(s.id_map, target_id)->0;
            let packet = PacketView::RequestConnect { target_id, password };
            let (after, actions) = packet_step(s, addr, packet, now);
            &&& lookup(after.nat_sessions, src_id) matches Some(session)
            &&& lookup(after.nat_sessions, target_id) == Some(session)
            &&& session.peer_one_id == src_id
            &&& session.peer_one_addr == addr
            &&& session.peer_one_vip == src.vip
            &&& session.peer_two_id == target_id
            &&& session.peer_two_addr == target.addr
            &&& session.peer_two_vip == target.vip
            &&& session.created_at == now
            &&& other != src_id && other != target_id ==> lookup(after.nat_sessions, other)
                == lookup(s.nat_sessions, other)
            &&& actions.len() == 2
            &&& actions[0] matches ActionView::Send {
                to: to_src,
                packet: PacketView::ChangePort { password: first },
            }
            &&& actions[1] matches ActionView::Send {
                to: to_target,
                packet: PacketView::ChangePort { password: second },
            }
            &&& to_src == addr
            &&& to_target == target.addr
            &&& first == password
            &&& second == password
        }),
{
    let src_id = s.id_map[i].0;
    lemma_id_at(s.id_map, addr, i);
    assert(is_at(s.id_map, src_id, i));
    lemma_place(s.id_map, src_id, i);
    let session = NatSessionView {
        peer_one_id: src_id,
        peer_one_addr: addr,
        peer_one_vip: s.id_map[i].1.vip,
        peer_two_id: target_id,
        peer_two_addr: lookup(s.id_map, target_id)->0.addr,
        peer_two_vip: lookup(s.id_map, target_id)->0.vip,
        created_at: now,
    };
    let once = put(s.nat_sessions, src_id, session);
    lemma_put(s.nat_sessions, src_id, session, other);
    lemma_put(s.nat_sessions, src_id, session, target_id);
    lemma_put(once, target_id, session, src_id);
    lemma_put(once, target_id, session, other);
}

/// A request from an address where nobody is known, or for a client that is not known, is not
/// answered and changes nothing.
pub proof fn law_request_needs_two_clients(
    s: ServerView,
    addr: SocketAddr,
    target_id: Seq<char>,
    password: Seq<char>,
    now: u64,
)
    requires
        lookup(s.id_map, target_id) is None || forall|j: int|
            0 <= j < s.id_map.len() ==> (#[trigger] s.id_map[j]).1.addr != addr,
    ensures
        packet_step(s, addr, PacketView::RequestConnect { target_id, password }, now) == (
            s,
            Seq::<ActionView>::empty(),
        ),
{
    if lookup(s.id_map, target_id) is Some {
        lemma_id_at(s.id_map, addr, s.id_map.len() as int);
    }
}

/// Neither is a request from an address where the first client that is known has no name.
pub proof fn law_nameless_client_opens_no_session(
    s: ServerView,
    addr: SocketAddr,
    target_id: Seq<char>,
    password: Seq<char>,
    now: u64,
    i: int,
)
    requires
        0 <= i < s.id_map.len(),
        s.id_map[i].1.addr == addr,
        forall|j: int| 0 <= j < i ==> (#[trigger] s.id_map[j]).1.addr != addr,
        s.id_map[i].0.len() == 0,
    ensures
        packet_step(s, addr, PacketView::RequestConnect { target_id, password }, now) == (
            s,
            Seq::<ActionView>::empty(),
        ),
{
    lemma_id_at(s.id_map, addr, i);
}

/// When a client of a session reports that it is ready, each side is told of the other one: its
/// virtual address, its host and port, and its identity. Without a session nobody is told.
pub proof fn law_session_is_started(
    s: ServerView,
    from: SocketAddr,
    id: Seq<char>,
    now: u64,
    ip1: Ipv4Addr,
    port1: u16,
    ip2: Ipv4Addr,
    port2: u16,
)
    ensures
        ({
            let actions = packet_step(s, from, PacketView::PortChanged { client_id: id }, now).1;
            match lookup(s.nat_sessions, id) {
                None => actions.len() == 0,
                Some(session) => session.peer_one_addr == (SocketAddr::V4 { ip: ip1, port: port1 })
                    && session.peer_two_addr == (SocketAddr::V4 { ip: ip2, port: port2 }) ==> {
                    &&& actions.len() == 2
                    &&& actions[0] matches ActionView::Send { to: to_one, packet: for_one }
                    &&& actions[1] matches ActionView::Send { to: to_two, packet: for_two }
                    &&& to_one == session.peer_one_addr
                    &&& for_one matches PacketView::ConnectPeer {
                        peer_vip: vip2,
                        peer_addr: host2,
                        port: at2,
                        peer_id: id2,
                    }
                    &&& vip2 == session.peer_two_vip
                    &&& host2 == ip2
                    &&& at2 == port2
                    &&& id2 == session.peer_two_id
                    &&& to_two == session.peer_two_addr
                    &&& for_two matches PacketView::ConnectPeer {
                        peer_vip: vip1,
                        peer_addr: host1,
                        port: at1,
                        peer_id: id1,
                    }
                    &&& vip1 == session.peer_one_vip
                    &&& host1 == ip1
                    &&& at1 == port1
                    &&& id1 == session.peer_one_id
                },
            }
        }),
        lookup(s.nat_sessions, id) matches Some(session) && (session.peer_one_addr is V6
            || session.peer_two_addr is V6) ==> packet_step(
            s,
            from,
            PacketView::PortChanged { client_id: id },
            now,
        ).1.len() == 0,
{
}

/// A request to relay is answered to both clients where both are known: the one that asks is told
/// the other's identity and address, the other one what the first gave. The pair is recorded in any
/// case, once for both ways of naming it, and no other pair changes.
pub proof fn law_relay_is_recorded_and_told(
    s: ServerView,
    addr: SocketAddr,
    src_id: Seq<char>,
    target_id: Seq<char>,
    vip: Seq<char>,
    now: u64,
    key: Seq<char>,
)
    requires
        tables_wf(s),
    ensures
        ({
            let packet = PacketView::EnableRelay { src_id, target_id, vip };
            let (after, actions) = packet_step(s, addr, packet, now);
            &&& lookup(after.relay_sessions, session_key(src_id, target_id)) matches Some(pair)
            &&& lookup(after.relay_sessions, session_key(target_id, src_id)) == Some(pair)
            &&& pair.client_one_id == src_id
            &&& pair.client_two_id == target_id
            &&& pair.enabled
            &&& key != session_key(src_id, target_id) ==> lookup(after.relay_sessions, key)
                == lookup(s.relay_sessions, key)
            &&& match (lookup(s.id_map, src_id), lookup(s.id_map, target_id)) {
                (Some(src), Some(target)) => {
                    &&& actions.len() == 2
                    &&& actions[0] matches ActionView::Send {
                        to: to_src,
                        packet: PacketView::RelayEnabled { peer_id: id1, peer_vip: vip1 },
                    }
                    &&& actions[1] matches ActionView::Send {
                        to: to_target,
                        packet: PacketView::RelayEnabled { peer_id: id2, peer_vip: vip2 },
                    }
                    &&& to_src == src.addr
                    &&& id1 == target_id
                    &&& vip1 == ip_text(target.vip)
                    &&& to_target == target.addr
                    &&& id2 == src_id
                    &&& vip2 == vip
                },
                _ => actions.len() == 0,
            }
        }),
{
    lemma_lex_total(src_id, target_id);
    let session = RelaySessionView {
        client_one_id: src_id,
        client_two_id: target_id,
        enabled: true,
    };
    lemma_put(s.relay_sessions, session_key(src_id, target_id), session, key);
}

/// The name that two clients have in common is the identity that comes first, an underscore and the
/// other one.
pub proof fn law_session_key_is_ordered(id1: Seq<char>, id2: Seq<char>, k: int)
    requires
        0 <= k <= id1.len(),
        k < id2.len(),
        forall|i: int| 0 <= i < k ==> id1[i] == id2[i],
        k < id1.len() ==> id1[k] < id2[k],
    ensures
        session_key(id1, id2) == id1 + "_"@ + id2,
        session_key(id2, id1) == id1 + "_"@ + id2,
        session_key(id1, id1) == id1 + "_"@ + id1,
{
    law_first_difference_decides(id1, id2, k);
}

/// A latency test and its reply are handed on as they are to the client that they name, where it is
/// known, and to nobody else.
pub proof fn law_latency_test_is_handed_on(
    s: ServerView,
    addr: SocketAddr,
    target_id: Seq<char>,
    timestamp: u64,
    now: u64,
    reply: bool,
)
    ensures
        ({
            let packet = if reply {
                PacketView::RelayLatencyReply { target_id, timestamp }
            } else {
                PacketView::RelayLatencyTest { target_id, timestamp }
            };
            let (after, actions) = packet_step(s, addr, packet, now);
            &&& after == s
            &&& match lookup(s.id_map, target_id) {
                Some(target) => {
                    &&& actions.len() == 1
                    &&& actions[0] matches ActionView::Send { to, packet: sent }
                    &&& to == target.addr
                    &&& sent == packet
                },
                None => actions.len() == 0,
            }
        }),
{
}

proof fn lemma_holder_is_first(peers: Peers, vip: Ipv4Addr, i: int)
    requires
        0 <= i <= peers.len(),
        forall|j: int| 0 <= j < i ==> (#[trigger] peers[j]).1.vip != vip,
        i < peers.len() ==> peers[i].1.vip == vip,
    ensures
        i < peers.len() ==> holder_of(peers, vip) == Some(peers[i].1.addr),
        i == peers.len() ==> holder_of(peers, vip) is None,
    decreases i,
{
    if i > 0 {
        let rest = peers.skip(1);
        assert(peers[0].1.vip != vip);
        assert forall|j: int| 0 <= j < i - 1 implies (#[trigger] rest[j]).1.vip != vip by {
            assert(rest[j] == peers[j + 1]);
        }
        if i < peers.len() {
            assert(rest[i - 1] == peers[i]);
        }
        lemma_holder_is_first(rest, vip, i - 1);
    }
}

/// An IP packet that a client sends, or that the server's own device hands out, is sent on
/// unchanged to the first client that holds its destination, and to nobody where none does or where
/// it has no destination. Only what a client sends to the server itself goes to the server's device.
pub proof fn law_packet_goes_to_holder(
    s: ServerView,
    addr: SocketAddr,
    data: Seq<u8>,
    now: u64,
    dst: Ipv4Addr,
    i: int,
)
    requires
        0 <= i <= s.peers.len(),
        dest_ip(data) == Some(dst),
        forall|j: int| 0 <= j < i ==> (#[trigger] s.peers[j]).1.vip != dst,
        i < s.peers.len() ==> s.peers[i].1.vip == dst,
    ensures
        ({
            let (after, actions) = packet_step(s, addr, PacketView::Data(data), now);
            &&& after == s
            &&& actions == data_actions(s, data)
            &&& dst == s.server_ip ==> actions.len() == 1 && (actions[0] matches ActionView::WriteTun {
                data: written,
            } && written == data)
            &&& dst != s.server_ip ==> actions == deliver(s.peers, data)
        }),
        i == s.peers.len() ==> deliver(s.peers, data).len() == 0,
        i < s.peers.len() ==> {
            &&& deliver(s.peers, data).len() == 1
            &&& deliver(s.peers, data)[0] matches ActionView::Send { to, packet }
            &&& to == s.peers[i].1.addr
            &&& packet == PacketView::Data(data)
        },
{
    lemma_holder_is_first(s.peers, dst, i);
}

/// An IP packet without a destination goes nowhere.
pub proof fn law_packet_without_destination(s: ServerView, addr: SocketAddr, data: Seq<u8>, now: u64)
    requires
        data.len() < 20,
    ensures
        packet_step(s, addr, PacketView::Data(data), now) == (s, Seq::<ActionView>::empty()),
        deliver(s.peers, data).len() == 0,
{
}

proof fn lemma_same_holder(p: Peers, q: Peers, vip: Ipv4Addr)
    requires
        p.len() <= q.len(),
        forall|i: int|
            0 <= i < p.len() ==> ((#[trigger] p[i]).1.vip == vip <==> q[i].1.vip == vip) && (
            p[i].1.vip == vip ==> p[i].1.addr == q[i].1.addr),
        forall|i: int| p.len() <= i < q.len() ==> (#[trigger] q[i]).1.vip != vip,
    ensures
        holder_of(p, vip) == holder_of(q, vip),
    decreases q.len(),
{
    if p.len() > 0 {
        assert(p[0].1.vip == vip <==> q[0].1.vip == vip);
        let (p1, q1) = (p.skip(1), q.skip(1));
        assert forall|i: int| 0 <= i < p1.len() implies ((#[trigger] p1[i]).1.vip == vip
            <==> q1[i].1.vip == vip) && (p1[i].1.vip == vip ==> p1[i].1.addr == q1[i].1.addr) by {
            assert(p1[i] == p[i + 1]);
            assert(q1[i] == q[i + 1]);
        }
        assert forall|i: int| p1.len() <= i < q1.len() implies (#[trigger] q1[i]).1.vip != vip by {
            assert(q1[i] == q[i + 1]);
        }
        lemma_same_holder(p1, q1, vip);
    } else {
        lemma_holder_is_first(q, vip, q.len() as int);
    }
}

/// A client that comes again, from wherever, is reached where it is now: IP packets for its address
/// are sent to where its last handshake came from. IP packets for everybody else are sent where they
/// were sent before.
pub proof fn law_client_that_moves_is_reached(
    s: ServerView,
    addr: SocketAddr,
    client_id: Seq<char>,
    now: u64,
    data: Seq<u8>,
)
    requires
        orderly(s),
        lookup(s.id_map, client_id) is Some,
        forall|a: SocketAddr|
            (#[trigger] lookup(s.peers, a)) is Some && lookup(s.peers, a)->0.client_id == client_id
                ==> a == lookup(s.id_map, client_id)->0.addr,
        lookup(s.peers, addr) matches Some(entry) ==> entry.client_id == client_id,
    ensures
        ({
            let vip = lookup(s.id_map, client_id)->0.vip;
            let packet = PacketView::Handshake { token: s.token, client_id };
            let after = packet_step(s, addr, packet, now).0;
            &&& dest_ip(data) == Some(vip) ==> data_actions(after, data) == seq![
                ActionView::Send { to: addr, packet: PacketView::Data(data) },
            ]
            &&& dest_ip(data) == Some(vip) ==> deliver(after.peers, data) == seq![
                ActionView::Send { to: addr, packet: PacketView::Data(data) },
            ]
            &&& dest_ip(data) != Some(vip) ==> data_actions(after, data) == data_actions(s, data)
            &&& dest_ip(data) != Some(vip) ==> deliver(after.peers, data) == deliver(s.peers, data)
        }),
{
    let known = lookup(s.id_map, client_id)->0;
    let vip = known.vip;
    let entry = lookup(s.peers, known.addr)->0;
    assert(lookup(s.peers, known.addr) is Some);
    let changed = ClientInfoView { addr, last_seen: now, ..entry };
    let info = ClientInfoView { addr, last_seen: now, client_id, vip };
    let p1 = put(s.peers, known.addr, changed);
    let p2 = put(p1, addr, info);
    let after = packet_step(
        s,
        addr,
        PacketView::Handshake { token: s.token, client_id },
        now,
    ).0;
    assert(after.peers == p2);
    let n = place_of(s.peers, known.addr);
    assert(is_at(s.peers, known.addr, n));
    assert(p1 == s.peers.update(n, (known.addr, changed)));
    lemma_put(s.peers, known.addr, changed, addr);
    // Only the client's own entries hold its address.
    assert forall|i: int| 0 <= i < s.peers.len() && (#[trigger] s.peers[i]).1.vip == vip implies i
        == n by {
        let a = s.peers[i].0;
        assert(is_at(s.peers, a, i));
        lemma_place(s.peers, a, i);
        assert(lookup(s.peers, a) is Some);
    }
    assert(p2.len() >= s.peers.len());
    if addr == known.addr {
        assert(is_at(p1, addr, n));
        lemma_place(p1, addr, n);
        assert(p2 == p1.update(n, (addr, info)));
    } else {
        assert(lookup(s.peers, addr) is None);
        assert(!has_key(p1, addr));
        assert(p2 == p1.push((addr, info)));
    }
    if let Some(dst) = dest_ip(data) {
        if dst == vip {
            assert(p2[n].1.addr == addr && p2[n].1.vip == vip);
            assert forall|j: int| 0 <= j < n implies (#[trigger] p2[j]).1.vip != vip by {
                assert(p2[j] == s.peers[j]);
            }
            lemma_holder_is_first(p2, vip, n);
            law_pool_leaves_out_server(s.network_ip, entry.vip);
        } else {
            assert forall|i: int| 0 <= i < s.peers.len() implies ((#[trigger] s.peers[i]).1.vip
                == dst <==> p2[i].1.vip == dst) && (s.peers[i].1.vip == dst ==> s.peers[i].1.addr
                == p2[i].1.addr) by {
                if i != n {
                    assert(p2[i] == s.peers[i]);
                }
            }
            lemma_same_holder(s.peers, p2, dst);
        }
    }
}

/// The clean-up keeps a registered client exactly while it was heard of less than a minute ago, as
/// it was.
pub proof fn law_clean_up_keeps_clients_heard_of(s: ServerView, now: u64, addr: SocketAddr)
    requires
        tables_wf(s),
    ensures
        lookup(clean_step(s, now).peers, addr) == match lookup(s.peers, addr) {
            Some(client) => if spec_elapsed_secs(now, client.last_seen) < CLIENT_TIMEOUT_SECS {
                Some(client)
            } else {
                None
            },
            None => None,
        },
{
    lemma_filter(s.peers, |e: (SocketAddr, ClientInfoView)| is_active(e.1, now), addr);
}

/// The clean-up forgets an identity exactly if the entry of where that client is known to be has
/// not been heard of for a minute.
pub proof fn law_clean_up_forgets_identities(s: ServerView, now: u64, id: Seq<char>)
    requires
        tables_wf(s),
    ensures
        lookup(clean_step(s, now).id_map, id) == match lookup(s.id_map, id) {
            Some(known) => match lookup(s.peers, known.addr) {
                Some(entry) => if spec_elapsed_secs(now, entry.last_seen) < CLIENT_TIMEOUT_SECS {
                    Some(known)
                } else {
                    None
                },
                None => Some(known),
            },
            None => None,
        },
{
    lemma_filter(
        s.id_map,
        |e: (Seq<char>, ClientInfoView)| !is_dropped(s.peers, e.1.addr, now),
        id,
    );
}

/// The clean-up keeps a session exactly while it is younger than the limit, counted from when it
/// was opened; the relayed pairs all stay.
pub proof fn law_clean_up_keeps_young_sessions(s: ServerView, now: u64, id: Seq<char>)
    requires
        tables_wf(s),
    ensures
        lookup(clean_step(s, now).nat_sessions, id) == match lookup(s.nat_sessions, id) {
            Some(session) => if spec_elapsed_secs(now, session.created_at) < SESSION_TIMEOUT_SECS {
                Some(session)
            } else {
                None
            },
            None => None,
        },
        clean_step(s, now).relay_sessions == s.relay_sessions,
{
    lemma_filter(s.nat_sessions, |e: (Seq<char>, NatSessionView)| is_current(e.1, now), id);
}

/// A session that was asked for less than five minutes ago outlives a clean-up: the report of
/// either side is then answered as it would have been without one.
pub proof fn law_session_outlives_clean_up(
    s: ServerView,
    addr: SocketAddr,
    target_id: Seq<char>,
    password: Seq<char>,
    now: u64,
    later: u64,
    i: int,
    reporter: Seq<char>,
    from: SocketAddr,
)
    requires
        tables_wf(s),
        0 <= i < s.id_map.len(),
        s.id_map[i].1.addr == addr,
        forall|j: int| 0 <= j < i ==> (#[trigger] s.id_map[j]).1.addr != addr,
        s.id_map[i].0.len() > 0,
        lookup(s.id_map, target_id) is Some,
        reporter == s.id_map[i].0 || reporter == target_id,
    ensures
        ({
            let asked = packet_step(
                s,
                addr,
                PacketView::RequestConnect { target_id, password },
                now,
            ).0;
            let report = PacketView::PortChanged { client_id: reporter };
            let told = packet_step(clean_step(asked, later), from, report, later).1;
            if spec_elapsed_secs(later, now) < 300 {
                told == packet_step(asked, from, report, later).1
            } else {
                told.len() == 0
            }
        }),
{
    law_request_opens_session(s, addr, target_id, password, now, i, reporter);
    let src_id = s.id_map[i].0;
    let asked = packet_step(s, addr, PacketView::RequestConnect { target_id, password }, now).0;
    assert(tables_wf(asked)) by {
        lemma_id_at(s.id_map, addr, i);
        assert(is_at(s.id_map, src_id, i));
        lemma_place(s.id_map, src_id, i);
        let session = lookup(asked.nat_sessions, src_id)->0;
        lemma_put(s.nat_sessions, src_id, session, src_id);
        lemma_put(put(s.nat_sessions, src_id, session), target_id, session, src_id);
    }
    law_clean_up_keeps_young_sessions(asked, later, reporter);
}

/// Everyone who is known is told, once and where it is known to be, of everyone who is known: the
/// identity and the address of each, and that it is online.
pub proof fn law_everyone_is_told_who_is_online(s: ServerView, i: int, j: int)
    ensures
        announcement(s.id_map).len() == s.id_map.len(),
        0 <= i < s.id_map.len() ==> {
            &&& announcement(s.id_map)[i] matches ActionView::Send {
                to,
                packet: PacketView::OnlineDevices(list),
            }
            &&& to == s.id_map[i].1.addr
            &&& list == online_list(s.id_map)
        },
        online_list(s.id_map).len() == s.id_map.len(),
        0 <= j < s.id_map.len() ==> {
            let device = online_list(s.id_map)[j];
            &&& device.client_id == s.id_map[j].0
            &&& device.vip == ip_text(s.id_map[j].1.vip)
            &&& device.is_online
        },
{
}

} // verus!

//! What holds of the server whatever its clients send.

use vstd::prelude::*;
use crate::addr::{ip_text, law_offsets_distinct, spec_next_ip, Ipv4Addr, SocketAddr};
use crate::clock::spec_elapsed_secs;
use crate::protocol::{dest_ip, PacketView};
use crate::server::{
    clean_step, connect_peers, data_actions, deliver, empty_server, free_ip, free_ip_from, handshake_step,
    holder_of, id_at, is_active, is_current, is_dropped, is_free, moved, own_ip, packet_step,
    ping_step, session_key, tables_wf, ActionView, ClientInfoView, NatSessionView,
    RelaySessionView, ServerView, CLIENT_TIMEOUT_SECS, END_OFFSET, FIRST_OFFSET,
};
use crate::table::{
    has_key, is_at, keys_unique, lemma_filter, lemma_place, lemma_put, lookup, place_of, put,
};
use crate::text::lemma_lex_total;

verus! {

/// The entries of a table of clients by address.
pub type Peers = Seq<(SocketAddr, ClientInfoView)>;

/// Whether `ip` is one of the addresses that are given to clients.
pub open spec fn in_pool(network_ip: Ipv4Addr, ip: Ipv4Addr) -> bool {
    exists|offset: int|
        FIRST_OFFSET <= offset < END_OFFSET && ip == #[trigger] spec_next_ip(network_ip, offset)
}

/// No address of the pool is the server's own.
pub proof fn law_pool_leaves_out_server(network_ip: Ipv4Addr, ip: Ipv4Addr)
    requires
        in_pool(network_ip, ip),
    ensures
        ip != own_ip(network_ip),
{
    let offset = choose|offset: int|
        FIRST_OFFSET <= offset < END_OFFSET && ip == #[trigger] spec_next_ip(network_ip, offset);
    law_offsets_distinct(network_ip, 1, offset);
}

proof fn lemma_free_ip_from(network_ip: Ipv4Addr, peers: Peers, from: int)
    requires
        FIRST_OFFSET <= from <= END_OFFSET,
    ensures
        match free_ip_from(network_ip, peers, from) {
            Some(ip) => is_free(peers, ip) && in_pool(network_ip, ip),
            None => forall|offset: int|
                from <= offset < END_OFFSET ==> !is_free(
                    peers,
                    #[trigger] spec_next_ip(network_ip, offset),
                ),
        },
    decreases END_OFFSET - from,
{
    if from < END_OFFSET && !is_free(peers, spec_next_ip(network_ip, from)) {
        lemma_free_ip_from(network_ip, peers, from + 1);
    }
}

/// A new client gets an address of the pool that no other client holds.
pub proof fn law_new_address_is_free(network_ip: Ipv4Addr, peers: Peers)
    ensures
        free_ip(network_ip, peers) matches Some(ip) ==> is_free(peers, ip) && in_pool(
            network_ip,
            ip,
        ) && ip != own_ip(network_ip),
{
    lemma_free_ip_from(network_ip, peers, FIRST_OFFSET as int);
    if let Some(ip) = free_ip(network_ip, peers) {
        law_pool_leaves_out_server(network_ip, ip);
    }
}

/// The addresses at the offsets from the first one up to `end`.
spec fn pool_part(network_ip: Ipv4Addr, end: int) -> Set<Ipv4Addr>
    decreases end,
{
    if end <= FIRST_OFFSET {
        Set::empty()
    } else {
        pool_part(network_ip, end - 1).insert(spec_next_ip(network_ip, end - 1))
    }
}

proof fn lemma_pool_part(network_ip: Ipv4Addr, end: int)
    requires
        FIRST_OFFSET <= end <= END_OFFSET,
    ensures
        pool_part(network_ip, end).finite(),
        pool_part(network_ip, end).len() == end - FIRST_OFFSET,
        forall|ip: Ipv4Addr| #[trigger]
            pool_part(network_ip, end).contains(ip) ==> exists|offset: int|
                FIRST_OFFSET <= offset < end && ip == #[trigger] spec_next_ip(network_ip, offset),
    decreases end,
{
    if end > FIRST_OFFSET {
        lemma_pool_part(network_ip, end - 1);
        let smaller = pool_part(network_ip, end - 1);
        let last = spec_next_ip(network_ip, end - 1);
        if smaller.contains(last) {
            let offset = choose|offset: int|
                FIRST_OFFSET <= offset < end - 1 && last == #[trigger] spec_next_ip(
                    network_ip,
                    offset,
                );
            law_offsets_distinct(network_ip, offset, end - 1);
        }
        assert forall|ip: Ipv4Addr| #[trigger]
            pool_part(network_ip, end).contains(ip) implies exists|offset: int|
            FIRST_OFFSET <= offset < end && ip == #[trigger] spec_next_ip(network_ip, offset) by {
            if ip != last {
                assert(smaller.contains(ip));
            }
        }
    }
}

/// The addresses that the first `n` clients hold.
spec fn held(peers: Peers, n: int) -> Set<Ipv4Addr>
    decreases n,
{
    if n <= 0 {
        Set::empty()
    } else {
        held(peers, n - 1).insert(peers[n - 1].1.vip)
    }
}

proof fn lemma_held(peers: Peers, n: int)
    requires
        0 <= n <= peers.len(),
    ensures
        held(peers, n).finite(),
        held(peers, n).len() <= n,
        forall|i: int| 0 <= i < n ==> held(peers, n).contains((#[trigger] peers[i]).1.vip),
    decreases n,
{
    if n > 0 {
        lemma_held(peers, n - 1);
    }
}

/// As long as fewer clients are registered than the pool has addresses, a new one gets one.
pub proof fn law_address_left(network_ip: Ipv4Addr, peers: Peers)
    requires
        peers.len() < END_OFFSET - FIRST_OFFSET,
    ensures
        free_ip(network_ip, peers) is Some,
{
    if free_ip(network_ip, peers) is None {
        let n: int = peers.len() as int;
        let pool = pool_part(network_ip, END_OFFSET as int);
        lemma_free_ip_from(network_ip, peers, FIRST_OFFSET as int);
        lemma_pool_part(network_ip, END_OFFSET as int);
        lemma_held(peers, n);
        assert forall|ip: Ipv4Addr| #[trigger] pool.contains(ip) implies held(peers, n).contains(
            ip,
        ) by {
            let offset = choose|offset: int|
                FIRST_OFFSET <= offset < END_OFFSET && ip == #[trigger] spec_next_ip(
                    network_ip,
                    offset,
                );
            assert(!is_free(peers, spec_next_ip(network_ip, offset)));
            let i = choose|i: int| 0 <= i < peers.len() && (#[trigger] peers[i]).1.vip == ip;
            assert(held(peers, n).contains(peers[i].1.vip));
        }
        assert(pool.subset_of(held(peers, n)));
        vstd::set_lib::lemma_len_subset(pool, held(peers, n));
    }
}

/// A client that does not know the token is not answered, and nothing comes of its request.
pub proof fn law_wrong_token_is_ignored(
    s: ServerView,
    addr: SocketAddr,
    token: Seq<char>,
    client_id: Seq<char>,
    now: u64,
)
    requires
        token != s.token,
    ensures
        packet_step(s, addr, PacketView::Handshake { token, client_id }, now) == (
            s,
            Seq::<ActionView>::empty(),
        ),
{
}

/// A client that comes again, from wherever, keeps its address and is reached where it is now.
pub proof fn law_known_client_keeps_address(
    s: ServerView,
    addr: SocketAddr,
    client_id: Seq<char>,
    now: u64,
)
    requires
        tables_wf(s),
        lookup(s.id_map, client_id) is Some,
    ensures
        ({
            let known = lookup(s.id_map, client_id)->0;
            let packet = PacketView::Handshake { token: s.token, client_id };
            let (after, actions) = packet_step(s, addr, packet, now);
            let info = ClientInfoView { addr, last_seen: now, client_id, vip: known.vip };
            &&& lookup(after.id_map, client_id) == Some(info)
            &&& lookup(after.peers, addr) == Some(info)
            &&& actions.len() > 0
            &&& actions[0] == (ActionView::Send {
                to: addr,
                packet: PacketView::HandshakeAck { ip: ip_text(known.vip), cidr: s.cidr },
            })
        }),
{
    let known = lookup(s.id_map, client_id)->0;
    let peers = moved(s.peers, Some(known), addr, now);
    let info = ClientInfoView { addr, last_seen: now, client_id, vip: known.vip };
    lemma_moved(s.peers, Some(known), addr, now, addr);
    lemma_put(peers, addr, info, addr);
    lemma_put(s.id_map, client_id, info, client_id);
}

/// A client that was not known and shows the token is admitted while addresses are left: it is
/// registered and told an address that no other client holds.
pub proof fn law_new_client_is_admitted(
    s: ServerView,
    addr: SocketAddr,
    client_id: Seq<char>,
    now: u64,
)
    requires
        tables_wf(s),
        lookup(s.id_map, client_id) is None,
        s.peers.len() < END_OFFSET - FIRST_OFFSET,
    ensures
        ({
            let packet = PacketView::Handshake { token: s.token, client_id };
            let (after, actions) = packet_step(s, addr, packet, now);
            &&& free_ip(s.network_ip, s.peers) matches Some(vip)
            &&& is_free(s.peers, vip)
            &&& in_pool(s.network_ip, vip)
            &&& lookup(after.id_map, client_id) == Some(
                ClientInfoView { addr, last_seen: now, client_id, vip },
            )
            &&& lookup(after.peers, addr) == lookup(after.id_map, client_id)
            &&& actions.len() > 0
            &&& actions[0] == (ActionView::Send {
                to: addr,
                packet: PacketView::HandshakeAck { ip: ip_text(vip), cidr: s.cidr },
            })
        }),
{
    law_address_left(s.network_ip, s.peers);
    law_new_address_is_free(s.network_ip, s.peers);
    let vip = free_ip(s.network_ip, s.peers)->0;
    let info = ClientInfoView { addr, last_seen: now, client_id, vip };
    lemma_put(s.peers, addr, info, addr);
    lemma_put(s.id_map, client_id, info, client_id);
}

/// What a client's move changes: only where its old entry points to, and when it was heard of.
proof fn lemma_moved(
    peers: Peers,
    existing: Option<ClientInfoView>,
    addr: SocketAddr,
    now: u64,
    key: SocketAddr,
)
    requires
        keys_unique(peers),
    ensures
        keys_unique(moved(peers, existing, addr, now)),
        match lookup(peers, key) {
            Some(before) => lookup(moved(peers, existing, addr, now), key) matches Some(after)
                && after.client_id == before.client_id && after.vip == before.vip,
            None => lookup(moved(peers, existing, addr, now), key) is None,
        },
{
    if let Some(client) = existing {
        if let Some(entry) = lookup(peers, client.addr) {
            let changed = ClientInfoView { addr, last_seen: now, ..entry };
            lemma_put(peers, client.addr, changed, key);
        }
    }
}

/// Every address that a client holds comes from the pool.
pub open spec fn vips_in_pool(s: ServerView) -> bool {
    forall|a: SocketAddr|
        (#[trigger] lookup(s.peers, a)) is Some ==> in_pool(
            s.network_ip,
            lookup(s.peers, a)->0.vip,
        )
}

/// Every client that is known by its identity is registered, with the same address, under the
/// place where it was last heard from.
pub open spec fn ids_registered(s: ServerView) -> bool {
    forall|id: Seq<char>|
        (#[trigger] lookup(s.id_map, id)) is Some ==> {
            let known = lookup(s.id_map, id)->0;
            &&& known.client_id == id
            &&& lookup(s.peers, known.addr) matches Some(entry)
            &&& entry.client_id == id
            &&& entry.vip == known.vip
        }
}

/// No two clients hold the same address.
pub open spec fn vips_exclusive(s: ServerView) -> bool {
    forall|a: SocketAddr, b: SocketAddr|
        (#[trigger] lookup(s.peers, a)) is Some && (#[trigger] lookup(s.peers, b)) is Some
            && lookup(s.peers, a)->0.vip == lookup(s.peers, b)->0.vip ==> lookup(
            s.peers,
            a,
        )->0.client_id == lookup(s.peers, b)->0.client_id
}

/// What holds of the server from its start on.
pub open spec fn orderly(s: ServerView) -> bool {
    &&& tables_wf(s)
    &&& s.server_ip == own_ip(s.network_ip)
    &&& vips_in_pool(s)
    &&& ids_registered(s)
    &&& vips_exclusive(s)
}

/// A server starts out orderly.
pub proof fn law_orderly_at_start(token: Seq<char>, cidr: Seq<char>, network_ip: Ipv4Addr)
    ensures
        orderly(empty_server(token, cidr, network_ip)),
{
    let s = empty_server(token, cidr, network_ip);
    assert forall|a: SocketAddr| lookup(s.peers, a) is None by {
        if has_key(s.peers, a) {
            assert(is_at(s.peers, a, place_of(s.peers, a)));
        }
    }
    assert forall|id: Seq<char>| lookup(s.id_map, id) is None by {
        if has_key(s.id_map, id) {
            assert(is_at(s.id_map, id, place_of(s.id_map, id)));
        }
    }
}

/// Whether a handshake is admitted from an address where another client is known to be.
pub open spec fn takes_over(s: ServerView, addr: SocketAddr, packet: PacketView) -> bool {
    &&& packet matches PacketView::Handshake { token, client_id }
    &&& token == s.token
    &&& lookup(s.id_map, client_id) is Some || free_ip(s.network_ip, s.peers) is Some
    &&& exists|id: Seq<char>| id != client_id && #[trigger] is_known_at(s, id, addr)
}

/// Whether the client `id` is known, and `addr` is where it was last heard from.
pub open spec fn is_known_at(s: ServerView, id: Seq<char>, addr: SocketAddr) -> bool {
    lookup(s.id_map, id) matches Some(known) && known.addr == addr
}

proof fn lemma_handshake_orderly(
    s: ServerView,
    addr: SocketAddr,
    client_id: Seq<char>,
    now: u64,
)
    requires
        orderly(s),
        !takes_over(s, addr, PacketView::Handshake { token: s.token, client_id }),
    ensures
        orderly(handshake_step(s, addr, s.token, client_id, now).0),
{
    let existing = lookup(s.id_map, client_id);
    let peers = moved(s.peers, existing, addr, now);
    let after = handshake_step(s, addr, s.token, client_id, now).0;
    lemma_moved(s.peers, existing, addr, now, addr);
    let ip = match existing {
        Some(client) => Some(client.vip),
        None => free_ip(s.network_ip, peers),
    };
    if ip is None {
        assert(peers == s.peers);
        assert(after == s);
        return ;
    }
    let vip = ip->0;
    let info = ClientInfoView { addr, last_seen: now, client_id, vip };
    lemma_put(peers, addr, info, addr);
    lemma_put(s.id_map, client_id, info, client_id);

    // The address given is held by nobody else.
    assert forall|a: SocketAddr| #[trigger]
        lookup(s.peers, a) is Some && lookup(s.peers, a)->0.vip == vip implies lookup(
        s.peers,
        a,
    )->0.client_id == client_id by {
        match existing {
            Some(known) => {
                assert(lookup(s.peers, known.addr) is Some);
            },
            None => {
                law_new_address_is_free(s.network_ip, s.peers);
                let i = place_of(s.peers, a);
                assert(is_at(s.peers, a, i));
                assert(s.peers[i].1.vip != vip);
            },
        }
    }
    assert(in_pool(s.network_ip, vip)) by {
        match existing {
            Some(known) => {
                assert(lookup(s.peers, known.addr) is Some);
            },
            None => {
                law_new_address_is_free(s.network_ip, s.peers);
            },
        }
    }
    // What is registered after the handshake: the client itself, and what was there before.
    assert forall|a: SocketAddr| a != addr implies match lookup(s.peers, a) {
        Some(before) => #[trigger] lookup(after.peers, a) matches Some(entry) && entry.client_id
            == before.client_id && entry.vip == before.vip,
        None => lookup(after.peers, a) is None,
    } by {
        lemma_moved(s.peers, existing, addr, now, a);
        lemma_put(peers, addr, info, a);
    }
    assert(lookup(after.peers, addr) == Some(info));
    assert forall|a: SocketAddr| (#[trigger] lookup(after.peers, a)) is Some implies in_pool(
        s.network_ip,
        lookup(after.peers, a)->0.vip,
    ) by {
        if a != addr {
            assert(lookup(s.peers, a) is Some);
        }
    }
    assert forall|a: SocketAddr, b: SocketAddr|
        (#[trigger] lookup(after.peers, a)) is Some && (#[trigger] lookup(after.peers, b)) is Some
            && lookup(after.peers, a)->0.vip == lookup(after.peers, b)->0.vip implies lookup(
        after.peers,
        a,
    )->0.client_id == lookup(after.peers, b)->0.client_id by {
        if a != addr {
            assert(lookup(s.peers, a) is Some);
        }
        if b != addr {
            assert(lookup(s.peers, b) is Some);
        }
    }
    assert forall|id: Seq<char>| (#[trigger] lookup(after.id_map, id)) is Some implies {
        let known = lookup(after.id_map, id)->0;
        &&& known.client_id == id
        &&& lookup(after.peers, known.addr) matches Some(entry)
        &&& entry.client_id == id
        &&& entry.vip == known.vip
    } by {
        if id != client_id {
            lemma_put(s.id_map, client_id, info, id);
            assert(lookup(s.id_map, id) is Some);
            let known = lookup(s.id_map, id)->0;
            assert(known.addr != addr) by {
                if known.addr == addr {
                    assert(is_known_at(s, id, addr));
                }
            }
            assert(lookup(after.peers, known.addr) is Some);
        }
    }
}

proof fn lemma_ping_orderly(s: ServerView, addr: SocketAddr, ts: u64, now: u64)
    requires
        orderly(s),
    ensures
        orderly(ping_step(s, addr, ts, now).0),
{
    let after = ping_step(s, addr, ts, now).0;
    if let Some(client) = lookup(s.peers, addr) {
        let changed = ClientInfoView { last_seen: now, ..client };
        lemma_put(s.peers, addr, changed, addr);
        assert forall|a: SocketAddr| match lookup(s.peers, a) {
            Some(before) => #[trigger] lookup(after.peers, a) matches Some(entry)
                && entry.client_id == before.client_id && entry.vip == before.vip,
            None => lookup(after.peers, a) is None,
        } by {
            lemma_put(s.peers, addr, changed, a);
        }
        assert forall|a: SocketAddr| (#[trigger] lookup(after.peers, a)) is Some implies in_pool(
            s.network_ip,
            lookup(after.peers, a)->0.vip,
        ) by {
            assert(lookup(s.peers, a) is Some);
        }
        assert forall|a: SocketAddr, b: SocketAddr|
            (#[trigger] lookup(after.peers, a)) is Some && (#[trigger] lookup(
                after.peers,
                b,
            )) is Some && lookup(after.peers, a)->0.vip == lookup(after.peers, b)->0.vip
            implies lookup(after.peers, a)->0.client_id == lookup(
            after.peers,
            b,
        )->0.client_id by {
            assert(lookup(s.peers, a) is Some);
            assert(lookup(s.peers, b) is Some);
        }
        assert forall|id: Seq<char>| (#[trigger] lookup(after.id_map, id)) is Some implies {
            let known = lookup(after.id_map, id)->0;
            &&& known.client_id == id
            &&& lookup(after.peers, known.addr) matches Some(entry)
            &&& entry.client_id == id
            &&& entry.vip == known.vip
        } by {
            let known = lookup(s.id_map, id)->0;
            assert(lookup(s.peers, known.addr) is Some);
            assert(lookup(after.peers, known.addr) is Some);
        }
    }
}

/// The server stays orderly, whatever it is sent, as long as no client is admitted from an address
/// where another client is known to be. In particular no two clients ever hold the same virtual
/// address.
pub proof fn law_orderly_after_packet(s: ServerView, addr: SocketAddr, packet: PacketView, now: u64)
    requires
        orderly(s),
        !takes_over(s, addr, packet),
    ensures
        orderly(packet_step(s, addr, packet, now).0),
{
    match packet {
        PacketView::Handshake { token, client_id } => {
            if token == s.token {
                lemma_handshake_orderly(s, addr, client_id, now);
            }
        },
        PacketView::Ping(ts) => {
            lemma_ping_orderly(s, addr, ts, now);
        },
        PacketView::RequestConnect { target_id, password } => {
            let src_id = id_at(s.id_map, addr);
            match (lookup(s.id_map, src_id), lookup(s.id_map, target_id)) {
                (Some(src), Some(target)) => {
                    let session = NatSessionView {
                        peer_one_id: src_id,
                        peer_one_addr: addr,
                        peer_one_vip: src.vip,
                        peer_two_id: target_id,
                        peer_two_addr: target.addr,
                        peer_two_vip: target.vip,
                        created_at: now,
                    };
                    lemma_put(s.nat_sessions, src_id, session, src_id);
                    lemma_put(put(s.nat_sessions, src_id, session), target_id, session, src_id);
                },
                _ => {},
            }
        },
        PacketView::EnableRelay { src_id, target_id, vip } => {
            let session = RelaySessionView {
                client_one_id: src_id,
                client_two_id: target_id,
                enabled: true,
            };
            lemma_put(s.relay_sessions, session_key(src_id, target_id), session, src_id);
        },
        _ => {},
    }
}

/// The server stays orderly over a clean-up.
pub proof fn law_orderly_after_clean(s: ServerView, now: u64)
    requires
        orderly(s),
    ensures
        orderly(clean_step(s, now)),
{
    let after = clean_step(s, now);
    let keep_peer = |e: (SocketAddr, ClientInfoView)| is_active(e.1, now);
    let keep_id = |e: (Seq<char>, ClientInfoView)| !is_dropped(s.peers, e.1.addr, now);
    let keep_session = |e: (Seq<char>, NatSessionView)| is_current(e.1, now);
    assert forall|a: SocketAddr| #[trigger]
        lookup(after.peers, a) is Some implies lookup(after.peers, a) == lookup(s.peers, a)
        && is_active(lookup(s.peers, a)->0, now) by {
        lemma_filter(s.peers, keep_peer, a);
    }
    assert forall|a: SocketAddr| #[trigger] lookup(s.peers, a) is Some && is_active(
        lookup(s.peers, a)->0,
        now,
    ) implies lookup(after.peers, a) == lookup(s.peers, a) by {
        lemma_filter(s.peers, keep_peer, a);
    }
    assert forall|id: Seq<char>| #[trigger]
        lookup(after.id_map, id) is Some implies lookup(after.id_map, id) == lookup(s.id_map, id)
        && !is_dropped(s.peers, lookup(s.id_map, id)->0.addr, now) by {
        lemma_filter(s.id_map, keep_id, id);
    }
    let any_addr = arbitrary::<SocketAddr>();
    let any_id = arbitrary::<Seq<char>>();
    lemma_filter(s.peers, keep_peer, any_addr);
    lemma_filter(s.id_map, keep_id, any_id);
    lemma_filter(s.nat_sessions, keep_session, any_id);
    assert forall|a: SocketAddr| (#[trigger] lookup(after.peers, a)) is Some implies in_pool(
        s.network_ip,
        lookup(after.peers, a)->0.vip,
    ) by {
        assert(lookup(s.peers, a) is Some);
    }
    assert forall|a: SocketAddr, b: SocketAddr|
        (#[trigger] lookup(after.peers, a)) is Some && (#[trigger] lookup(after.peers, b)) is Some
            && lookup(after.peers, a)->0.vip == lookup(after.peers, b)->0.vip implies lookup(
        after.peers,
        a,
    )->0.client_id == lookup(after.peers, b)->0.client_id by {
        assert(lookup(s.peers, a) is Some);
        assert(lookup(s.peers, b) is Some);
    }
    assert forall|id: Seq<char>| (#[trigger] lookup(after.id_map, id)) is Some implies {
        let known = lookup(after.id_map, id)->0;
        &&& known.client_id == id
        &&& lookup(after.peers, known.addr) matches Some(entry)
        &&& entry.client_id == id
        &&& entry.vip == known.vip
    } by {
        assert(lookup(s.id_map, id) is Some);
        let known = lookup(s.id_map, id)->0;
        assert(lookup(s.peers, known.addr) is Some);
    }
}

/// In an orderly server, clients with different identities have different addresses, and none
/// has the server's.
pub proof fn law_identities_have_own_addresses(s: ServerView, id1: Seq<char>, id2: Seq<char>)
    requires
        orderly(s),
        lookup(s.id_map, id1) is Some,
        lookup(s.id_map, id2) is Some,
        id1 != id2,
    ensures
        lookup(s.id_map, id1)->0.vip != lookup(s.id_map, id2)->0.vip,
        lookup(s.id_map, id1)->0.vip != s.server_ip,
{
    let a = lookup(s.id_map, id1)->0.addr;
    let b = lookup(s.id_map, id2)->0.addr;
    assert(lookup(s.peers, a) is Some);
    assert(lookup(s.peers, b) is Some);
    law_pool_leaves_out_server(s.network_ip, lookup(s.peers, a)->0.vip);
}

proof fn lemma_holder(peers: Peers, vip: Ipv4Addr)
    ensures
        match holder_of(peers, vip) {
            Some(to) => exists|i: int|
                0 <= i < peers.len() && (#[trigger] peers[i]).1.vip == vip && peers[i].1.addr == to,
            None => is_free(peers, vip),
        },
    decreases peers.len(),
{
    if peers.len() > 0 {
        let rest = peers.skip(1);
        lemma_holder(rest, vip);
        if peers[0].1.vip == vip {
            assert(peers[0].1.addr == holder_of(peers, vip)->0);
        } else {
            match holder_of(rest, vip) {
                Some(to) => {
                    let i = choose|i: int|
                        0 <= i < rest.len() && (#[trigger] rest[i]).1.vip == vip && rest[i].1.addr
                            == to;
                    assert(peers[i + 1] == rest[i]);
                },
                None => {
                    assert forall|i: int| 0 <= i < peers.len() implies (#[trigger] peers[i]).1.vip
                        != vip by {
                        if i > 0 {
                            assert(peers[i] == rest[i - 1]);
                        }
                    }
                },
            }
        }
    }
}

/// An IP packet for a client that the server knows is sent, once, to where an entry of that very
/// client points.
pub proof fn law_packet_reaches_client(s: ServerView, id: Seq<char>, data: Seq<u8>)
    requires
        orderly(s),
        lookup(s.id_map, id) is Some,
        dest_ip(data) == Some(lookup(s.id_map, id)->0.vip),
    ensures
        exists|a: SocketAddr|
            (#[trigger] lookup(s.peers, a)) is Some && lookup(s.peers, a)->0.client_id == id
                && data_actions(s, data) == seq![
                ActionView::Send {
                    to: lookup(s.peers, a)->0.addr,
                    packet: PacketView::Data(data),
                },
            ],
{
    let known = lookup(s.id_map, id)->0;
    assert(lookup(s.peers, known.addr) is Some);
    law_pool_leaves_out_server(s.network_ip, lookup(s.peers, known.addr)->0.vip);
    lemma_holder(s.peers, known.vip);
    let k = place_of(s.peers, known.addr);
    assert(is_at(s.peers, known.addr, k));
    assert(s.peers[k].1.vip == known.vip);
    let to = holder_of(s.peers, known.vip)->0;
    let i = choose|i: int|
        0 <= i < s.peers.len() && (#[trigger] s.peers[i]).1.vip == known.vip && s.peers[i].1.addr
            == to;
    let a = s.peers[i].0;
    assert(is_at(s.peers, a, i));
    lemma_place(s.peers, a, i);
    assert(lookup(s.peers, a)->0.client_id == id);
}

/// As soon as a new client is admitted, IP packets for the address that it was given are sent to
/// where it came from, whether another client or the server itself sends them.
pub proof fn law_new_client_is_reached(
    s: ServerView,
    addr: SocketAddr,
    client_id: Seq<char>,
    now: u64,
    data: Seq<u8>,
)
    requires
        tables_wf(s),
        s.server_ip == own_ip(s.network_ip),
        lookup(s.id_map, client_id) is None,
        free_ip(s.network_ip, s.peers) is Some,
        dest_ip(data) == free_ip(s.network_ip, s.peers),
    ensures
        ({
            let packet = PacketView::Handshake { token: s.token, client_id };
            let after = packet_step(s, addr, packet, now).0;
            let sent = seq![ActionView::Send { to: addr, packet: PacketView::Data(data) }];
            &&& data_actions(after, data) == sent
            &&& deliver(after.peers, data) == sent
        }),
{
    let vip = free_ip(s.network_ip, s.peers)->0;
    let info = ClientInfoView { addr, last_seen: now, client_id, vip };
    let peers = put(s.peers, addr, info);
    law_new_address_is_free(s.network_ip, s.peers);
    lemma_holder(peers, vip);
    let n: int = if has_key(s.peers, addr) {
        place_of(s.peers, addr)
    } else {
        s.peers.len() as int
    };
    if has_key(s.peers, addr) {
        assert(is_at(s.peers, addr, n));
    }
    assert(peers[n].1 == info);
    assert forall|i: int| 0 <= i < peers.len() && (#[trigger] peers[i]).1.vip == vip implies i
        == n by {
        if i != n {
            assert(s.peers[i].1.vip != vip);
        }
    }
    assert(holder_of(peers, vip) == Some(addr));
}

/// An IP packet for the server goes to its own device; one for an address that nobody holds
/// goes nowhere.
pub proof fn law_packet_for_nobody_is_dropped(s: ServerView, data: Seq<u8>)
    requires
        dest_ip(data) is Some,
    ensures
        dest_ip(data) == Some(s.server_ip) ==> data_actions(s, data) == seq![
            ActionView::WriteTun { data },
        ],
        dest_ip(data) != Some(s.server_ip) && is_free(s.peers, dest_ip(data)->0) ==> data_actions(
            s,
            data,
        ) == Seq::<ActionView>::empty(),
{
    let dst = dest_ip(data)->0;
    lemma_holder(s.peers, dst);
    if is_free(s.peers, dst) {
        if let Some(to) = holder_of(s.peers, dst) {
            let i = choose|i: int|
                0 <= i < s.peers.len() && (#[trigger] s.peers[i]).1.vip == dst
                    && s.peers[i].1.addr == to;
            assert(s.peers[i].1.vip != dst);
        }
    }
}

/// After a clean-up every client that is left was heard of in time, and an address that only
/// silent clients held is free again.
pub proof fn law_clean_up_frees_addresses(s: ServerView, now: u64, vip: Ipv4Addr)
    requires
        forall|i: int|
            0 <= i < s.peers.len() && (#[trigger] s.peers[i]).1.vip == vip ==> !is_active(
                s.peers[i].1,
                now,
            ),
    ensures
        forall|i: int|
            0 <= i < clean_step(s, now).peers.len() ==> is_active(
                (#[trigger] clean_step(s, now).peers[i]).1,
                now,
            ),
        is_free(clean_step(s, now).peers, vip),
{
    let keep = |e: (SocketAddr, ClientInfoView)| is_active(e.1, now);
    let left = clean_step(s, now).peers;
    broadcast use vstd::seq_lib::group_filter_ensures;

    assert forall|i: int| 0 <= i < left.len() implies is_active((#[trigger] left[i]).1, now)
        && left[i].1.vip != vip by {
        assert(keep(left[i]));
        assert(s.peers.filter(keep).contains(left[i]));
        s.peers.lemma_filter_contains_rev(keep, left[i]);
        let j = choose|j: int| 0 <= j < s.peers.len() && s.peers[j] == left[i];
        assert(s.peers[j].1.vip == left[i].1.vip);
    }
}

/// A client that has not been heard of for too long is forgotten by the clean-up, its identity
/// with it.
pub proof fn law_silent_client_is_forgotten(
    s: ServerView,
    id: Seq<char>,
    addr: SocketAddr,
    now: u64,
)
    requires
        tables_wf(s),
        is_known_at(s, id, addr),
        lookup(s.peers, addr) matches Some(entry) && !is_active(entry, now),
    ensures
        lookup(clean_step(s, now).peers, addr) is None,
        lookup(clean_step(s, now).id_map, id) is None,
{
    lemma_filter(s.peers, |e: (SocketAddr, ClientInfoView)| is_active(e.1, now), addr);
    lemma_filter(
        s.id_map,
        |e: (Seq<char>, ClientInfoView)| !is_dropped(s.peers, e.1.addr, now),
        id,
    );
}

/// A client that sends a heartbeat stays registered for as long as the time limit says, and
/// keeps its identity.
pub proof fn law_heartbeat_keeps_client(
    s: ServerView,
    id: Seq<char>,
    addr: SocketAddr,
    ts: u64,
    now: u64,
    later: u64,
)
    requires
        tables_wf(s),
        lookup(s.peers, addr) is Some,
        spec_elapsed_secs(later, now) < CLIENT_TIMEOUT_SECS,
    ensures
        lookup(clean_step(packet_step(s, addr, PacketView::Ping(ts), now).0, later).peers, addr)
            == Some(ClientInfoView { last_seen: now, ..lookup(s.peers, addr)->0 }),
        is_known_at(s, id, addr) ==> lookup(
            clean_step(packet_step(s, addr, PacketView::Ping(ts), now).0, later).id_map,
            id,
        ) == lookup(s.id_map, id),
{
    let changed = ClientInfoView { last_seen: now, ..lookup(s.peers, addr)->0 };
    lemma_put(s.peers, addr, changed, addr);
    lemma_filter(
        put(s.peers, addr, changed),
        |e: (SocketAddr, ClientInfoView)| is_active(e.1, later),
        addr,
    );
    lemma_filter(
        s.id_map,
        |e: (Seq<char>, ClientInfoView)|
            !is_dropped(put(s.peers, addr, changed), e.1.addr, later),
        id,
    );
}

/// Two clients have one name in common, whichever is named first.
pub proof fn law_session_key_symmetric(id1: Seq<char>, id2: Seq<char>)
    ensures
        session_key(id1, id2) == session_key(id2, id1),
{
    lemma_lex_total(id1, id2);
}

/// Once a direct connection was asked for, either side can report that it is ready, and then
/// each of them is told where the other one is.
pub proof fn law_either_side_starts_session(
    s: ServerView,
    addr: SocketAddr,
    target_id: Seq<char>,
    password: Seq<char>,
    now: u64,
    reporter: Seq<char>,
    from: SocketAddr,
    later: u64,
)
    requires
        tables_wf(s),
        id_at(s.id_map, addr).len() > 0,
        lookup(s.id_map, id_at(s.id_map, addr)) is Some,
        lookup(s.id_map, target_id) is Some,
        reporter == id_at(s.id_map, addr) || reporter == target_id,
    ensures
        ({
            let request = PacketView::RequestConnect { target_id, password };
            let after = packet_step(s, addr, request, now).0;
            let src_id = id_at(s.id_map, addr);
            packet_step(after, from, PacketView::PortChanged { client_id: reporter }, later) == (
                after,
                connect_peers(
                    NatSessionView {
                        peer_one_id: src_id,
                        peer_one_addr: addr,
                        peer_one_vip: lookup(s.id_map, src_id)->0.vip,
                        peer_two_id: target_id,
                        peer_two_addr: lookup(s.id_map, target_id)->0.addr,
                        peer_two_vip: lookup(s.id_map, target_id)->0.vip,
                        created_at: now,
                    },
                ),
            )
        }),
{
    let src_id = id_at(s.id_map, addr);
    let session = NatSessionView {
        peer_one_id: src_id,
        peer_one_addr: addr,
        peer_one_vip: lookup(s.id_map, src_id)->0.vip,
        peer_two_id: target_id,
        peer_two_addr: lookup(s.id_map, target_id)->0.addr,
        peer_two_vip: lookup(s.id_map, target_id)->0.vip,
        created_at: now,
    };
    lemma_put(s.nat_sessions, src_id, session, reporter);
    lemma_put(put(s.nat_sessions, src_id, session), target_id, session, reporter);
}

} // verus!

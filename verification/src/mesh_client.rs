//! A client that keeps a connection to every other client: directly to those that it has
//! reached through a hole, through the server to the others.

use vstd::prelude::*;
use crate::addr::{
    ip_string, ip_text, law_ip_text_roundtrip, parse_ip, spec_parse_ip, Ipv4Addr, SocketAddr,
};
use crate::client::{client_actions_view, ClientAction, ClientActionView};
use crate::clock::{elapsed_millis, elapsed_secs, spec_elapsed_millis, spec_elapsed_secs};
use crate::protocol::{dest_ip, get_dest_ip, Packet, PacketView};
use crate::table::{
    has_key, is_at, keys_unique, lemma_place, lemma_put, lookup, place_of, put, Table,
};

verus! {

/// How many milliseconds lie between two rounds of punches at a peer.
pub const MESH_PUNCH_MILLIS: u64 = 500;

/// How many seconds lie between two heartbeats to a peer that is reached directly.
pub const MESH_BEAT_SECS: u64 = 2;

/// Another client.
#[derive(Clone, Copy, Debug, PartialEq, Eq, Structural)]
pub struct MeshPeer {
    pub real_addr: SocketAddr,
    /// Whether the peer is reached directly.
    pub is_p2p: bool,
    /// When the peer was last sent a punch or a heartbeat, or was first heard of.
    pub last_punch: u64,
    pub punch_attempts: u32,
}

impl View for MeshPeer {
    type V = MeshPeer;

    open spec fn view(&self) -> MeshPeer {
        *self
    }
}

/// A client that was admitted.
#[derive(Debug)]
pub struct MeshClient {
    server_addr: SocketAddr,
    /// The virtual address of the client.
    my_ip: Ipv4Addr,
    /// The other clients by their virtual addresses.
    peers: Table<Ipv4Addr, MeshPeer>,
}

pub struct MeshClientView {
    pub server_addr: SocketAddr,
    pub my_ip: Ipv4Addr,
    pub peers: Seq<(Ipv4Addr, MeshPeer)>,
}

impl View for MeshClient {
    type V = MeshClientView;

    closed spec fn view(&self) -> MeshClientView {
        MeshClientView {
            server_addr: self.server_addr,
            my_ip: self.my_ip,
            peers: self.peers@,
        }
    }
}

/// Whether a peer is due for a round of punches.
pub open spec fn punch_due(peer: MeshPeer, now: u64) -> bool {
    !peer.is_p2p && spec_elapsed_millis(now, peer.last_punch) >= MESH_PUNCH_MILLIS
}

/// Whether a peer is due for a heartbeat.
pub open spec fn beat_due(peer: MeshPeer, now: u64) -> bool {
    peer.is_p2p && spec_elapsed_secs(now, peer.last_punch) >= MESH_BEAT_SECS
}

/// What becomes of a peer as time passes.
pub open spec fn peer_after(peer: MeshPeer, now: u64) -> MeshPeer {
    if punch_due(peer, now) {
        MeshPeer {
            last_punch: now,
            punch_attempts: if peer.punch_attempts == u32::MAX {
                0
            } else {
                (peer.punch_attempts + 1) as u32
            },
            ..peer
        }
    } else if beat_due(peer, now) {
        MeshPeer { last_punch: now, ..peer }
    } else {
        peer
    }
}

/// The guess that a peer's port has moved by `offset`: a punch there, unless that is port 0.
/// Ports are counted around, from the last to the first.
pub open spec fn guess(c: MeshClientView, ip: Ipv4Addr, port: u16, offset: int) -> Seq<
    ClientActionView,
> {
    let moved = (port + offset) % 0x1_0000;
    if moved == 0 {
        Seq::empty()
    } else {
        seq![
            ClientActionView::Send {
                to: SocketAddr::V4 { ip, port: moved as u16 },
                packet: PacketView::Punch { vip: ip_text(c.my_ip) },
            },
        ]
    }
}

/// A round of punches: one at the address that is known and, on IPv4, four at the ports next
/// to it, nearest first.
pub open spec fn mesh_round(c: MeshClientView, peer: MeshPeer) -> Seq<ClientActionView> {
    let straight = seq![
        ClientActionView::Send {
            to: peer.real_addr,
            packet: PacketView::Punch { vip: ip_text(c.my_ip) },
        },
    ];
    match peer.real_addr {
        SocketAddr::V4 { ip, port } => straight + guess(c, ip, port, -1) + guess(c, ip, port, 1)
            + guess(c, ip, port, -2) + guess(c, ip, port, 2),
        SocketAddr::V6 { .. } => straight,
    }
}

/// What the passing of time makes the client send to a peer.
pub open spec fn peer_actions(c: MeshClientView, peer: MeshPeer, now: u64, wall_millis: u64) -> Seq<
    ClientActionView,
> {
    if punch_due(peer, now) {
        mesh_round(c, peer)
    } else if beat_due(peer, now) {
        seq![ClientActionView::Send { to: peer.real_addr, packet: PacketView::Ping(wall_millis) }]
    } else {
        Seq::empty()
    }
}

/// What is sent to the first `n` peers.
pub open spec fn actions_for(c: MeshClientView, n: int, now: u64, wall_millis: u64) -> Seq<
    ClientActionView,
>
    decreases n,
{
    if n <= 0 {
        Seq::empty()
    } else {
        actions_for(c, n - 1, now, wall_millis) + peer_actions(
            c,
            c.peers[n - 1].1,
            now,
            wall_millis,
        )
    }
}

/// What the passing of time makes the client do: a heartbeat to the server, and to every peer
/// what it is due for.
pub open spec fn mesh_tick(c: MeshClientView, now: u64, wall_millis: u64) -> (
    MeshClientView,
    Seq<ClientActionView>,
) {
    (
        MeshClientView {
            peers: c.peers.map_values(
                |e: (Ipv4Addr, MeshPeer)| (e.0, peer_after(e.1, now)),
            ),
            ..c
        },
        seq![
            ClientActionView::Send {
                to: c.server_addr,
                packet: PacketView::Ping(wall_millis),
            },
        ] + actions_for(c, c.peers.len() as int, now, wall_millis),
    )
}

/// When a peer was last sent something; `now` for one that was not known.
pub open spec fn last_punch_of(peers: Seq<(Ipv4Addr, MeshPeer)>, vip: Ipv4Addr, now: u64) -> u64 {
    match lookup(peers, vip) {
        Some(peer) => peer.last_punch,
        None => now,
    }
}

/// What a packet that came from `src` does to the client, and what it makes it do.
pub open spec fn mesh_step(
    c: MeshClientView,
    src: SocketAddr,
    packet: PacketView,
    now: u64,
    wall_millis: u64,
) -> (MeshClientView, Seq<ClientActionView>) {
    match packet {
        PacketView::Data(data) => (c, seq![ClientActionView::WriteTun { data }]),
        PacketView::PeerInfo { peer_vip, peer_addr } => match (spec_parse_ip(peer_vip), peer_addr) {
            (Some(vip), Some(addr)) => (
                MeshClientView {
                    peers: put(
                        c.peers,
                        vip,
                        MeshPeer {
                            real_addr: addr,
                            is_p2p: false,
                            last_punch: last_punch_of(c.peers, vip, now),
                            punch_attempts: 0,
                        },
                    ),
                    ..c
                },
                Seq::empty(),
            ),
            _ => (c, Seq::empty()),
        },
        PacketView::Punch { vip } => match spec_parse_ip(vip) {
            Some(ip) => (
                MeshClientView {
                    peers: put(
                        c.peers,
                        ip,
                        MeshPeer {
                            real_addr: src,
                            is_p2p: true,
                            last_punch: last_punch_of(c.peers, ip, now),
                            punch_attempts: 0,
                        },
                    ),
                    ..c
                },
                Seq::empty(),
            ),
            None => (c, Seq::empty()),
        },
        PacketView::Ping(ts) => (
            c,
            seq![ClientActionView::Send { to: src, packet: PacketView::Pong(ts) }],
        ),
        PacketView::Pong(ts) => (
            c,
            seq![
                ClientActionView::ReportLatency {
                    via_server: src == c.server_addr,
                    millis: if wall_millis > ts {
                        (wall_millis - ts) as u64
                    } else {
                        0
                    },
                },
            ],
        ),
        _ => (c, Seq::empty()),
    }
}

/// Where an IP packet goes: to the peer that holds its destination where it is reached
/// directly, else to the server.
pub open spec fn mesh_route(c: MeshClientView, data: Seq<u8>) -> SocketAddr {
    match dest_ip(data) {
        Some(dst) => match lookup(c.peers, dst) {
            Some(peer) => if peer.is_p2p {
                peer.real_addr
            } else {
                c.server_addr
            },
            None => c.server_addr,
        },
        None => c.server_addr,
    }
}

impl MeshClient {
    /// No address stands twice among the peers.
    pub open spec fn wf(&self) -> bool {
        keys_unique(self@.peers)
    }

    /// A client that was given the address `my_ip` by the server at `server_addr`.
    pub fn new(server_addr: SocketAddr, my_ip: Ipv4Addr) -> (r: MeshClient)
        ensures
            r.wf(),
            r@ == (MeshClientView { server_addr, my_ip, peers: Seq::empty() }),
    {
        MeshClient { server_addr, my_ip, peers: Table::new() }
    }

    /// A punch from this client.
    fn punch(&self) -> (packet: Packet)
        ensures
            packet@ == (PacketView::Punch { vip: ip_text(self@.my_ip) }),
    {
        Packet::Punch { vip: ip_string(self.my_ip) }
    }

    fn push_guess(&self, ip: Ipv4Addr, port: u16, offset: i32, actions: &mut Vec<ClientAction>)
        requires
            -0x1_0000 <= offset <= 0x1_0000,
        ensures
            client_actions_view(final(actions)@) == client_actions_view(old(actions)@) + guess(
                self@,
                ip,
                port,
                offset as int,
            ),
    {
        let ghost before = client_actions_view(actions@);
        let around: i32 = port as i32 + offset + 0x1_0000;
        let moved: u16 = (around % 0x1_0000) as u16;
        assert((port + offset) % 0x1_0000 == moved);
        if moved > 0 {
            actions.push(
                ClientAction::Send { to: SocketAddr::V4 { ip, port: moved }, packet: self.punch() },
            );
        }
        assert(client_actions_view(actions@) =~= before + guess(self@, ip, port, offset as int));
    }

    fn push_peer_actions(
        &self,
        peer: &MeshPeer,
        now: u64,
        wall_millis: u64,
        actions: &mut Vec<ClientAction>,
    )
        ensures
            client_actions_view(final(actions)@) == client_actions_view(old(actions)@)
                + peer_actions(self@, *peer, now, wall_millis),
    {
        let ghost before = client_actions_view(actions@);
        if !peer.is_p2p {
            if elapsed_millis(now, peer.last_punch) >= MESH_PUNCH_MILLIS {
                actions.push(ClientAction::Send { to: peer.real_addr, packet: self.punch() });
                if let SocketAddr::V4 { ip, port } = peer.real_addr {
                    self.push_guess(ip, port, -1, actions);
                    self.push_guess(ip, port, 1, actions);
                    self.push_guess(ip, port, -2, actions);
                    self.push_guess(ip, port, 2, actions);
                }
            }
        } else if elapsed_secs(now, peer.last_punch) >= MESH_BEAT_SECS {
            actions.push(
                ClientAction::Send { to: peer.real_addr, packet: Packet::Ping(wall_millis) },
            );
        }
        assert(client_actions_view(actions@) =~= before + peer_actions(
            self@,
            *peer,
            now,
            wall_millis,
        ));
    }

    /// Lets time pass until `now`, which the clock on the wall gives in milliseconds as
    /// `wall_millis`, and says what is to be done.
    pub fn tick(&mut self, now: u64, wall_millis: u64) -> (r: Vec<ClientAction>)
        requires
            old(self).wf(),
        ensures
            final(self).wf(),
            (final(self)@, client_actions_view(r@)) == mesh_tick(old(self)@, now, wall_millis),
    {
        let ghost start = self@;
        let ghost first = seq![
            ClientActionView::Send { to: start.server_addr, packet: PacketView::Ping(wall_millis) },
        ];
        let mut actions: Vec<ClientAction> = Vec::new();
        actions.push(
            ClientAction::Send { to: self.server_addr, packet: Packet::Ping(wall_millis) },
        );
        let mut i: usize = 0;
        assert(client_actions_view(actions@) =~= first + actions_for(start, 0, now, wall_millis));
        while i < self.peers.len()
            invariant
                self.wf(),
                i <= start.peers.len(),
                self@.server_addr == start.server_addr,
                self@.my_ip == start.my_ip,
                self@.peers == self.peers@,
                self.peers@.len() == start.peers.len(),
                forall|j: int|
                    0 <= j < i ==> #[trigger] self.peers@[j] == (
                        start.peers[j].0,
                        peer_after(start.peers[j].1, now),
                    ),
                forall|j: int|
                    i <= j < start.peers.len() ==> #[trigger] self.peers@[j] == start.peers[j],
                client_actions_view(actions@) == first + actions_for(
                    start,
                    i as int,
                    now,
                    wall_millis,
                ),
            decreases start.peers.len() - i,
        {
            let ghost sent = client_actions_view(actions@);
            let mut peer: MeshPeer = *self.peers.value_at(i);
            let ghost before = peer;
            self.push_peer_actions(&peer, now, wall_millis, &mut actions);
            assert(peer_actions(self@, peer, now, wall_millis) == peer_actions(
                start,
                start.peers[i as int].1,
                now,
                wall_millis,
            ));
            assert(client_actions_view(actions@) =~= first + actions_for(
                start,
                i + 1,
                now,
                wall_millis,
            ));
            if !peer.is_p2p {
                if elapsed_millis(now, peer.last_punch) >= MESH_PUNCH_MILLIS {
                    peer.last_punch = now;
                    peer.punch_attempts = peer.punch_attempts.wrapping_add(1);
                }
            } else if elapsed_secs(now, peer.last_punch) >= MESH_BEAT_SECS {
                peer.last_punch = now;
            }
            assert(peer == peer_after(before, now));
            self.peers.set_value_at(i, peer);
            i = i + 1;
        }
        assert(self.peers@ =~= mesh_tick(start, now, wall_millis).0.peers);
        actions
    }

    /// When a peer was last sent something; `now` for one that was not known.
    fn last_punch(&self, vip: &Ipv4Addr, now: u64) -> (r: u64)
        requires
            self.wf(),
        ensures
            r == last_punch_of(self@.peers, *vip, now),
    {
        match self.peers.get(vip) {
            Some(peer) => peer.last_punch,
            None => now,
        }
    }

    /// Takes a packet that came from `src` at `now`, and says what is to be done.
    pub fn handle_packet(
        &mut self,
        src: SocketAddr,
        packet: Packet,
        now: u64,
        wall_millis: u64,
    ) -> (r: Vec<ClientAction>)
        requires
            old(self).wf(),
        ensures
            final(self).wf(),
            (final(self)@, client_actions_view(r@)) == mesh_step(
                old(self)@,
                src,
                packet@,
                now,
                wall_millis,
            ),
    {
        let ghost expected = mesh_step(self@, src, packet@, now, wall_millis).1;
        let mut actions: Vec<ClientAction> = Vec::new();
        match packet {
            Packet::Data(data) => {
                actions.push(ClientAction::WriteTun { data });
            },
            Packet::PeerInfo { peer_vip, peer_addr } => {
                match (parse_ip(peer_vip.as_str()), peer_addr) {
                    (Some(vip), Some(addr)) => {
                        let last_punch: u64 = self.last_punch(&vip, now);
                        self.peers.insert(
                            vip,
                            MeshPeer {
                                real_addr: addr,
                                is_p2p: false,
                                last_punch,
                                punch_attempts: 0,
                            },
                        );
                    },
                    _ => {},
                }
            },
            Packet::Punch { vip } => {
                if let Some(ip) = parse_ip(vip.as_str()) {
                    let last_punch: u64 = self.last_punch(&ip, now);
                    self.peers.insert(
                        ip,
                        MeshPeer { real_addr: src, is_p2p: true, last_punch, punch_attempts: 0 },
                    );
                }
            },
            Packet::Ping(ts) => {
                actions.push(ClientAction::Send { to: src, packet: Packet::Pong(ts) });
            },
            Packet::Pong(ts) => {
                let millis: u64 = if wall_millis > ts {
                    wall_millis - ts
                } else {
                    0
                };
                actions.push(
                    ClientAction::ReportLatency { via_server: src == self.server_addr, millis },
                );
            },
            _ => {},
        }
        assert(client_actions_view(actions@) =~= expected);
        actions
    }

    /// Takes an IP packet that the client's network device hands out.
    pub fn handle_tun(&self, data: Vec<u8>) -> (r: ClientAction)
        requires
            self.wf(),
        ensures
            r@ == (ClientActionView::Send {
                to: mesh_route(self@, data@),
                packet: PacketView::Data(data@),
            }),
            r@ matches ClientActionView::Send { to, .. } && (match dest_ip(data@) {
                Some(dst) => match lookup(self@.peers, dst) {
                    Some(peer) => (peer.is_p2p ==> to == peer.real_addr) && (!peer.is_p2p ==> to
                        == self@.server_addr),
                    None => to == self@.server_addr,
                },
                None => to == self@.server_addr,
            }),
    {
        let to: SocketAddr = match get_dest_ip(data.as_slice()) {
            Some(dst) => match self.peers.get(&dst) {
                Some(peer) => if peer.is_p2p {
                    peer.real_addr
                } else {
                    self.server_addr
                },
                None => self.server_addr,
            },
            None => self.server_addr,
        };
        ClientAction::Send { to, packet: Packet::Data(data) }
    }
}

/// From a punch on, IP packets for that peer go to where the punch came from.
pub proof fn law_mesh_direct_after_punch(
    c: MeshClientView,
    src: SocketAddr,
    vip: Ipv4Addr,
    now: u64,
    wall_millis: u64,
    data: Seq<u8>,
)
    requires
        keys_unique(c.peers),
        dest_ip(data) == Some(vip),
    ensures
        mesh_route(
            mesh_step(c, src, PacketView::Punch { vip: ip_text(vip) }, now, wall_millis).0,
            data,
        ) == src,
{
    law_ip_text_roundtrip(vip);
    lemma_put(
        c.peers,
        vip,
        MeshPeer {
            real_addr: src,
            is_p2p: true,
            last_punch: last_punch_of(c.peers, vip, now),
            punch_attempts: 0,
        },
        vip,
    );
}

/// When the server tells of a peer anew, IP packets for it go through the server again.
pub proof fn law_mesh_relayed_after_peer_info(
    c: MeshClientView,
    src: SocketAddr,
    vip: Ipv4Addr,
    addr: SocketAddr,
    now: u64,
    wall_millis: u64,
    data: Seq<u8>,
)
    requires
        keys_unique(c.peers),
        dest_ip(data) == Some(vip),
    ensures
        mesh_route(
            mesh_step(
                c,
                src,
                PacketView::PeerInfo { peer_vip: ip_text(vip), peer_addr: Some(addr) },
                now,
                wall_millis,
            ).0,
            data,
        ) == c.server_addr,
{
    law_ip_text_roundtrip(vip);
    lemma_put(
        c.peers,
        vip,
        MeshPeer {
            real_addr: addr,
            is_p2p: false,
            last_punch: last_punch_of(c.peers, vip, now),
            punch_attempts: 0,
        },
        vip,
    );
}

/// A packet about one peer leaves the others as they are.
pub proof fn law_mesh_peers_independent(
    c: MeshClientView,
    src: SocketAddr,
    packet: PacketView,
    now: u64,
    wall_millis: u64,
    other: Ipv4Addr,
)
    requires
        keys_unique(c.peers),
        packet matches PacketView::PeerInfo { peer_vip, .. } ==> spec_parse_ip(peer_vip) != Some(
            other,
        ),
        packet matches PacketView::Punch { vip } ==> spec_parse_ip(vip) != Some(other),
    ensures
        lookup(mesh_step(c, src, packet, now, wall_millis).0.peers, other) == lookup(
            c.peers,
            other,
        ),
{
    match packet {
        PacketView::PeerInfo { peer_vip, peer_addr } => {
            match (spec_parse_ip(peer_vip), peer_addr) {
                (Some(vip), Some(addr)) => {
                    lemma_put(
                        c.peers,
                        vip,
                        MeshPeer {
                            real_addr: addr,
                            is_p2p: false,
                            last_punch: last_punch_of(c.peers, vip, now),
                            punch_attempts: 0,
                        },
                        other,
                    );
                },
                _ => {},
            }
        },
        PacketView::Punch { vip } => {
            if let Some(ip) = spec_parse_ip(vip) {
                lemma_put(
                    c.peers,
                    ip,
                    MeshPeer {
                        real_addr: src,
                        is_p2p: true,
                        last_punch: last_punch_of(c.peers, ip, now),
                        punch_attempts: 0,
                    },
                    other,
                );
            }
        },
        _ => {},
    }
}

/// Time alone does not change where IP packets go.
pub proof fn law_mesh_time_keeps_routes(
    c: MeshClientView,
    now: u64,
    wall_millis: u64,
    data: Seq<u8>,
)
    requires
        keys_unique(c.peers),
    ensures
        mesh_route(mesh_tick(c, now, wall_millis).0, data) == mesh_route(c, data),
{
    let after = mesh_tick(c, now, wall_millis).0;
    if let Some(dst) = dest_ip(data) {
        assert forall|i: int, j: int| 0 <= i < j < after.peers.len() implies (
        #[trigger] after.peers[i]).0 != (#[trigger] after.peers[j]).0 by {
            assert(c.peers[i].0 != c.peers[j].0);
        }
        if has_key(c.peers, dst) {
            let i = place_of(c.peers, dst);
            assert(is_at(c.peers, dst, i));
            assert(is_at(after.peers, dst, i));
            lemma_place(after.peers, dst, i);
        } else if has_key(after.peers, dst) {
            let i = place_of(after.peers, dst);
            assert(is_at(after.peers, dst, i));
            assert(is_at(c.peers, dst, i));
        }
    }
}

/// An IP packet goes directly to the peer that has its destination where that peer is reached
/// directly, and to the server in every other case.
pub proof fn law_mesh_route(c: MeshClientView, data: Seq<u8>)
    ensures
        match dest_ip(data) {
            Some(dst) => match lookup(c.peers, dst) {
                Some(peer) => (peer.is_p2p ==> mesh_route(c, data) == peer.real_addr) && (
                !peer.is_p2p ==> mesh_route(c, data) == c.server_addr),
                None => mesh_route(c, data) == c.server_addr,
            },
            None => mesh_route(c, data) == c.server_addr,
        },
{
}

/// A peer that is not reached is punched every half second, and one that is reached gets a
/// heartbeat every two seconds.
pub proof fn law_mesh_periods()
    ensures
        MESH_PUNCH_MILLIS == 500,
        MESH_BEAT_SECS == 2,
{
}

proof fn lemma_actions_for_has(c: MeshClientView, n: int, i: int, now: u64, wall_millis: u64, k: int)
    requires
        0 <= i < n <= c.peers.len(),
        0 <= k < peer_actions(c, c.peers[i].1, now, wall_millis).len(),
    ensures
        actions_for(c, n, now, wall_millis).contains(
            peer_actions(c, c.peers[i].1, now, wall_millis)[k],
        ),
    decreases n,
{
    let wanted = peer_actions(c, c.peers[i].1, now, wall_millis)[k];
    let earlier = actions_for(c, n - 1, now, wall_millis);
    let last = peer_actions(c, c.peers[n - 1].1, now, wall_millis);
    if i == n - 1 {
        assert((earlier + last)[earlier.len() + k] == wanted);
    } else {
        lemma_actions_for_has(c, n - 1, i, now, wall_millis, k);
        let j = choose|j: int| 0 <= j < earlier.len() && earlier[j] == wanted;
        assert((earlier + last)[j] == wanted);
    }
}

proof fn lemma_tick_has(c: MeshClientView, i: int, now: u64, wall_millis: u64, k: int)
    requires
        0 <= i < c.peers.len(),
        0 <= k < peer_actions(c, c.peers[i].1, now, wall_millis).len(),
    ensures
        mesh_tick(c, now, wall_millis).1.contains(
            peer_actions(c, c.peers[i].1, now, wall_millis)[k],
        ),
{
    let wanted = peer_actions(c, c.peers[i].1, now, wall_millis)[k];
    let all = actions_for(c, c.peers.len() as int, now, wall_millis);
    lemma_actions_for_has(c, c.peers.len() as int, i, now, wall_millis, k);
    let j = choose|j: int| 0 <= j < all.len() && all[j] == wanted;
    assert(mesh_tick(c, now, wall_millis).1[j + 1] == wanted);
}

/// The punch that `c` sends to `to`.
pub open spec fn punch_to(c: MeshClientView, to: SocketAddr) -> ClientActionView {
    ClientActionView::Send { to, packet: PacketView::Punch { vip: ip_text(c.my_ip) } }
}

/// Whenever half a second has passed since a peer that is not reached was last sent something, it
/// is punched at where it is known to be, however often that was in vain before; and it is counted
/// from then on.
pub proof fn law_mesh_peer_is_punched_until_reached(
    c: MeshClientView,
    now: u64,
    wall_millis: u64,
    i: int,
)
    requires
        0 <= i < c.peers.len(),
        !c.peers[i].1.is_p2p,
        spec_elapsed_millis(now, c.peers[i].1.last_punch) >= MESH_PUNCH_MILLIS,
    ensures
        ({
            let (after, actions) = mesh_tick(c, now, wall_millis);
            let peer = c.peers[i].1;
            &&& actions.contains(
                ClientActionView::Send {
                    to: peer.real_addr,
                    packet: PacketView::Punch { vip: ip_text(c.my_ip) },
                },
            )
            &&& after.peers[i].1.last_punch == now
            &&& peer.punch_attempts < u32::MAX ==> after.peers[i].1.punch_attempts
                == peer.punch_attempts + 1
            &&& peer.punch_attempts == u32::MAX ==> after.peers[i].1.punch_attempts == 0
        }),
{
    let peer = c.peers[i].1;
    assert(mesh_round(c, peer)[0] == punch_to(c, peer.real_addr));
    lemma_tick_has(c, i, now, wall_millis, 0);
}

/// On IPv4 the four ports next to the one that is known are punched in the same round, each where
/// there is such a port. Ports are counted around: after the last one comes 0, which is left out.
pub proof fn law_mesh_nearby_ports_are_guessed(
    c: MeshClientView,
    now: u64,
    wall_millis: u64,
    i: int,
    ip: Ipv4Addr,
    port: u16,
    guessed: u16,
)
    requires
        0 <= i < c.peers.len(),
        !c.peers[i].1.is_p2p,
        spec_elapsed_millis(now, c.peers[i].1.last_punch) >= MESH_PUNCH_MILLIS,
        c.peers[i].1.real_addr == (SocketAddr::V4 { ip, port }),
        guessed > 0,
        guessed - port == 1 || guessed - port == -1 || guessed - port == 2 || guessed - port == -2
            || guessed - port == 1 - 0x1_0000 || guessed - port == 0x1_0000 - 1 || guessed - port
            == 2 - 0x1_0000 || guessed - port == 0x1_0000 - 2,
    ensures
        mesh_tick(c, now, wall_millis).1.contains(
            ClientActionView::Send {
                to: SocketAddr::V4 { ip, port: guessed },
                packet: PacketView::Punch { vip: ip_text(c.my_ip) },
            },
        ),
{
    let peer = c.peers[i].1;
    let round = mesh_round(c, peer);
    let g1 = guess(c, ip, port, -1);
    let g2 = guess(c, ip, port, 1);
    let g3 = guess(c, ip, port, -2);
    let g4 = guess(c, ip, port, 2);
    let wanted = punch_to(c, SocketAddr::V4 { ip, port: guessed });
    let k: int = if (port - 1) % 0x1_0000 == guessed {
        assert(g1[0] == wanted);
        1
    } else if (port + 1) % 0x1_0000 == guessed {
        assert(g2[0] == wanted);
        (1 + g1.len()) as int
    } else if (port - 2) % 0x1_0000 == guessed {
        assert(g3[0] == wanted);
        (1 + g1.len() + g2.len()) as int
    } else {
        assert((port + 2) % 0x1_0000 == guessed);
        assert(g4[0] == wanted);
        (1 + g1.len() + g2.len() + g3.len()) as int
    };
    assert(round[k] == wanted);
    lemma_tick_has(c, i, now, wall_millis, k);
}

/// A peer that is reached gets a heartbeat whenever two seconds have passed since it was last sent
/// something, and no punch.
pub proof fn law_mesh_reached_peer_is_kept(
    c: MeshClientView,
    now: u64,
    wall_millis: u64,
    i: int,
)
    requires
        0 <= i < c.peers.len(),
        c.peers[i].1.is_p2p,
        spec_elapsed_secs(now, c.peers[i].1.last_punch) >= MESH_BEAT_SECS,
    ensures
        ({
            let (after, actions) = mesh_tick(c, now, wall_millis);
            &&& actions.contains(
                ClientActionView::Send {
                    to: c.peers[i].1.real_addr,
                    packet: PacketView::Ping(wall_millis),
                },
            )
            &&& after.peers[i].1.last_punch == now
            &&& after.peers[i].1.punch_attempts == c.peers[i].1.punch_attempts
        }),
{
    lemma_tick_has(c, i, now, wall_millis, 0);
}

/// As time passes, the server always gets a heartbeat first. No peer is lost or moved, reached or
/// given up by time alone, and one that is not due yet stays as it is.
pub proof fn law_mesh_time_changes_little(
    c: MeshClientView,
    now: u64,
    wall_millis: u64,
    i: int,
)
    ensures
        ({
            let (after, actions) = mesh_tick(c, now, wall_millis);
            &&& after.server_addr == c.server_addr
            &&& after.my_ip == c.my_ip
            &&& after.peers.len() == c.peers.len()
            &&& actions.len() > 0
            &&& actions[0] == (ClientActionView::Send {
                to: c.server_addr,
                packet: PacketView::Ping(wall_millis),
            })
            &&& 0 <= i < c.peers.len() ==> {
                let before = c.peers[i].1;
                &&& after.peers[i].0 == c.peers[i].0
                &&& after.peers[i].1.real_addr == before.real_addr
                &&& after.peers[i].1.is_p2p == before.is_p2p
                &&& !before.is_p2p && spec_elapsed_millis(now, before.last_punch)
                    < MESH_PUNCH_MILLIS ==> after.peers[i].1 == before
                &&& before.is_p2p && spec_elapsed_secs(now, before.last_punch) < MESH_BEAT_SECS
                    ==> after.peers[i].1 == before
            }
        }),
{
}

/// Whether `action` is one that time makes a client send to a peer: a heartbeat to one that is
/// reached and due, or a punch at one that is not reached and due, at its host or, on IPv6, at
/// exactly where it is known to be.
pub open spec fn is_due_for(
    c: MeshClientView,
    peer: MeshPeer,
    action: ClientActionView,
    now: u64,
    wall_millis: u64,
) -> bool {
    &&& action matches ClientActionView::Send { to, packet }
    &&& if peer.is_p2p {
        &&& spec_elapsed_secs(now, peer.last_punch) >= MESH_BEAT_SECS
        &&& to == peer.real_addr
        &&& packet == PacketView::Ping(wall_millis)
    } else {
        &&& spec_elapsed_millis(now, peer.last_punch) >= MESH_PUNCH_MILLIS
        &&& packet == (PacketView::Punch { vip: ip_text(c.my_ip) })
        &&& match peer.real_addr {
            SocketAddr::V4 { ip, port } => {
                &&& to matches SocketAddr::V4 { ip: host, port: at }
                &&& host == ip
                &&& at == port || at > 0
                &&& exists|d: int| -2 <= d <= 2 && at == #[trigger] wrapped(port, d)
            },
            SocketAddr::V6 { .. } => to == peer.real_addr,
        }
    }
}

/// The port `d` after `port`, counted around.
pub open spec fn wrapped(port: u16, d: int) -> int {
    (port + d) % 0x1_0000
}

proof fn lemma_peer_actions_due(c: MeshClientView, peer: MeshPeer, now: u64, wall_millis: u64, k: int)
    requires
        0 <= k < peer_actions(c, peer, now, wall_millis).len(),
    ensures
        is_due_for(c, peer, peer_actions(c, peer, now, wall_millis)[k], now, wall_millis),
{
    if !peer.is_p2p {
        if let SocketAddr::V4 { ip, port } = peer.real_addr {
            assert(wrapped(port, 0) == port);
            assert(wrapped(port, -1) == (port - 1) % 0x1_0000);
            assert(wrapped(port, 1) == (port + 1) % 0x1_0000);
            assert(wrapped(port, -2) == (port - 2) % 0x1_0000);
            assert(wrapped(port, 2) == (port + 2) % 0x1_0000);
            let g1 = guess(c, ip, port, -1);
            let g2 = guess(c, ip, port, 1);
            let g3 = guess(c, ip, port, -2);
            let g4 = guess(c, ip, port, 2);
            let a = peer_actions(c, peer, now, wall_millis)[k];
            assert(a == punch_to(c, peer.real_addr) || g1.contains(a) || g2.contains(a)
                || g3.contains(a) || g4.contains(a)) by {
                if k == 0 {
                } else if k < 1 + g1.len() {
                    assert(a == g1[k - 1]);
                } else if k < 1 + g1.len() + g2.len() {
                    assert(a == g2[k - 1 - g1.len()]);
                } else if k < 1 + g1.len() + g2.len() + g3.len() {
                    assert(a == g3[k - 1 - g1.len() - g2.len()]);
                } else {
                    assert(a == g4[k - 1 - g1.len() - g2.len() - g3.len()]);
                }
            }
        }
    }
}

proof fn lemma_actions_for_due(c: MeshClientView, n: int, now: u64, wall_millis: u64, k: int)
    requires
        0 <= n <= c.peers.len(),
        0 <= k < actions_for(c, n, now, wall_millis).len(),
    ensures
        exists|i: int|
            0 <= i < n && is_due_for(
                c,
                (#[trigger] c.peers[i]).1,
                actions_for(c, n, now, wall_millis)[k],
                now,
                wall_millis,
            ),
    decreases n,
{
    if n > 0 {
        let earlier = actions_for(c, n - 1, now, wall_millis);
        let last = peer_actions(c, c.peers[n - 1].1, now, wall_millis);
        if k < earlier.len() {
            lemma_actions_for_due(c, n - 1, now, wall_millis, k);
            assert((earlier + last)[k] == earlier[k]);
        } else {
            lemma_peer_actions_due(c, c.peers[n - 1].1, now, wall_millis, k - earlier.len());
            assert((earlier + last)[k] == last[k - earlier.len()]);
        }
    }
}

proof fn lemma_actions_for_len(c: MeshClientView, n: int, now: u64, wall_millis: u64)
    requires
        0 <= n <= c.peers.len(),
    ensures
        actions_for(c, n, now, wall_millis).len() <= 5 * n,
    decreases n,
{
    if n > 0 {
        lemma_actions_for_len(c, n - 1, now, wall_millis);
    }
}

/// At most five packets go to a peer at a time, beside the one to the server.
pub proof fn law_mesh_rounds_are_small(c: MeshClientView, now: u64, wall_millis: u64)
    ensures
        mesh_tick(c, now, wall_millis).1.len() <= 1 + 5 * c.peers.len(),
{
    lemma_actions_for_len(c, c.peers.len() as int, now, wall_millis);
}

/// Beside the heartbeat to the server, time makes the client send nothing but what some peer is due
/// for.
pub proof fn law_mesh_nothing_else_is_sent(c: MeshClientView, now: u64, wall_millis: u64, k: int)
    requires
        1 <= k < mesh_tick(c, now, wall_millis).1.len(),
    ensures
        exists|i: int|
            0 <= i < c.peers.len() && is_due_for(
                c,
                (#[trigger] c.peers[i]).1,
                mesh_tick(c, now, wall_millis).1[k],
                now,
                wall_millis,
            ),
{
    let all = actions_for(c, c.peers.len() as int, now, wall_millis);
    assert(mesh_tick(c, now, wall_millis).1[k] == all[k - 1]);
    lemma_actions_for_due(c, c.peers.len() as int, now, wall_millis, k - 1);
}

/// What is told of a peer, by the server or by its own punch, is kept under its address: where it
/// is, and whether it is reached. When it was last sent something stays as it was, or begins now
/// for a peer that is new. Nothing is sent.
pub proof fn law_mesh_peer_is_recorded(
    c: MeshClientView,
    src: SocketAddr,
    vip: Ipv4Addr,
    addr: SocketAddr,
    now: u64,
    wall_millis: u64,
)
    requires
        keys_unique(c.peers),
    ensures
        ({
            let info = PacketView::PeerInfo { peer_vip: ip_text(vip), peer_addr: Some(addr) };
            let punch = PacketView::Punch { vip: ip_text(vip) };
            let (told, quiet) = mesh_step(c, src, info, now, wall_millis);
            let (punched, silent) = mesh_step(c, src, punch, now, wall_millis);
            &&& quiet.len() == 0
            &&& silent.len() == 0
            &&& lookup(told.peers, vip) matches Some(announced)
            &&& announced.real_addr == addr
            &&& !announced.is_p2p
            &&& announced.punch_attempts == 0
            &&& lookup(punched.peers, vip) matches Some(reached)
            &&& reached.real_addr == src
            &&& reached.is_p2p
            &&& reached.punch_attempts == 0
            &&& match lookup(c.peers, vip) {
                Some(before) => announced.last_punch == before.last_punch && reached.last_punch
                    == before.last_punch,
                None => announced.last_punch == now && reached.last_punch == now,
            }
            &&& told.server_addr == c.server_addr
            &&& told.my_ip == c.my_ip
            &&& punched.server_addr == c.server_addr
            &&& punched.my_ip == c.my_ip
        }),
{
    law_ip_text_roundtrip(vip);
    let last_punch = match lookup(c.peers, vip) {
        Some(peer) => peer.last_punch,
        None => now,
    };
    lemma_put(
        c.peers,
        vip,
        MeshPeer { real_addr: addr, is_p2p: false, last_punch, punch_attempts: 0 },
        vip,
    );
    lemma_put(
        c.peers,
        vip,
        MeshPeer { real_addr: src, is_p2p: true, last_punch, punch_attempts: 0 },
        vip,
    );
}

/// What names no peer that can be read, or is no packet of a client's, does nothing; an IP packet
/// goes to the device, a heartbeat is answered to whoever sent it with what it held, and an answer
/// tells how long ago its heartbeat was sent. None of these changes the client.
pub proof fn law_mesh_packets(
    c: MeshClientView,
    src: SocketAddr,
    packet: PacketView,
    now: u64,
    wall_millis: u64,
)
    ensures
        ({
            let (after, actions) = mesh_step(c, src, packet, now, wall_millis);
            &&& !(packet is PeerInfo || packet is Punch) ==> after == c
            &&& packet matches PacketView::Data(data) ==> actions == seq![
                ClientActionView::WriteTun { data },
            ]
            &&& packet matches PacketView::Ping(ts) ==> actions == seq![
                ClientActionView::Send { to: src, packet: PacketView::Pong(ts) },
            ]
            &&& packet matches PacketView::Pong(ts) ==> {
                &&& actions.len() == 1
                &&& actions[0] matches ClientActionView::ReportLatency { via_server, millis }
                &&& via_server <==> src == c.server_addr
                &&& wall_millis >= ts ==> millis == wall_millis - ts
                &&& wall_millis < ts ==> millis == 0
            }
            &&& !(packet is Data || packet is Ping || packet is Pong) ==> actions.len() == 0
            &&& packet matches PacketView::PeerInfo { peer_vip, peer_addr } ==> (spec_parse_ip(
                peer_vip,
            ) is None || peer_addr is None ==> after == c)
            &&& packet matches PacketView::Punch { vip } ==> (spec_parse_ip(vip) is None ==> after
                == c)
        }),
{
}

} // verus!

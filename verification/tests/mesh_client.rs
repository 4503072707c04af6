use dend_p2p::addr::{Ipv4Addr, SocketAddr};
use dend_p2p::client::ClientAction;
use dend_p2p::mesh_client::MeshClient;
use dend_p2p::protocol::Packet;

const SEC: u64 = 1_000_000_000;
const MS: u64 = 1_000_000;

fn at(host: u8, port: u16) -> SocketAddr {
    SocketAddr::V4 { ip: Ipv4Addr { a: 1, b: 1, c: 1, d: host }, port }
}

fn server() -> SocketAddr {
    at(1, 9696)
}

fn mesh() -> MeshClient {
    MeshClient::new(server(), Ipv4Addr { a: 10, b: 10, c: 0, d: 2 })
}

fn peer_info(vip: &str, addr: SocketAddr) -> Packet {
    Packet::PeerInfo { peer_vip: vip.to_string(), peer_addr: Some(addr) }
}

fn punch(vip: &str) -> Packet {
    Packet::Punch { vip: vip.to_string() }
}

fn send(to: SocketAddr, packet: Packet) -> ClientAction {
    ClientAction::Send { to, packet }
}

fn same(got: &Vec<ClientAction>, want: Vec<ClientAction>) {
    assert_eq!(format!("{:?}", got), format!("{:?}", want));
}

fn data_for(d: u8) -> Vec<u8> {
    let mut data = vec![0u8; 20];
    data[16] = 10;
    data[17] = 10;
    data[19] = d;
    data
}

fn goes_to(c: &MeshClient, d: u8, to: SocketAddr) {
    let got = c.handle_tun(data_for(d));
    assert_eq!(format!("{:?}", got), format!("{:?}", send(to, Packet::Data(data_for(d)))));
}

#[test]
fn mesh_client_always_beats() {
    let mut c = mesh();
    same(&c.tick(0, 5), vec![send(server(), Packet::Ping(5))]);
    same(&c.tick(1, 6), vec![send(server(), Packet::Ping(6))]);
}

#[test]
fn ports_next_to_the_peer_are_guessed() {
    let mut c = mesh();
    same(&c.handle_packet(server(), peer_info("10.10.0.3", at(3, 600)), 0, 0), vec![]);
    same(&c.tick(500 * MS - 1, 0), vec![send(server(), Packet::Ping(0))]);
    same(
        &c.tick(500 * MS, 0),
        vec![
            send(server(), Packet::Ping(0)),
            send(at(3, 600), punch("10.10.0.2")),
            send(at(3, 599), punch("10.10.0.2")),
            send(at(3, 601), punch("10.10.0.2")),
            send(at(3, 598), punch("10.10.0.2")),
            send(at(3, 602), punch("10.10.0.2")),
        ],
    );
    same(&c.tick(900 * MS, 0), vec![send(server(), Packet::Ping(0))]);
    assert_eq!(c.tick(1000 * MS, 0).len(), 6);
}

#[test]
fn guesses_wrap_around_and_leave_out_port_zero() {
    let mut c = mesh();
    c.handle_packet(server(), peer_info("10.10.0.3", at(3, 1)), 0, 0);
    c.handle_packet(server(), peer_info("10.10.0.4", at(4, 65535)), 0, 0);
    same(
        &c.tick(SEC, 0),
        vec![
            send(server(), Packet::Ping(0)),
            send(at(3, 1), punch("10.10.0.2")),
            send(at(3, 2), punch("10.10.0.2")),
            send(at(3, 65535), punch("10.10.0.2")),
            send(at(3, 3), punch("10.10.0.2")),
            send(at(4, 65535), punch("10.10.0.2")),
            send(at(4, 65534), punch("10.10.0.2")),
            send(at(4, 65533), punch("10.10.0.2")),
            send(at(4, 1), punch("10.10.0.2")),
        ],
    );
}

#[test]
fn no_guesses_on_ipv6() {
    let mut c = mesh();
    let six = SocketAddr::V6 { bits: 1, port: 7, flowinfo: 0, scope_id: 0 };
    c.handle_packet(server(), peer_info("10.10.0.3", six), 0, 0);
    same(
        &c.tick(SEC, 0),
        vec![send(server(), Packet::Ping(0)), send(six, punch("10.10.0.2"))],
    );
}

#[test]
fn each_peer_has_its_own_route() {
    let mut c = mesh();
    c.handle_packet(server(), peer_info("10.10.0.3", at(3, 600)), 0, 0);
    c.handle_packet(server(), peer_info("10.10.0.4", at(4, 700)), 0, 0);
    goes_to(&c, 3, server());
    same(&c.handle_packet(at(3, 603), punch("10.10.0.3"), 0, 0), vec![]);
    goes_to(&c, 3, at(3, 603));
    goes_to(&c, 4, server());
    goes_to(&c, 9, server());
    // Time does not change the routes.
    c.tick(10 * SEC, 0);
    goes_to(&c, 3, at(3, 603));
    // Told of anew, the peer is reached through the server again.
    c.handle_packet(server(), peer_info("10.10.0.3", at(3, 650)), 0, 0);
    goes_to(&c, 3, server());
    let short = c.handle_tun(vec![1]);
    assert_eq!(format!("{:?}", short), format!("{:?}", send(server(), Packet::Data(vec![1]))));
}

#[test]
fn direct_peers_get_heartbeats() {
    let mut c = mesh();
    c.handle_packet(at(3, 603), punch("10.10.0.3"), 0, 0);
    same(&c.tick(2 * SEC - 1, 9), vec![send(server(), Packet::Ping(9))]);
    same(
        &c.tick(2 * SEC, 9),
        vec![send(server(), Packet::Ping(9)), send(at(3, 603), Packet::Ping(9))],
    );
    same(&c.tick(3 * SEC, 9), vec![send(server(), Packet::Ping(9))]);
}

#[test]
fn unreadable_peers_are_ignored() {
    let mut c = mesh();
    c.handle_packet(server(), peer_info("?", at(3, 600)), 0, 0);
    let nowhere = Packet::PeerInfo { peer_vip: "10.10.0.3".to_string(), peer_addr: None };
    c.handle_packet(server(), nowhere, 0, 0);
    c.handle_packet(at(3, 600), punch("?"), 0, 0);
    same(&c.tick(SEC, 0), vec![send(server(), Packet::Ping(0))]);
}

#[test]
fn mesh_packets_and_heartbeats() {
    let mut c = mesh();
    same(
        &c.handle_packet(at(3, 3), Packet::Data(vec![4]), 0, 0),
        vec![ClientAction::WriteTun { data: vec![4] }],
    );
    same(
        &c.handle_packet(at(3, 3), Packet::Ping(8), 0, 0),
        vec![send(at(3, 3), Packet::Pong(8))],
    );
    same(
        &c.handle_packet(server(), Packet::Pong(100), 0, 130),
        vec![ClientAction::ReportLatency { via_server: true, millis: 30 }],
    );
    same(
        &c.handle_packet(at(3, 3), Packet::Pong(100), 0, 90),
        vec![ClientAction::ReportLatency { via_server: false, millis: 0 }],
    );
    same(&c.handle_packet(server(), Packet::Keepalive, 0, 0), vec![]);
    same(&c.handle_packet(server(), Packet::DisconnectPeer, 0, 0), vec![]);
}

use dend_p2p::addr::{CidrError, Ipv4Addr, SocketAddr};
use dend_p2p::config::{Config, Mode};
use dend_p2p::protocol::Packet;
use dend_p2p::server::{
    get_session_key, send_connect_peer, Action, NatSession, Server, ServerError,
};

const SEC: u64 = 1_000_000_000;

fn ip(a: u8, b: u8, c: u8, d: u8) -> Ipv4Addr {
    Ipv4Addr { a, b, c, d }
}

fn at(host: u8, port: u16) -> SocketAddr {
    SocketAddr::V4 { ip: ip(1, 1, 1, host), port }
}

fn config(cidr: Option<&str>) -> Config {
    Config {
        mode: Mode::Server,
        server_addr: "0.0.0.0:9696".to_string(),
        token: "my-secret-token".to_string(),
        tun_name: Some("dend0".to_string()),
        cidr: cidr.map(|c| c.to_string()),
        webui: false,
    }
}

fn server() -> Server {
    Server::new(&config(Some("10.10.0.0/24"))).unwrap()
}

fn hello(id: &str) -> Packet {
    Packet::Handshake { token: "my-secret-token".to_string(), client_id: id.to_string() }
}

fn send(to: SocketAddr, packet: Packet) -> Action {
    Action::Send { to, packet }
}

fn ack(vip: &str) -> Packet {
    Packet::HandshakeAck { ip: vip.to_string(), cidr: "10.10.0.0/24".to_string() }
}

fn info(vip: &str, addr: SocketAddr) -> Packet {
    Packet::PeerInfo { peer_vip: vip.to_string(), peer_addr: Some(addr) }
}

fn data_for(d: u8) -> Vec<u8> {
    let mut data = vec![0u8; 20];
    data[16] = 10;
    data[17] = 10;
    data[19] = d;
    data
}

fn same(got: &Vec<Action>, want: Vec<Action>) {
    assert_eq!(format!("{:?}", got), format!("{:?}", want));
}

#[test]
fn server_takes_the_first_address() {
    assert_eq!(server().own_address(), ip(10, 10, 0, 1));
}

#[test]
fn server_needs_a_network() {
    assert_eq!(Server::new(&config(None)).unwrap_err(), ServerError::MissingCidr);
    assert_eq!(
        Server::new(&config(Some("10.10.0.0"))).unwrap_err(),
        ServerError::Cidr(CidrError::Format)
    );
    assert_eq!(
        Server::new(&config(Some("10.10.0/24"))).unwrap_err(),
        ServerError::Cidr(CidrError::Address)
    );
    assert_eq!(
        Server::new(&config(Some("10.10.0.0/x"))).unwrap_err(),
        ServerError::Cidr(CidrError::Prefix)
    );
}

#[test]
fn first_client_gets_the_second_address() {
    let mut s = server();
    same(&s.handle_packet(at(2, 500), hello("alice"), 0), vec![send(at(2, 500), ack("10.10.0.2"))]);
}

#[test]
fn clients_are_told_of_each_other() {
    let mut s = server();
    s.handle_packet(at(2, 500), hello("alice"), 0);
    same(
        &s.handle_packet(at(3, 600), hello("bob"), 0),
        vec![
            send(at(3, 600), ack("10.10.0.3")),
            send(at(2, 500), info("10.10.0.3", at(3, 600))),
            send(at(3, 600), info("10.10.0.2", at(2, 500))),
        ],
    );
    same(
        &s.handle_packet(at(4, 700), hello("carol"), 0),
        vec![
            send(at(4, 700), ack("10.10.0.4")),
            send(at(2, 500), info("10.10.0.4", at(4, 700))),
            send(at(3, 600), info("10.10.0.4", at(4, 700))),
            send(at(4, 700), info("10.10.0.2", at(2, 500))),
            send(at(4, 700), info("10.10.0.3", at(3, 600))),
        ],
    );
}

#[test]
fn wrong_token_is_not_answered() {
    let mut s = server();
    let wrong = Packet::Handshake { token: "other".to_string(), client_id: "alice".to_string() };
    same(&s.handle_packet(at(2, 500), wrong, 0), vec![]);
    assert!(s.online_devices().is_empty());
    same(&s.handle_packet(at(2, 500), hello("alice"), 0), vec![send(at(2, 500), ack("10.10.0.2"))]);
}

#[test]
fn client_that_comes_again_keeps_its_address() {
    let mut s = server();
    s.handle_packet(at(2, 500), hello("alice"), 0);
    same(
        &s.handle_packet(at(2, 500), hello("alice"), SEC),
        vec![send(at(2, 500), ack("10.10.0.2"))],
    );
    // From another port: the entry of the old one is still told of.
    same(
        &s.handle_packet(at(2, 501), hello("alice"), 2 * SEC),
        vec![
            send(at(2, 501), ack("10.10.0.2")),
            send(at(2, 501), info("10.10.0.2", at(2, 501))),
            send(at(2, 501), info("10.10.0.2", at(2, 500))),
        ],
    );
    same(&s.handle_tun(data_for(2)), vec![send(at(2, 501), Packet::Data(data_for(2)))]);
}

#[test]
fn pool_holds_252_clients() {
    let mut s = server();
    for n in 0..252u16 {
        let actions = s.handle_packet(at(2, 1000 + n), hello(&format!("client-{}", n)), 0);
        let first = format!("{:?}", actions[0]);
        let want = send(at(2, 1000 + n), ack(&format!("10.10.0.{}", n + 2)));
        assert_eq!(first, format!("{:?}", want));
    }
    same(&s.handle_packet(at(3, 1), hello("late"), 0), vec![]);
    assert_eq!(s.online_devices().len(), 252);
    // Who is known still gets in.
    let again = s.handle_packet(at(2, 1000), hello("client-0"), 0);
    assert_eq!(format!("{:?}", again[0]), format!("{:?}", send(at(2, 1000), ack("10.10.0.2"))));
}

#[test]
fn silent_clients_are_dropped_after_a_minute() {
    let mut s = server();
    s.handle_packet(at(2, 500), hello("alice"), 0);
    s.clean(60 * SEC - 1);
    assert_eq!(s.online_devices().len(), 1);
    s.clean(60 * SEC);
    assert_eq!(s.online_devices().len(), 0);
    // The address is free again.
    same(
        &s.handle_packet(at(3, 600), hello("bob"), 61 * SEC),
        vec![send(at(3, 600), ack("10.10.0.2"))],
    );
}

#[test]
fn heartbeat_is_answered_and_keeps_the_client() {
    let mut s = server();
    s.handle_packet(at(2, 500), hello("alice"), 0);
    same(
        &s.handle_packet(at(2, 500), Packet::Ping(77), 30 * SEC),
        vec![send(at(2, 500), Packet::Pong(77))],
    );
    s.clean(89 * SEC);
    assert_eq!(s.online_devices().len(), 1);
    s.clean(90 * SEC);
    assert_eq!(s.online_devices().len(), 0);
    // Strangers are answered too.
    same(
        &s.handle_packet(at(9, 9), Packet::Ping(5), 0),
        vec![send(at(9, 9), Packet::Pong(5))],
    );
}

#[test]
fn packets_are_relayed_by_destination() {
    let mut s = server();
    s.handle_packet(at(2, 500), hello("alice"), 0);
    s.handle_packet(at(3, 600), hello("bob"), 0);
    same(
        &s.handle_packet(at(2, 500), Packet::Data(data_for(3)), 0),
        vec![send(at(3, 600), Packet::Data(data_for(3)))],
    );
    same(
        &s.handle_packet(at(2, 500), Packet::Data(data_for(1)), 0),
        vec![Action::WriteTun { data: data_for(1) }],
    );
    same(&s.handle_packet(at(2, 500), Packet::Data(data_for(9)), 0), vec![]);
    same(&s.handle_packet(at(2, 500), Packet::Data(vec![0; 19]), 0), vec![]);
    same(&s.handle_tun(data_for(2)), vec![send(at(2, 500), Packet::Data(data_for(2)))]);
    // From its own device nothing goes back to it.
    same(&s.handle_tun(data_for(1)), vec![]);
    same(&s.handle_tun(vec![]), vec![]);
}

#[test]
fn session_is_opened_and_started_by_either_side() {
    for reporter in ["alice", "bob"] {
        let mut s = server();
        s.handle_packet(at(2, 500), hello("alice"), 0);
        s.handle_packet(at(3, 600), hello("bob"), 0);
        let request = Packet::RequestConnect {
            target_id: "bob".to_string(),
            password: "pw".to_string(),
        };
        same(
            &s.handle_packet(at(2, 500), request, 0),
            vec![
                send(at(2, 500), Packet::ChangePort { password: "pw".to_string() }),
                send(at(3, 600), Packet::ChangePort { password: "pw".to_string() }),
            ],
        );
        let ready = Packet::PortChanged { client_id: reporter.to_string() };
        same(
            &s.handle_packet(at(2, 500), ready, 0),
            vec![
                send(
                    at(2, 500),
                    Packet::ConnectPeer {
                        peer_vip: ip(10, 10, 0, 3),
                        peer_addr: ip(1, 1, 1, 3),
                        port: 600,
                        peer_id: "bob".to_string(),
                    },
                ),
                send(
                    at(3, 600),
                    Packet::ConnectPeer {
                        peer_vip: ip(10, 10, 0, 2),
                        peer_addr: ip(1, 1, 1, 2),
                        port: 500,
                        peer_id: "alice".to_string(),
                    },
                ),
            ],
        );
    }
}

#[test]
fn sides_of_a_session_are_told_the_same_either_way() {
    let told = |asker: SocketAddr, target: &str| {
        let mut s = server();
        s.handle_packet(at(2, 500), hello("alice"), 0);
        s.handle_packet(at(3, 600), hello("bob"), 0);
        let request = Packet::RequestConnect {
            target_id: target.to_string(),
            password: String::new(),
        };
        s.handle_packet(asker, request, 0);
        s.handle_packet(asker, Packet::PortChanged { client_id: "bob".to_string() }, 0)
    };
    let forth = told(at(2, 500), "bob");
    let mut back = told(at(3, 600), "alice");
    assert_eq!(back.len(), 2);
    back.reverse();
    same(&forth, back);
}

#[test]
fn session_needs_two_known_clients() {
    let mut s = server();
    s.handle_packet(at(2, 500), hello("alice"), 0);
    let request = |id: &str| Packet::RequestConnect {
        target_id: id.to_string(),
        password: String::new(),
    };
    same(&s.handle_packet(at(2, 500), request("bob"), 0), vec![]);
    same(&s.handle_packet(at(9, 9), request("alice"), 0), vec![]);
    let ready = Packet::PortChanged { client_id: "alice".to_string() };
    same(&s.handle_packet(at(2, 500), ready, 0), vec![]);
}

#[test]
fn client_without_a_name_opens_no_session() {
    let mut s = server();
    s.handle_packet(at(2, 500), hello(""), 0);
    s.handle_packet(at(3, 600), hello("bob"), 0);
    let request = Packet::RequestConnect { target_id: "bob".to_string(), password: String::new() };
    same(&s.handle_packet(at(2, 500), request, 0), vec![]);
}

#[test]
fn sessions_end_after_five_minutes() {
    let mut s = server();
    s.handle_packet(at(2, 500), hello("alice"), 0);
    s.handle_packet(at(3, 600), hello("bob"), 0);
    let request = Packet::RequestConnect { target_id: "bob".to_string(), password: String::new() };
    s.handle_packet(at(2, 500), request, 0);
    let ready = || Packet::PortChanged { client_id: "alice".to_string() };
    s.clean(299 * SEC);
    assert_eq!(s.handle_packet(at(2, 500), ready(), 299 * SEC).len(), 2);
    s.clean(300 * SEC);
    assert_eq!(s.handle_packet(at(2, 500), ready(), 300 * SEC).len(), 0);
}

#[test]
fn no_session_over_ipv6() {
    let mut s = server();
    let six = SocketAddr::V6 { bits: 1, port: 7, flowinfo: 0, scope_id: 0 };
    s.handle_packet(six, hello("alice"), 0);
    s.handle_packet(at(3, 600), hello("bob"), 0);
    let request = Packet::RequestConnect { target_id: "bob".to_string(), password: String::new() };
    assert_eq!(s.handle_packet(six, request, 0).len(), 2);
    let ready = Packet::PortChanged { client_id: "bob".to_string() };
    same(&s.handle_packet(at(3, 600), ready, 0), vec![]);
}

#[test]
fn both_sides_are_told_of_the_relay() {
    let mut s = server();
    s.handle_packet(at(2, 500), hello("alice"), 0);
    s.handle_packet(at(3, 600), hello("bob"), 0);
    let enable = Packet::EnableRelay {
        src_id: "alice".to_string(),
        target_id: "bob".to_string(),
        vip: "10.10.0.2".to_string(),
    };
    same(
        &s.handle_packet(at(2, 500), enable, 0),
        vec![
            send(
                at(2, 500),
                Packet::RelayEnabled {
                    peer_id: "bob".to_string(),
                    peer_vip: "10.10.0.3".to_string(),
                },
            ),
            send(
                at(3, 600),
                Packet::RelayEnabled {
                    peer_id: "alice".to_string(),
                    peer_vip: "10.10.0.2".to_string(),
                },
            ),
        ],
    );
    let unknown = Packet::EnableRelay {
        src_id: "alice".to_string(),
        target_id: "zoe".to_string(),
        vip: "10.10.0.2".to_string(),
    };
    same(&s.handle_packet(at(2, 500), unknown, 0), vec![]);
}

#[test]
fn latency_tests_are_handed_on() {
    let mut s = server();
    s.handle_packet(at(3, 600), hello("bob"), 0);
    let test = |id: &str| Packet::RelayLatencyTest { target_id: id.to_string(), timestamp: 4 };
    let reply = |id: &str| Packet::RelayLatencyReply { target_id: id.to_string(), timestamp: 5 };
    same(&s.handle_packet(at(2, 500), test("bob"), 0), vec![send(at(3, 600), test("bob"))]);
    same(&s.handle_packet(at(2, 500), reply("bob"), 0), vec![send(at(3, 600), reply("bob"))]);
    same(&s.handle_packet(at(2, 500), test("zoe"), 0), vec![]);
    same(&s.handle_packet(at(2, 500), reply("zoe"), 0), vec![]);
}

#[test]
fn other_packets_do_nothing() {
    let mut s = server();
    same(&s.handle_packet(at(2, 500), Packet::Keepalive, 0), vec![]);
    same(&s.handle_packet(at(2, 500), Packet::Pong(1), 0), vec![]);
    same(&s.handle_packet(at(2, 500), Packet::Error("e".to_string()), 0), vec![]);
    same(&s.handle_packet(at(2, 500), Packet::DisconnectPeer, 0), vec![]);
}

#[test]
fn everyone_is_told_who_is_online() {
    let mut s = server();
    same(&s.announce_online(), vec![]);
    s.handle_packet(at(2, 500), hello("alice"), 0);
    s.handle_packet(at(3, 600), hello("bob"), 0);
    let devices = s.online_devices();
    assert_eq!(devices.len(), 2);
    assert_eq!(devices[0].client_id, "alice");
    assert_eq!(devices[0].vip, "10.10.0.2");
    assert!(devices[0].is_online);
    assert_eq!(devices[1].client_id, "bob");
    assert_eq!(devices[1].vip, "10.10.0.3");
    same(
        &s.announce_online(),
        vec![
            send(at(2, 500), Packet::OnlineDevices(s.online_devices())),
            send(at(3, 600), Packet::OnlineDevices(s.online_devices())),
        ],
    );
}

#[test]
fn pairs_have_one_name() {
    assert_eq!(get_session_key("alice", "bob"), "alice_bob");
    assert_eq!(get_session_key("bob", "alice"), "alice_bob");
    assert_eq!(get_session_key("a", "a"), "a_a");
    assert_eq!(get_session_key("a", "ab"), "a_ab");
    assert_eq!(get_session_key("", "x"), "_x");
    assert_eq!(get_session_key("é", "z"), "z_é");
}

#[test]
fn taking_over_an_address_can_double_a_virtual_one() {
    let mut s = server();
    s.handle_packet(at(2, 500), hello("alice"), 0);
    s.handle_packet(at(2, 500), hello("bob"), 0);
    let carol = s.handle_packet(at(4, 700), hello("carol"), 0);
    assert_eq!(format!("{:?}", carol[0]), format!("{:?}", send(at(4, 700), ack("10.10.0.2"))));
    let alice = s.handle_packet(at(5, 800), hello("alice"), 0);
    assert_eq!(format!("{:?}", alice[0]), format!("{:?}", send(at(5, 800), ack("10.10.0.2"))));
}

#[test]
fn session_keeps_what_it_is_given() {
    let session = NatSession::new(
        "alice".to_string(),
        at(2, 500),
        ip(10, 10, 0, 2),
        "bob".to_string(),
        at(3, 600),
        ip(10, 10, 0, 3),
        7,
    );
    assert_eq!(session.peer_one_id, "alice");
    assert_eq!(session.peer_one_addr, at(2, 500));
    assert_eq!(session.peer_two_id, "bob");
    assert_eq!(session.peer_two_vip, ip(10, 10, 0, 3));
    assert_eq!(session.created_at, 7);
}

#[test]
fn session_with_one_side_on_ipv6_tells_nobody() {
    let six = SocketAddr::V6 { bits: 1, port: 7, flowinfo: 0, scope_id: 0 };
    let session = |one: SocketAddr, two: SocketAddr| {
        NatSession::new(
            "alice".to_string(),
            one,
            ip(10, 10, 0, 2),
            "bob".to_string(),
            two,
            ip(10, 10, 0, 3),
            0,
        )
    };
    assert_eq!(send_connect_peer(&session(at(2, 500), at(3, 600))).len(), 2);
    assert_eq!(send_connect_peer(&session(six, at(3, 600))).len(), 0);
    assert_eq!(send_connect_peer(&session(at(2, 500), six)).len(), 0);
    assert_eq!(send_connect_peer(&session(six, six)).len(), 0);
}

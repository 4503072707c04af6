use dend_p2p::addr::{Ipv4Addr, SocketAddr};
use dend_p2p::client::{
    generate_port_list, get_connection_status, handle_server_packet, handshake_packet,
    handshake_reply, punch_timed_out, Client, ClientAction, ConnectionMode, ConnectionState,
    HandshakeOutcome, PunchHoleConfig, Target,
};
use dend_p2p::protocol::Packet;
use dend_p2p::webui::OnlineDevice;

const SEC: u64 = 1_000_000_000;
const MS: u64 = 1_000_000;

fn ip(a: u8, b: u8, c: u8, d: u8) -> Ipv4Addr {
    Ipv4Addr { a, b, c, d }
}

fn at(host: u8, port: u16) -> SocketAddr {
    SocketAddr::V4 { ip: ip(1, 1, 1, host), port }
}

fn server() -> SocketAddr {
    at(1, 9696)
}

fn client() -> Client {
    Client::new(server(), at(5, 5000), ip(10, 10, 0, 2), 0)
}

fn peer_info() -> Packet {
    Packet::PeerInfo { peer_vip: "10.10.0.3".to_string(), peer_addr: Some(at(3, 600)) }
}

fn punch() -> Packet {
    Packet::Punch { vip: "10.10.0.2".to_string() }
}

fn punched_by_peer() -> Packet {
    Packet::Punch { vip: "10.10.0.3".to_string() }
}

fn connect_peer() -> Packet {
    Packet::ConnectPeer {
        peer_vip: ip(10, 10, 0, 3),
        peer_addr: ip(1, 1, 1, 3),
        port: 600,
        peer_id: "bob".to_string(),
    }
}

fn send(to: SocketAddr, packet: Packet) -> ClientAction {
    ClientAction::Send { to, packet }
}

fn same(got: &Vec<ClientAction>, want: Vec<ClientAction>) {
    assert_eq!(format!("{:?}", got), format!("{:?}", want));
}

fn round(host: u8, first: u16) -> Vec<ClientAction> {
    (0..7u16)
        .map(|i| ClientAction::Punch {
            to: at(host, first + i),
            packet: punch(),
            pause_millis: 10 * i as u64,
        })
        .collect()
}

fn packet_goes_to(c: &Client, to: SocketAddr) {
    let got = c.handle_tun(vec![7; 20]);
    assert_eq!(format!("{:?}", got), format!("{:?}", Some(send(to, Packet::Data(vec![7; 20])))));
}

#[test]
fn modes_have_numbers() {
    assert_eq!(ConnectionMode::from(0), ConnectionMode::Direct);
    assert_eq!(ConnectionMode::from(1), ConnectionMode::Relay);
    assert_eq!(ConnectionMode::from(2), ConnectionMode::Disconnected);
    assert_eq!(ConnectionMode::from(255), ConnectionMode::Disconnected);
    assert_eq!(u8::from(ConnectionMode::Direct), 0);
    assert_eq!(u8::from(ConnectionMode::Relay), 1);
    assert_eq!(u8::from(ConnectionMode::Disconnected), 2);
}

#[test]
fn state_starts_disconnected() {
    let s = ConnectionState::default(9);
    assert_eq!(s.mode, ConnectionMode::Disconnected);
    assert_eq!(s.peer_addr, None);
    assert_eq!(s.peer_vip, None);
    assert_eq!(s.peer_id, "");
    assert!(!s.is_p2p && !s.is_connecting && !s.connect_failed);
    assert_eq!(s.target, None);
    assert_eq!((s.last_punch, s.last_mode_change, s.punch_attempts), (9, 9, 0));
    assert_eq!(s.last_latency, -1);
}

#[test]
fn holes_are_punched_by_default_as_documented() {
    let c = PunchHoleConfig::default();
    assert_eq!(c.max_concurrency, 2);
    assert_eq!(c.port_range, 6);
    assert_eq!(c.base_port_offset, 0);
    assert!(c.enable_relay && c.relay_fallback);
    assert_eq!(c.punch_timeout, 10);
    assert_eq!(c.punch_interval, 200);
    assert_eq!(c.keepalive_interval, 30);
    assert!(!c.at_limit(1));
    assert!(c.at_limit(2));
    assert_eq!(client().punch_config(), c);
}

#[test]
fn ports_follow_one_another() {
    assert_eq!(generate_port_list(600, 6, 0), vec![600, 601, 602, 603, 604, 605, 606]);
    assert_eq!(generate_port_list(600, 2, -10), vec![590, 591, 592]);
    assert_eq!(generate_port_list(5, 2, -10), vec![1, 2, 3]);
    assert_eq!(generate_port_list(0, 1, 0), vec![1, 2]);
    assert_eq!(generate_port_list(65529, 6, 0).len(), 7);
    assert_eq!(generate_port_list(65535, 0, 0), vec![65535]);
    assert_eq!(generate_port_list(65530, 6, 0), vec![65530, 65531, 65532, 65533, 65534, 65535]);
    assert_eq!(generate_port_list(65533, 6, 0), vec![65533, 65534, 65535]);
    assert_eq!(generate_port_list(65535, 0, 1), Vec::<u16>::new());
    assert_eq!(generate_port_list(65535, 3, 1), vec![1, 2, 3]);
    assert_eq!(generate_port_list(1, 1, i32::MAX), vec![1, 2]);
}

#[test]
fn client_asks_to_be_admitted() {
    assert!(matches!(
        handshake_packet("tok", "alice"),
        Packet::Handshake { token, client_id } if token == "tok" && client_id == "alice"
    ));
}

#[test]
fn only_the_server_admits() {
    let ack = |text: &str| Packet::HandshakeAck {
        ip: text.to_string(),
        cidr: "10.10.0.0/24".to_string(),
    };
    assert!(matches!(
        handshake_reply(server(), server(), ack("10.10.0.2")),
        HandshakeOutcome::Accepted { ip: got, cidr }
            if got == ip(10, 10, 0, 2) && cidr == "10.10.0.0/24"
    ));
    assert!(matches!(
        handshake_reply(server(), at(9, 9), ack("10.10.0.2")),
        HandshakeOutcome::Retry
    ));
    assert!(matches!(
        handshake_reply(server(), server(), Packet::Ping(1)),
        HandshakeOutcome::Retry
    ));
    assert!(matches!(
        handshake_reply(server(), server(), ack("nonsense")),
        HandshakeOutcome::BadAddress
    ));
}

#[test]
fn server_gets_a_heartbeat_every_three_seconds() {
    let mut c = client();
    same(&c.tick(3 * SEC - 1), vec![]);
    same(&c.tick(3 * SEC), vec![send(server(), Packet::Ping(3000))]);
    same(&c.tick(5 * SEC), vec![]);
    same(&c.tick(6 * SEC), vec![send(server(), Packet::Ping(6000))]);
}

#[test]
fn no_hole_is_punched_before_a_request() {
    let mut c = client();
    same(
        &c.handle_packet(server(), peer_info(), 0),
        vec![ClientAction::StartPunchTimer { secs: 10 }],
    );
    same(&c.tick(SEC), vec![]);
    same(&c.handle_packet(server(), connect_peer(), SEC), vec![]);
    same(&c.tick(SEC), round(3, 600));
    same(&c.tick(SEC + 200 * MS - 1), vec![]);
    same(&c.tick(SEC + 200 * MS), round(3, 600));
}

fn request() -> ClientAction {
    let packet = Packet::RequestConnect { target_id: "bob".to_string(), password: String::new() };
    send(server(), packet)
}

fn timer() -> ClientAction {
    ClientAction::StartPunchTimer { secs: 10 }
}

fn announce(vip: &str, addr: SocketAddr) -> Packet {
    Packet::PeerInfo { peer_vip: vip.to_string(), peer_addr: Some(addr) }
}

fn online() -> Packet {
    let device = |id: &str, vip: &str| OnlineDevice {
        client_id: id.to_string(),
        vip: vip.to_string(),
        is_online: true,
    };
    Packet::OnlineDevices(vec![
        device("alice", "10.10.0.2"),
        device("bob", "10.10.0.3"),
        device("carol", "10.10.0.4"),
    ])
}

#[test]
fn chosen_device_is_punched() {
    let mut c = client();
    c.handle_packet(server(), announce("10.10.0.3", at(3, 600)), 0);
    c.handle_packet(server(), announce("10.10.0.4", at(4, 700)), 0);
    assert_eq!(c.handle_packet(server(), online(), 0).len(), 1);
    same(&c.tick(SEC), vec![]);
    // Not the one that was announced last.
    same(&c.connect("bob".to_string()), vec![request(), timer()]);
    same(&c.tick(SEC), round(3, 600));
    c.handle_packet(server(), announce("10.10.0.4", at(4, 701)), SEC);
    same(&c.tick(SEC + 200 * MS), round(3, 600));
    // It is reached, and asked for once more.
    c.handle_packet(at(3, 600), punched_by_peer(), SEC);
    same(&c.connect("bob".to_string()), vec![request()]);
    packet_goes_to(&c, at(3, 600));
    // Another one is chosen instead.
    assert_eq!(c.connect("carol".to_string()).len(), 2);
    packet_goes_to(&c, server());
    same(&c.tick(SEC + 400 * MS), round(4, 701));
}

#[test]
fn request_waits_for_the_announcement() {
    let mut c = client();
    c.handle_packet(server(), online(), 0);
    same(&c.connect("bob".to_string()), vec![request()]);
    c.handle_packet(server(), announce("10.10.0.4", at(4, 700)), 0);
    same(&c.tick(SEC), vec![]);
    same(&c.handle_packet(server(), announce("10.10.0.3", at(3, 600)), 0), vec![timer()]);
    same(&c.tick(SEC), round(3, 600));
}

#[test]
fn request_waits_for_the_list() {
    let mut c = client();
    c.handle_packet(server(), announce("10.10.0.3", at(3, 600)), 0);
    same(&c.connect("bob".to_string()), vec![request()]);
    same(&c.tick(SEC), vec![]);
    let actions = c.handle_packet(server(), online(), 0);
    assert_eq!(actions.len(), 2);
    assert!(matches!(actions[0], ClientAction::ShowDevices { .. }));
    assert!(matches!(actions[1], ClientAction::StartPunchTimer { secs: 10 }));
    same(&c.tick(SEC), round(3, 600));
}

#[test]
fn disconnect_ends_a_request_that_waits() {
    let mut c = client();
    c.handle_packet(server(), online(), 0);
    c.connect("bob".to_string());
    c.handle_packet(server(), Packet::DisconnectPeer, 0);
    c.handle_packet(server(), announce("10.10.0.3", at(3, 600)), 0);
    same(&c.tick(SEC), vec![]);
}

#[test]
fn client_does_not_connect_to_itself() {
    let mut c = client();
    c.handle_packet(server(), announce("10.10.0.2", at(5, 5001)), 0);
    c.handle_packet(server(), online(), 0);
    assert_eq!(c.connect("alice".to_string()).len(), 1);
    c.handle_packet(server(), announce("10.10.0.2", at(5, 5002)), 0);
    same(&c.tick(SEC), vec![]);
}

#[test]
fn word_to_prepare_is_not_answered() {
    let mut c = client();
    c.handle_packet(server(), peer_info(), 0);
    let prepare = || Packet::ChangePort { password: String::new() };
    same(&c.handle_packet(server(), prepare(), 0), vec![]);
    same(&c.handle_packet(at(9, 9), prepare(), 0), vec![]);
    same(&c.tick(SEC), vec![]);
}

#[test]
fn only_the_target_is_punched() {
    let mut c = client();
    c.handle_packet(server(), connect_peer(), 0);
    // Another client is announced.
    let other = Packet::PeerInfo { peer_vip: "10.10.0.4".to_string(), peer_addr: Some(at(4, 700)) };
    c.handle_packet(server(), other, 0);
    same(&c.tick(200 * MS), round(3, 600));
    // The target is announced somewhere else.
    let moved = Packet::PeerInfo { peer_vip: "10.10.0.3".to_string(), peer_addr: Some(at(3, 650)) };
    c.handle_packet(server(), moved, 0);
    same(&c.tick(400 * MS), round(3, 650));
}

#[test]
fn peer_at_a_high_port_is_punched() {
    let mut c = client();
    let high = Packet::ConnectPeer {
        peer_vip: ip(10, 10, 0, 3),
        peer_addr: ip(1, 1, 1, 3),
        port: 65533,
        peer_id: "bob".to_string(),
    };
    c.handle_packet(server(), high, 0);
    let actions = c.tick(200 * MS);
    assert_eq!(actions.len(), 3);
    assert!(matches!(actions[0], ClientAction::Punch { to, .. } if to == at(3, 65533)));
}

#[test]
fn panel_shows_what_was_asked_for() {
    let mut c = client();
    let nothing = c.status(vec![]);
    assert_eq!(nothing.mode, "disconnected");
    assert_eq!(nothing.mode_code, 2);
    assert!(!nothing.is_connected && !nothing.is_connecting);
    assert_eq!(nothing.peer_latency, -1);

    // An announcement alone is not shown, nor that the time for punching is over.
    c.handle_packet(server(), peer_info(), 0);
    c.punch_timed_out();
    let announced = c.status(vec![]);
    assert_eq!(announced.mode, "disconnected");
    assert!(!announced.is_connected && !announced.is_connecting);
    assert_eq!(announced.status_text, "");

    let mut d = client();
    d.handle_packet(server(), connect_peer(), 0);
    let connecting = d.status(vec![]);
    assert!(connecting.is_connecting && !connecting.is_connected);
    assert_eq!(connecting.status_text, "正在打洞...");
    assert_eq!(connecting.peer_ip, "10.10.0.3");
    d.punch_timed_out();
    let relayed = d.status(vec![]);
    assert_eq!((relayed.mode.as_str(), relayed.mode_code), ("relay", 1));
    assert!(relayed.is_connected && !relayed.is_connecting);
    d.handle_packet(at(3, 600), punched_by_peer(), 0);
    d.tick(3 * SEC);
    d.handle_packet(at(3, 600), Packet::Pong(3000), 3 * SEC + 7 * MS);
    let bob = OnlineDevice {
        client_id: "bob".to_string(),
        vip: "10.10.0.3".to_string(),
        is_online: true,
    };
    let direct = d.status(vec![bob]);
    assert_eq!((direct.mode.as_str(), direct.mode_code), ("direct", 0));
    assert!(direct.is_connected && !direct.is_connecting);
    assert_eq!(direct.peer_latency, 7);
    assert_eq!(direct.online_devices.len(), 1);
}

#[test]
fn client_never_punches_at_itself() {
    let mut c = Client::new(server(), at(3, 602), ip(10, 10, 0, 2), 0);
    c.handle_packet(server(), connect_peer(), 0);
    let actions = c.tick(200 * MS);
    assert_eq!(actions.len(), 6);
    for action in &actions {
        assert!(matches!(action, ClientAction::Punch { to, .. } if *to != at(3, 602)));
    }
    assert!(matches!(actions[2], ClientAction::Punch { to, pause_millis: 30, .. } if to == at(3, 603)));
}

#[test]
fn punch_makes_the_connection_direct() {
    let mut c = client();
    c.handle_packet(server(), connect_peer(), 0);
    packet_goes_to(&c, server());
    same(&c.handle_packet(at(3, 777), punched_by_peer(), 0), vec![]);
    packet_goes_to(&c, at(3, 777));
    c.punch_timed_out();
    packet_goes_to(&c, at(3, 777));
    same(&c.tick(2 * SEC - 1), vec![]);
    same(&c.tick(2 * SEC), vec![send(at(3, 777), Packet::Ping(2000))]);
}

#[test]
fn punch_from_nowhere_is_ignored() {
    let mut c = client();
    same(&c.handle_packet(at(3, 777), Packet::Punch { vip: "x".to_string() }, 0), vec![]);
    packet_goes_to(&c, server());
}

#[test]
fn hole_is_kept_open() {
    let mut c = client();
    c.handle_packet(at(3, 777), punched_by_peer(), 0);
    same(
        &c.tick(30 * SEC),
        vec![
            send(server(), Packet::Ping(30000)),
            send(at(3, 777), Packet::Ping(30000)),
            send(at(3, 777), Packet::Keepalive),
        ],
    );
    same(
        &c.tick(59 * SEC),
        vec![send(server(), Packet::Ping(59000)), send(at(3, 777), Packet::Ping(59000))],
    );
    same(&c.tick(60 * SEC), vec![send(at(3, 777), Packet::Keepalive)]);
}

#[test]
fn packets_go_to_the_device() {
    let mut c = client();
    same(
        &c.handle_packet(at(9, 9), Packet::Data(vec![1, 2, 3]), 0),
        vec![ClientAction::WriteTun { data: vec![1, 2, 3] }],
    );
    assert!(c.handle_tun(vec![0; 19]).is_none());
}

#[test]
fn heartbeats_are_answered() {
    let mut c = client();
    same(
        &c.handle_packet(at(3, 600), Packet::Ping(42), 0),
        vec![send(at(3, 600), Packet::Pong(42))],
    );
}

#[test]
fn latency_is_the_round_trip() {
    let mut c = client();
    // No heartbeat was sent yet.
    same(&c.handle_packet(server(), Packet::Pong(0), SEC), vec![]);
    c.handle_packet(at(3, 777), punched_by_peer(), 0);
    c.tick(3 * SEC);
    same(
        &c.handle_packet(server(), Packet::Pong(3000), 3 * SEC + 25 * MS),
        vec![ClientAction::ReportLatency { via_server: true, millis: 25 }],
    );
    same(
        &c.handle_packet(at(3, 777), Packet::Pong(3000), 3 * SEC + 8 * MS),
        vec![ClientAction::ReportLatency { via_server: false, millis: 8 }],
    );
}

#[test]
fn own_answers_tell_nothing() {
    let mut c = client();
    c.handle_packet(at(3, 777), punched_by_peer(), 0);
    c.tick(3 * SEC);
    same(&c.handle_packet(at(5, 5000), Packet::Pong(3000), 4 * SEC), vec![]);
}

#[test]
fn only_the_server_commands() {
    let mut c = client();
    same(&c.handle_packet(at(9, 9), connect_peer(), 0), vec![]);
    same(&c.handle_packet(at(9, 9), peer_info(), 0), vec![]);
    same(&c.handle_packet(at(9, 9), Packet::OnlineDevices(vec![]), 0), vec![]);
    same(&c.tick(SEC), vec![]);
}

#[test]
fn disconnected_client_is_quiet() {
    let mut c = client();
    c.handle_packet(at(3, 777), punched_by_peer(), 0);
    packet_goes_to(&c, at(3, 777));
    same(&c.handle_packet(server(), Packet::DisconnectPeer, 0), vec![]);
    packet_goes_to(&c, server());
    same(&c.tick(30 * SEC), vec![send(server(), Packet::Ping(30000))]);
}

#[test]
fn devices_are_shown() {
    let device = || OnlineDevice {
        client_id: "bob".to_string(),
        vip: "10.10.0.3".to_string(),
        is_online: true,
    };
    let mut c = client();
    same(
        &c.handle_packet(server(), Packet::OnlineDevices(vec![device()]), 0),
        vec![ClientAction::ShowDevices { devices: vec![device()] }],
    );
}

#[test]
fn peer_info_starts_connecting() {
    let mut s = ConnectionState::default(0);
    s.connect_failed = true;
    s.punch_attempts = 4;
    assert!(handle_server_packet(&mut s, &peer_info()));
    assert_eq!(s.peer_addr, Some(at(3, 600)));
    assert_eq!(s.peer_vip, Some(ip(10, 10, 0, 3)));
    assert!(s.is_connecting && !s.connect_failed);
    assert_eq!(s.target, None);
    assert_eq!(s.connect_message, "正在建立 P2P 连接...");
    assert_eq!(s.punch_attempts, 0);

    let mut t = ConnectionState::default(0);
    let nowhere = Packet::PeerInfo { peer_vip: "10.10.0.3".to_string(), peer_addr: None };
    assert!(!handle_server_packet(&mut t, &nowhere));
    let nobody = Packet::PeerInfo { peer_vip: "?".to_string(), peer_addr: Some(at(3, 600)) };
    assert!(!handle_server_packet(&mut t, &nobody));
    assert_eq!(t.peer_addr, None);
}

#[test]
fn connect_peer_is_obeyed() {
    let mut s = ConnectionState::default(0);
    assert!(!handle_server_packet(&mut s, &connect_peer()));
    assert_eq!(s.peer_addr, Some(at(3, 600)));
    assert_eq!(s.peer_vip, Some(ip(10, 10, 0, 3)));
    assert!(s.is_connecting);
    assert_eq!(s.target, Some(Target { vip: ip(10, 10, 0, 3), addr: at(3, 600) }));
    assert_eq!(s.connect_message, "正在打洞...");
}

#[test]
fn relay_is_turned_to() {
    let mut s = ConnectionState::default(0);
    handle_server_packet(&mut s, &connect_peer());
    let relay = |vip: &str| Packet::RelayEnabled {
        peer_id: "bob".to_string(),
        peer_vip: vip.to_string(),
    };
    assert!(!handle_server_packet(&mut s, &relay("no address")));
    assert_eq!(s.mode, ConnectionMode::Disconnected);
    assert!(!handle_server_packet(&mut s, &relay("10.10.0.4")));
    assert_eq!(s.mode, ConnectionMode::Relay);
    assert_eq!(s.peer_id, "bob");
    assert_eq!(s.peer_vip, Some(ip(10, 10, 0, 4)));
    assert!(!s.is_connecting);
    assert_eq!(s.connect_message, "");
}

#[test]
fn punching_is_given_up() {
    let config = PunchHoleConfig::default();
    let mut s = ConnectionState::default(0);
    punch_timed_out(&mut s, &config);
    assert_eq!(s.mode, ConnectionMode::Disconnected);

    handle_server_packet(&mut s, &peer_info());
    punch_timed_out(&mut s, &config);
    assert_eq!(s.mode, ConnectionMode::Relay);
    assert_eq!(s.connect_message, "使用中转模式");
    assert!(!s.connect_failed);

    for no_relay in [
        PunchHoleConfig { enable_relay: false, ..config },
        PunchHoleConfig { relay_fallback: false, ..config },
    ] {
        let mut t = ConnectionState::default(0);
        handle_server_packet(&mut t, &peer_info());
        punch_timed_out(&mut t, &no_relay);
        assert_eq!(t.mode, ConnectionMode::Disconnected);
        assert!(t.connect_failed && !t.is_connecting);
        assert_eq!(t.connect_message, "连接失败：无法建立 P2P 连接");
    }
}

#[test]
fn report_says_disconnected() {
    let r = get_connection_status();
    assert_eq!(r.mode, "disconnected");
    assert_eq!(r.mode_code, 2);
    assert!(!r.is_connected && !r.is_connecting && !r.connect_failed);
    assert_eq!(r.connect_message, "");
}

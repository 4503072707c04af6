use dend_p2p::addr::{Ipv4Addr, SocketAddr};
use dend_p2p::client::{
    handshake_packet, handshake_reply, Client, ClientAction, HandshakeOutcome,
};
use dend_p2p::config::{Config, Mode};
use dend_p2p::protocol::Packet;
use dend_p2p::server::{Action, Server};

const MS: u64 = 1_000_000;

fn at(host: u8, port: u16) -> SocketAddr {
    SocketAddr::V4 { ip: Ipv4Addr { a: 1, b: 1, c: 1, d: host }, port }
}

fn server_addr() -> SocketAddr {
    at(1, 9696)
}

fn start() -> Server {
    Server::new(&Config {
        mode: Mode::Server,
        server_addr: "0.0.0.0:9696".to_string(),
        token: "t".to_string(),
        tun_name: None,
        cidr: Some("10.10.0.0/24".to_string()),
        webui: false,
    })
    .unwrap()
}

fn join(server: &mut Server, id: &str, addr: SocketAddr) -> (Client, Vec<Action>) {
    let mut actions = server.handle_packet(addr, handshake_packet("t", id), 0);
    let first = actions.remove(0);
    match first {
        Action::Send { to, packet } => {
            assert_eq!(to, addr);
            match handshake_reply(server_addr(), server_addr(), packet) {
                HandshakeOutcome::Accepted { ip, .. } => {
                    (Client::new(server_addr(), addr, ip, 0), actions)
                }
                other => panic!("{:?}", other),
            }
        }
        other => panic!("{:?}", other),
    }
}

fn hand_out(actions: Vec<Action>, who: SocketAddr, client: &mut Client) -> Vec<ClientAction> {
    let mut done = Vec::new();
    for action in actions {
        if let Action::Send { to, packet } = action {
            if to == who {
                done.extend(client.handle_packet(server_addr(), packet, 0));
            }
        }
    }
    done
}

fn data_for(d: u8) -> Vec<u8> {
    let mut data = vec![0u8; 20];
    data[16] = 10;
    data[17] = 10;
    data[19] = d;
    data
}

#[test]
fn packets_travel_through_the_server() {
    let mut server = start();
    let (alice, _) = join(&mut server, "alice", at(2, 500));
    let (mut bob, _) = join(&mut server, "bob", at(3, 600));
    match alice.handle_tun(data_for(3)) {
        Some(ClientAction::Send { to, packet }) => {
            assert_eq!(to, server_addr());
            let relayed = server.handle_packet(at(2, 500), packet, 0);
            let written = hand_out(relayed, at(3, 600), &mut bob);
            let want = vec![ClientAction::WriteTun { data: data_for(3) }];
            assert_eq!(format!("{:?}", written), format!("{:?}", want));
        }
        other => panic!("{:?}", other),
    }
}

#[test]
fn clients_find_each_other_directly() {
    let mut server = start();
    let (mut alice, _) = join(&mut server, "alice", at(2, 500));
    let mut told = server.handle_packet(at(3, 600), handshake_packet("t", "bob"), 0);
    hand_out(told.split_off(1), at(2, 500), &mut alice);
    let (mut bob, told) = join(&mut server, "bob", at(3, 600));
    assert_eq!(hand_out(told, at(3, 600), &mut bob).len(), 1);
    // A third client comes later, and is not the one that is asked for.
    let (_, told) = join(&mut server, "carol", at(4, 700));
    assert_eq!(hand_out(told, at(2, 500), &mut alice).len(), 1);
    hand_out(server.announce_online(), at(2, 500), &mut alice);
    hand_out(server.announce_online(), at(3, 600), &mut bob);

    // Each of them enters the code of the other.
    for (code, asker) in [("bob", &mut alice), ("alice", &mut bob)] {
        let actions = asker.connect(code.to_string());
        assert_eq!(actions.len(), 2);
        assert!(matches!(
            &actions[0],
            ClientAction::Send { to, packet: Packet::RequestConnect { target_id, .. } }
                if *to == server_addr() && target_id == code
        ));
    }

    let from_alice = alice.tick(200 * MS);
    let from_bob = bob.tick(200 * MS);
    assert_eq!((from_alice.len(), from_bob.len()), (7, 7));
    for action in from_alice {
        match action {
            ClientAction::Punch { to, packet, .. } => {
                if to == at(3, 600) {
                    bob.handle_packet(at(2, 500), packet, 200 * MS);
                }
            }
            other => panic!("{:?}", other),
        }
    }
    assert!(matches!(
        bob.handle_tun(data_for(2)),
        Some(ClientAction::Send { to, packet: Packet::Data(_) }) if to == at(2, 500)
    ));
    // Nothing has come through to the other side yet.
    assert!(matches!(
        alice.handle_tun(data_for(3)),
        Some(ClientAction::Send { to, packet: Packet::Data(_) }) if to == server_addr()
    ));
    for action in from_bob {
        match action {
            ClientAction::Punch { to, packet, .. } => {
                if to == at(2, 500) {
                    alice.handle_packet(at(3, 600), packet, 200 * MS);
                }
            }
            other => panic!("{:?}", other),
        }
    }
    assert!(matches!(
        alice.handle_tun(data_for(3)),
        Some(ClientAction::Send { to, packet: Packet::Data(_) }) if to == at(3, 600)
    ));
}

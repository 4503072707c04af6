use dend_p2p::addr::{CidrError, Ipv4Addr, SocketAddr};
use dend_p2p::basic_server::{BasicAction, BasicServer};
use dend_p2p::config::{Config, Mode};
use dend_p2p::protocol::Packet;
use dend_p2p::server::ServerError;

fn at(port: u16) -> SocketAddr {
    SocketAddr::V4 { ip: Ipv4Addr { a: 1, b: 2, c: 3, d: 4 }, port }
}

fn config(cidr: Option<&str>) -> Config {
    Config {
        mode: Mode::Server,
        server_addr: "0.0.0.0:9696".to_string(),
        token: "t".to_string(),
        tun_name: None,
        cidr: cidr.map(|c| c.to_string()),
        webui: false,
    }
}

fn hello(token: &str) -> Packet {
    Packet::Handshake { token: token.to_string(), client_id: "c".to_string() }
}

fn data_for(d: u8) -> Vec<u8> {
    let mut data = vec![0u8; 24];
    data[16] = 10;
    data[17] = 10;
    data[19] = d;
    data
}

fn admitted(s: &mut BasicServer, port: u16, vip: &str) {
    let got = s.handle_packet(at(port), hello("t"), 0);
    let want = Some(BasicAction::Send {
        to: at(port),
        packet: Packet::HandshakeAck { ip: vip.to_string(), cidr: "10.10.0.0/24".to_string() },
    });
    assert_eq!(format!("{:?}", got), format!("{:?}", want));
}

#[test]
fn basic_server_needs_a_network() {
    assert_eq!(BasicServer::new(&config(None)).unwrap_err(), ServerError::MissingCidr);
    assert_eq!(
        BasicServer::new(&config(Some("x/24"))).unwrap_err(),
        ServerError::Cidr(CidrError::Address)
    );
}

#[test]
fn only_24_bit_networks_are_fully_supported() {
    let s = BasicServer::new(&config(Some("10.10.0.0/24"))).unwrap();
    assert!(s.is_fully_supported());
    assert_eq!(s.own_address(), Ipv4Addr { a: 10, b: 10, c: 0, d: 1 });
    assert!(!BasicServer::new(&config(Some("10.0.0.0/8"))).unwrap().is_fully_supported());
}

#[test]
fn every_handshake_gets_a_new_address() {
    let mut s = BasicServer::new(&config(Some("10.10.0.0/24"))).unwrap();
    admitted(&mut s, 1, "10.10.0.2");
    admitted(&mut s, 1, "10.10.0.3");
    admitted(&mut s, 2, "10.10.0.4");
    assert!(s.handle_packet(at(3), hello("wrong"), 0).is_none());
    admitted(&mut s, 3, "10.10.0.5");
    for n in 6..256u16 {
        admitted(&mut s, n, &format!("10.10.0.{}", n));
    }
    admitted(&mut s, 300, "10.10.1.0");
}

#[test]
fn datagrams_are_forwarded_as_they_are() {
    let mut s = BasicServer::new(&config(Some("10.10.0.0/24"))).unwrap();
    admitted(&mut s, 1, "10.10.0.2");
    let to_client = s.handle_packet(at(9), Packet::Data(data_for(2)), 0);
    assert!(matches!(to_client, Some(BasicAction::Forward { to }) if to == at(1)));
    let to_server = s.handle_packet(at(9), Packet::Data(data_for(1)), 0);
    assert!(matches!(to_server, Some(BasicAction::WriteTun { data }) if data == data_for(1)));
    assert!(s.handle_packet(at(9), Packet::Data(data_for(7)), 0).is_none());
    assert!(s.handle_packet(at(9), Packet::Data(vec![1, 2]), 0).is_none());
    assert!(s.handle_packet(at(9), Packet::Keepalive, 0).is_none());
    assert!(s.handle_packet(at(9), Packet::Ping(1), 0).is_none());
}

#[test]
fn own_device_reaches_the_clients() {
    let mut s = BasicServer::new(&config(Some("10.10.0.0/24"))).unwrap();
    admitted(&mut s, 1, "10.10.0.2");
    let got = s.handle_tun(data_for(2));
    let want = Some(BasicAction::Send { to: at(1), packet: Packet::Data(data_for(2)) });
    assert_eq!(format!("{:?}", got), format!("{:?}", want));
    assert!(s.handle_tun(data_for(3)).is_none());
    assert!(s.handle_tun(vec![]).is_none());
}

use dend_p2p::addr::Ipv4Addr;
use dend_p2p::cache::ClientCache;
use dend_p2p::clock::{elapsed_millis, elapsed_secs};
use dend_p2p::config::default_webui;
use dend_p2p::protocol::get_dest_ip;
use dend_p2p::static_assets::{get_content_type, get_static_file, StaticAsset};
use dend_p2p::tunnel::{basic_server_tun, client_tun, server_tun, Platform};
use dend_p2p::webui::{connect, ConnectRequest, WebUi};

fn own() -> Ipv4Addr {
    Ipv4Addr { a: 10, b: 10, c: 0, d: 7 }
}

fn gateway() -> Ipv4Addr {
    Ipv4Addr { a: 10, b: 10, c: 0, d: 1 }
}

#[test]
fn panel_is_off_on_linux() {
    assert!(!default_webui(true));
    assert!(default_webui(false));
}

#[test]
fn destination_is_read_from_the_header() {
    let mut packet = vec![0u8; 20];
    packet[16] = 10;
    packet[17] = 20;
    packet[18] = 30;
    packet[19] = 40;
    assert_eq!(get_dest_ip(&packet), Some(Ipv4Addr { a: 10, b: 20, c: 30, d: 40 }));
    assert_eq!(get_dest_ip(&packet[..19]), None);
    assert_eq!(get_dest_ip(&[]), None);
}

#[test]
fn stored_identity_is_kept() {
    let stored = ClientCache { client_id: "alice".to_string() };
    let (cache, is_new) = ClientCache::load_or_create(Some(stored));
    assert_eq!(cache.client_id, "alice");
    assert!(!is_new);
}

#[test]
fn fresh_identity_is_taken() {
    let (cache, is_new) = ClientCache::keep_or_take(None, "fresh".to_string());
    assert_eq!(cache.client_id, "fresh");
    assert!(is_new);
    let stored = ClientCache { client_id: "alice".to_string() };
    let (kept, is_new) = ClientCache::keep_or_take(Some(stored), "fresh".to_string());
    assert_eq!(kept.client_id, "alice");
    assert!(!is_new);
}

#[test]
fn new_identities_are_random_uuids() {
    let (one, is_new) = ClientCache::load_or_create(None);
    let (two, _) = ClientCache::load_or_create(None);
    assert!(is_new);
    assert_ne!(one.client_id, two.client_id);
    let id: Vec<char> = one.client_id.chars().collect();
    assert_eq!(id.len(), 36);
    for (i, c) in id.iter().enumerate() {
        match i {
            8 | 13 | 18 | 23 => assert_eq!(*c, '-'),
            14 => assert_eq!(*c, '4'),
            19 => assert!("89ab".contains(*c)),
            _ => assert!("0123456789abcdef".contains(*c)),
        }
    }
    assert_eq!(uuid::Uuid::parse_str(&one.client_id).unwrap().get_version_num(), 4);
    let mut ui = WebUi::default();
    assert_eq!(connect(&mut ui, ConnectRequest { target_id: one.client_id }).code, 0);
}

#[test]
fn time_is_counted_in_whole_units() {
    assert_eq!(elapsed_secs(60_000_000_000, 0), 60);
    assert_eq!(elapsed_secs(59_999_999_999, 0), 59);
    assert_eq!(elapsed_secs(0, 5_000_000_000), 0);
    assert_eq!(elapsed_millis(1_500_000, 0), 1);
    assert_eq!(elapsed_millis(0, 1), 0);
}

#[test]
fn server_device() {
    let name = Some("dend0".to_string());
    let linux = server_tun(&name, own(), Platform::Linux);
    assert_eq!(linux.address, own());
    assert_eq!(linux.netmask, Ipv4Addr { a: 255, b: 255, c: 255, d: 0 });
    assert_eq!(linux.destination, Some(own()));
    assert_eq!(linux.name.as_deref(), Some("dend0"));
    assert!(linux.packet_information);
    let windows = server_tun(&None, own(), Platform::Windows);
    assert_eq!(windows.destination, None);
    assert_eq!(windows.name, None);
    assert!(!windows.packet_information);
    assert_eq!(server_tun(&name, own(), Platform::MacOs).name.as_deref(), Some("dend0"));
}

#[test]
fn relaying_server_device_has_no_far_end() {
    let name = Some("dend0".to_string());
    let linux = basic_server_tun(&name, own(), Platform::Linux);
    assert_eq!(linux.destination, None);
    assert_eq!(linux.name.as_deref(), Some("dend0"));
    assert!(linux.packet_information);
    assert!(!basic_server_tun(&name, own(), Platform::Other).packet_information);
}

#[test]
fn client_device() {
    let name = Some("dend0".to_string());
    let linux = client_tun(&name, own(), Platform::Linux);
    assert_eq!(linux.destination, Some(gateway()));
    assert_eq!(linux.name.as_deref(), Some("dend0"));
    assert!(linux.packet_information);
    assert_eq!(client_tun(&name, own(), Platform::Windows).destination, None);
    let mac = client_tun(&name, own(), Platform::MacOs);
    assert_eq!(mac.name, None);
    assert!(!mac.packet_information);
    let utun = Some("utun5".to_string());
    assert_eq!(client_tun(&utun, own(), Platform::MacOs).name.as_deref(), Some("utun5"));
    assert_eq!(client_tun(&Some("utu".to_string()), own(), Platform::MacOs).name, None);
    assert_eq!(client_tun(&None, own(), Platform::Linux).name, None);
}

#[test]
fn content_types_go_by_the_ending() {
    assert_eq!(get_content_type("a/style.css"), "text/css");
    assert_eq!(get_content_type("app.js"), "application/javascript");
    assert_eq!(get_content_type("index.html"), "text/html");
    assert_eq!(get_content_type("logo.png"), "application/octet-stream");
    assert_eq!(get_content_type("css"), "application/octet-stream");
    assert_eq!(get_content_type(""), "application/octet-stream");
    assert_eq!(get_content_type(".js"), "application/javascript");
}

#[test]
fn files_are_found_by_their_path() {
    let asset = |path: &str, byte: u8| StaticAsset { path: path.to_string(), data: vec![byte] };
    let assets = vec![asset("a.css", 1), asset("b.js", 2), asset("a.css", 3)];
    assert_eq!(get_static_file(&assets, "a.css"), Some(&vec![1]));
    assert_eq!(get_static_file(&assets, "b.js"), Some(&vec![2]));
    assert_eq!(get_static_file(&assets, "c"), None);
}

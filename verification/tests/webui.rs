use dend_p2p::webui::{
    claim_browser, connect, get_device, get_p2p_trigger, get_peer_status, get_webui_port,
    set_connection_status, set_local_info, set_p2p_trigger, set_webui_port, update_online_devices,
    ConnectRequest, ConnectionStatus, LocalDeviceInfo, OnlineDevice, PortSearch, WebUi,
};

fn device(id: &str, vip: &str, is_online: bool) -> OnlineDevice {
    OnlineDevice { client_id: id.to_string(), vip: vip.to_string(), is_online }
}

fn request(id: &str) -> ConnectRequest {
    ConnectRequest { target_id: id.to_string() }
}

#[test]
fn panel_starts_empty() {
    let ui = WebUi::default();
    let d = get_device(&ui);
    assert_eq!((d.client_id.as_str(), d.ip.as_str(), d.nat_type.as_str()), ("", "", ""));
    let s = get_peer_status(&ui);
    assert_eq!(s.device.client_id, "");
    assert_eq!(s.device.ip, "");
    assert!(!s.device.alive);
    assert_eq!(s.latency, 0);
    assert!(s.devices.is_empty());
    assert_eq!(s.mode_code, 0);
    assert_eq!(get_webui_port(&ui), 8080);
    assert!(!OnlineDevice::default().is_online);
    assert_eq!(LocalDeviceInfo::default().vip, "");
}

#[test]
fn panel_shows_this_device() {
    let mut ui = WebUi::default();
    set_local_info(&mut ui, "alice", "10.10.0.2", "NAT1");
    let d = get_device(&ui);
    assert_eq!(d.client_id, "alice");
    assert_eq!(d.ip, "10.10.0.2");
    assert_eq!(d.nat_type, "NAT1");
}

#[test]
fn panel_shows_the_connection() {
    let mut ui = WebUi::default();
    let status = ConnectionStatus {
        mode: "direct".to_string(),
        mode_code: 1,
        is_connected: true,
        status_text: "ok".to_string(),
        is_connecting: false,
        connect_failed: true,
        connect_message: "m".to_string(),
        peer_ip: "10.10.0.3".to_string(),
        peer_latency: 12,
        online_devices: vec![device("bob", "10.10.0.3", true)],
    };
    set_connection_status(&mut ui, status);
    let s = get_peer_status(&ui);
    assert_eq!(s.mode, "direct");
    assert_eq!(s.mode_code, 1);
    assert!(s.is_connected && !s.is_connecting && s.connect_failed);
    assert_eq!(s.status_text, "ok");
    assert_eq!(s.connect_message, "m");
    assert_eq!(s.device.ip, "10.10.0.3");
    assert!(s.device.alive);
    assert_eq!(s.latency, 12);
    assert_eq!(s.devices.len(), 1);
    set_connection_status(&mut ui, ConnectionStatus::default());
    assert!(get_peer_status(&ui).devices.is_empty());
}

#[test]
fn own_device_is_left_out() {
    let mut ui = WebUi::default();
    set_local_info(&mut ui, "alice", "10.10.0.2", "");
    update_online_devices(
        &mut ui,
        vec![
            device("bob", "10.10.0.3", true),
            device("alice", "10.10.0.2", true),
            device("carol", "10.10.0.4", false),
        ],
    );
    let devices = get_peer_status(&ui).devices;
    assert_eq!(devices.len(), 2);
    assert_eq!(devices[0].client_id, "bob");
    assert_eq!(devices[0].ip, "10.10.0.3");
    assert!(devices[0].alive);
    assert_eq!(devices[1].client_id, "carol");
    assert!(!devices[1].alive);
}

#[test]
fn trigger_is_handed_out_once() {
    let mut ui = WebUi::default();
    assert_eq!(get_p2p_trigger(&mut ui), None);
    set_p2p_trigger(&mut ui, "first".to_string());
    set_p2p_trigger(&mut ui, "second".to_string());
    assert_eq!(get_p2p_trigger(&mut ui), Some("second".to_string()));
    assert_eq!(get_p2p_trigger(&mut ui), None);
}

#[test]
fn short_codes_are_refused() {
    let mut ui = WebUi::default();
    for code in ["", "1234567", "连接"] {
        let reply = connect(&mut ui, request(code));
        assert_eq!(reply.code, -1);
        assert_eq!(reply.message, "连接码无效，请输入正确的连接码");
    }
    assert_eq!(get_p2p_trigger(&mut ui), None);
    assert!(!get_peer_status(&ui).is_connecting);
}

#[test]
fn code_of_eight_bytes_is_accepted() {
    for code in ["12345678", "连接码"] {
        let mut ui = WebUi::default();
        set_connection_status(
            &mut ui,
            ConnectionStatus { connect_failed: true, ..ConnectionStatus::default() },
        );
        let reply = connect(&mut ui, request(code));
        assert_eq!(reply.code, 0);
        assert_eq!(reply.message, "正在建立 P2P 连接...");
        let s = get_peer_status(&ui);
        assert!(s.is_connecting && !s.connect_failed);
        assert_eq!(s.connect_message, "正在建立 P2P 连接...");
        assert_eq!(s.status_text, "正在连接...");
        assert_eq!(get_p2p_trigger(&mut ui), Some(code.to_string()));
    }
}

#[test]
fn ports_are_tried_in_order() {
    let mut search = PortSearch::start();
    for port in [8080, 8081, 8082, 8083, 8084, 8085, 9000, 9001] {
        assert_eq!(search.next_port(), Some(port));
        assert_eq!(search.advance(true), PortSearch::Done { port });
        search = search.advance(false);
    }
    assert_eq!(search, PortSearch::Done { port: 8080 });
    assert_eq!(search.next_port(), None);
    assert_eq!(search.advance(true), search);
}

#[test]
fn port_is_recorded() {
    let mut ui = WebUi::default();
    set_webui_port(&mut ui, 9001);
    assert_eq!(get_webui_port(&ui), 9001);
}

#[test]
fn browser_is_opened_once() {
    let mut ui = WebUi::default();
    assert!(claim_browser(&mut ui));
    assert!(!claim_browser(&mut ui));
    assert!(!claim_browser(&mut ui));
}

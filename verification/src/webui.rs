//! What the control panel of a client shows, and what its requests change.

use vstd::prelude::*;
use vstd::utf8::encode_utf8;

verus! {

/// A request to connect to the client named `target_id`.
#[derive(Debug)]
pub struct ConnectRequest {
    pub target_id: String,
}

/// How the connection of this client stands.
#[derive(Clone, Debug)]
pub struct ConnectionStatus {
    pub mode: String,
    pub mode_code: u8,
    pub is_connected: bool,
    pub status_text: String,
    pub is_connecting: bool,
    pub connect_failed: bool,
    pub connect_message: String,
    pub peer_ip: String,
    pub peer_latency: i32,
    pub online_devices: Vec<OnlineDevice>,
}

/// A client that the server knows.
#[derive(Clone, Debug)]
pub struct OnlineDevice {
    pub client_id: String,
    pub vip: String,
    pub is_online: bool,
}

/// What this client knows of itself.
#[derive(Clone, Debug)]
pub struct LocalDeviceInfo {
    pub client_id: String,
    pub vip: String,
    pub nat_type: String,
}

/// Everything that the control panel keeps.
#[derive(Debug)]
pub struct WebUi {
    local_info: LocalDeviceInfo,
    status: ConnectionStatus,
    p2p_trigger: Option<String>,
    port: u16,
    browser_opened: bool,
}

/// The port of the control panel unless another one was found.
pub const DEFAULT_PORT: u16 = 8080;

/// The fewest bytes that a connection code has.
pub const MIN_CODE_LEN: usize = 8;

pub struct ConnectionStatusView {
    pub mode: Seq<char>,
    pub mode_code: u8,
    pub is_connected: bool,
    pub status_text: Seq<char>,
    pub is_connecting: bool,
    pub connect_failed: bool,
    pub connect_message: Seq<char>,
    pub peer_ip: Seq<char>,
    pub peer_latency: i32,
    pub online_devices: Seq<OnlineDeviceView>,
}

pub struct OnlineDeviceView {
    pub client_id: Seq<char>,
    pub vip: Seq<char>,
    pub is_online: bool,
}

pub struct LocalDeviceInfoView {
    pub client_id: Seq<char>,
    pub vip: Seq<char>,
    pub nat_type: Seq<char>,
}

pub struct WebUiView {
    pub local_info: LocalDeviceInfoView,
    pub status: ConnectionStatusView,
    pub p2p_trigger: Option<Seq<char>>,
    pub port: u16,
    pub browser_opened: bool,
}

/// The views of a list of devices.
pub open spec fn devices_view(devices: Seq<OnlineDevice>) -> Seq<OnlineDeviceView> {
    devices.map_values(|d: OnlineDevice| d@)
}

impl View for OnlineDevice {
    type V = OnlineDeviceView;

    open spec fn view(&self) -> OnlineDeviceView {
        OnlineDeviceView {
            client_id: self.client_id@,
            vip: self.vip@,
            is_online: self.is_online,
        }
    }
}

impl View for LocalDeviceInfo {
    type V = LocalDeviceInfoView;

    open spec fn view(&self) -> LocalDeviceInfoView {
        LocalDeviceInfoView {
            client_id: self.client_id@,
            vip: self.vip@,
            nat_type: self.nat_type@,
        }
    }
}

impl View for ConnectionStatus {
    type V = ConnectionStatusView;

    open spec fn view(&self) -> ConnectionStatusView {
        ConnectionStatusView {
            mode: self.mode@,
            mode_code: self.mode_code,
            is_connected: self.is_connected,
            status_text: self.status_text@,
            is_connecting: self.is_connecting,
            connect_failed: self.connect_failed,
            connect_message: self.connect_message@,
            peer_ip: self.peer_ip@,
            peer_latency: self.peer_latency,
            online_devices: devices_view(self.online_devices@),
        }
    }
}

impl View for WebUi {
    type V = WebUiView;

    closed spec fn view(&self) -> WebUiView {
        WebUiView {
            local_info: self.local_info@,
            status: self.status@,
            p2p_trigger: match self.p2p_trigger {
                Some(id) => Some(id@),
                None => None,
            },
            port: self.port,
            browser_opened: self.browser_opened,
        }
    }
}

/// A status with nothing in it: no text, no flag, no device.
pub open spec fn empty_status() -> ConnectionStatusView {
    ConnectionStatusView {
        mode: Seq::empty(),
        mode_code: 0,
        is_connected: false,
        status_text: Seq::empty(),
        is_connecting: false,
        connect_failed: false,
        connect_message: Seq::empty(),
        peer_ip: Seq::empty(),
        peer_latency: 0,
        online_devices: Seq::empty(),
    }
}

pub open spec fn empty_device() -> OnlineDeviceView {
    OnlineDeviceView { client_id: Seq::empty(), vip: Seq::empty(), is_online: false }
}

pub open spec fn empty_local_info() -> LocalDeviceInfoView {
    LocalDeviceInfoView { client_id: Seq::empty(), vip: Seq::empty(), nat_type: Seq::empty() }
}

impl Default for ConnectionStatus {
    fn default() -> (r: Self)
        ensures
            r@ == empty_status(),
    {
        let r = ConnectionStatus {
            mode: String::new(),
            mode_code: 0,
            is_connected: false,
            status_text: String::new(),
            is_connecting: false,
            connect_failed: false,
            connect_message: String::new(),
            peer_ip: String::new(),
            peer_latency: 0,
            online_devices: Vec::new(),
        };
        assert(r@.online_devices =~= Seq::empty());
        r
    }
}

impl Default for OnlineDevice {
    fn default() -> (r: Self)
        ensures
            r@ == empty_device(),
    {
        OnlineDevice { client_id: String::new(), vip: String::new(), is_online: false }
    }
}

impl Default for LocalDeviceInfo {
    fn default() -> (r: Self)
        ensures
            r@ == empty_local_info(),
    {
        LocalDeviceInfo { client_id: String::new(), vip: String::new(), nat_type: String::new() }
    }
}

impl Default for WebUi {
    /// A panel that has been told nothing yet.
    fn default() -> (r: Self)
        ensures
            r@ == (WebUiView {
                local_info: empty_local_info(),
                status: empty_status(),
                p2p_trigger: None,
                port: DEFAULT_PORT,
                browser_opened: false,
            }),
    {
        WebUi {
            local_info: LocalDeviceInfo::default(),
            status: ConnectionStatus::default(),
            p2p_trigger: None,
            port: DEFAULT_PORT,
            browser_opened: false,
        }
    }
}

/// Tells the panel who this client is.
pub fn set_local_info(ui: &mut WebUi, client_id: &str, vip: &str, nat_type: &str)
    ensures
        final(ui)@ == (WebUiView {
            local_info: LocalDeviceInfoView {
                client_id: client_id@,
                vip: vip@,
                nat_type: nat_type@,
            },
            ..old(ui)@
        }),
{
    ui.local_info = LocalDeviceInfo {
        client_id: client_id.to_owned(),
        vip: vip.to_owned(),
        nat_type: nat_type.to_owned(),
    };
}

/// Replaces the whole connection status, the list of devices with it.
pub fn set_connection_status(ui: &mut WebUi, status: ConnectionStatus)
    ensures
        final(ui)@ == (WebUiView { status: status@, ..old(ui)@ }),
{
    ui.status = status;
}

/// Replaces the list of devices that are online.
pub fn update_online_devices(ui: &mut WebUi, devices: Vec<OnlineDevice>)
    ensures
        final(ui)@ == (WebUiView {
            status: ConnectionStatusView {
                online_devices: devices_view(devices@),
                ..old(ui)@.status
            },
            ..old(ui)@
        }),
{
    ui.status.online_devices = devices;
}

/// The panel after the client was asked to connect to `target_id`.
pub open spec fn trigger_set(ui: WebUiView, target_id: Seq<char>) -> WebUiView {
    WebUiView { p2p_trigger: Some(target_id), ..ui }
}

/// The panel after the connection that was asked for was handed out.
pub open spec fn trigger_taken(ui: WebUiView) -> WebUiView {
    WebUiView { p2p_trigger: None, ..ui }
}

/// What was asked for last is handed out once, and nothing else of the panel changes.
pub proof fn law_trigger_handed_out_once(ui: WebUiView, earlier: Seq<char>, target_id: Seq<char>)
    ensures
        trigger_set(trigger_set(ui, earlier), target_id).p2p_trigger == Some(target_id),
        trigger_taken(trigger_set(ui, target_id)).p2p_trigger is None,
        trigger_taken(trigger_set(ui, target_id)) == trigger_taken(ui),
{
}

/// Asks the client to connect to `target_id`, in place of whatever was asked for before.
pub fn set_p2p_trigger(ui: &mut WebUi, target_id: String)
    ensures
        final(ui)@ == trigger_set(old(ui)@, target_id@),
        final(ui)@.p2p_trigger == Some(target_id@),
        final(ui)@.local_info == old(ui)@.local_info,
        final(ui)@.status == old(ui)@.status,
        final(ui)@.port == old(ui)@.port,
        final(ui)@.browser_opened == old(ui)@.browser_opened,
{
    ui.p2p_trigger = Some(target_id);
}

/// Hands out the connection that was asked for, and forgets it.
pub fn get_p2p_trigger(ui: &mut WebUi) -> (target: Option<String>)
    ensures
        final(ui)@ == trigger_taken(old(ui)@),
        final(ui)@.p2p_trigger is None,
        final(ui)@.local_info == old(ui)@.local_info,
        final(ui)@.status == old(ui)@.status,
        final(ui)@.port == old(ui)@.port,
        final(ui)@.browser_opened == old(ui)@.browser_opened,
        match target {
            Some(id) => old(ui)@.p2p_trigger == Some(id@),
            None => old(ui)@.p2p_trigger is None,
        },
{
    let target: Option<String> = ui.p2p_trigger.take();
    target
}

/// The port that the panel listens on.
pub fn get_webui_port(ui: &WebUi) -> (port: u16)
    ensures
        port == ui@.port,
{
    ui.port
}

/// What the panel answers when asked for this device.
#[derive(Debug)]
pub struct DeviceReply {
    pub client_id: String,
    pub ip: String,
    pub nat_type: String,
}

/// A device in an answer of the panel.
#[derive(Debug)]
pub struct DeviceEntry {
    pub client_id: String,
    pub ip: String,
    pub alive: bool,
}

/// What the panel answers when asked for the connection: the peer, the other devices that
/// are online, and the state of the connection.
#[derive(Debug)]
pub struct PeerStatusReply {
    pub device: DeviceEntry,
    pub latency: i32,
    pub devices: Vec<DeviceEntry>,
    pub mode: String,
    pub mode_code: u8,
    pub is_connected: bool,
    pub is_connecting: bool,
    pub connect_failed: bool,
    pub connect_message: String,
    pub status_text: String,
}

/// What the panel answers to a request to connect: code 0 where it was accepted.
#[derive(Debug)]
pub struct ConnectReply {
    pub code: i32,
    pub message: String,
}

pub struct DeviceEntryView {
    pub client_id: Seq<char>,
    pub ip: Seq<char>,
    pub alive: bool,
}

impl View for DeviceEntry {
    type V = DeviceEntryView;

    open spec fn view(&self) -> DeviceEntryView {
        DeviceEntryView { client_id: self.client_id@, ip: self.ip@, alive: self.alive }
    }
}

/// What is shown of a device.
pub open spec fn device_entry(d: OnlineDeviceView) -> DeviceEntryView {
    DeviceEntryView { client_id: d.client_id, ip: d.vip, alive: d.is_online }
}

/// The devices other than the one named `own_id`, in their order, as they are shown.
pub open spec fn other_devices(
    devices: Seq<OnlineDeviceView>,
    own_id: Seq<char>,
) -> Seq<DeviceEntryView> {
    devices.filter(|d: OnlineDeviceView| d.client_id != own_id).map_values(
        |d: OnlineDeviceView| device_entry(d),
    )
}

pub open spec fn entries_view(entries: Seq<DeviceEntry>) -> Seq<DeviceEntryView> {
    entries.map_values(|e: DeviceEntry| e@)
}

/// What the panel knows of this device.
pub fn get_device(ui: &WebUi) -> (reply: DeviceReply)
    ensures
        reply.client_id@ == ui@.local_info.client_id,
        reply.ip@ == ui@.local_info.vip,
        reply.nat_type@ == ui@.local_info.nat_type,
{
    DeviceReply {
        client_id: ui.local_info.client_id.clone(),
        ip: ui.local_info.vip.clone(),
        nat_type: ui.local_info.nat_type.clone(),
    }
}

/// The devices of a list other than the one named `own_id`.
fn list_other_devices(devices: &Vec<OnlineDevice>, own_id: &String) -> (r: Vec<DeviceEntry>)
    ensures
        entries_view(r@) == other_devices(devices_view(devices@), own_id@),
{
    let ghost all = devices_view(devices@);
    let ghost is_other = |d: OnlineDeviceView| d.client_id != own_id@;
    let mut r: Vec<DeviceEntry> = Vec::new();
    let mut i: usize = 0;
    assert(entries_view(r@) =~= other_devices(all.take(0), own_id@));
    while i < devices.len()
        invariant
            i <= devices@.len(),
            all == devices_view(devices@),
            is_other == (|d: OnlineDeviceView| d.client_id != own_id@),
            entries_view(r@) == other_devices(all.take(i as int), own_id@),
        decreases devices@.len() - i,
    {
        let d = &devices[i];
        let ghost before = r@;
        proof {
            reveal_with_fuel(Seq::filter, 2);
            assert(all.take(i + 1).drop_last() =~= all.take(i as int));
            assert(all.take(i + 1).last() == d@);
        }
        if d.client_id != *own_id {
            r.push(
                DeviceEntry { client_id: d.client_id.clone(), ip: d.vip.clone(), alive: d.is_online },
            );
            assert(entries_view(r@) =~= entries_view(before).push(device_entry(d@)));
            assert(all.take(i + 1).filter(is_other) =~= all.take(i as int).filter(is_other).push(d@));
        }
        i = i + 1;
        assert(entries_view(r@) =~= other_devices(all.take(i as int), own_id@));
    }
    assert(all.take(i as int) =~= all);
    r
}

/// How the connection stands, and which other devices are online. This device is left out
/// of the list.
pub fn get_peer_status(ui: &WebUi) -> (reply: PeerStatusReply)
    ensures
        reply.device@ == (DeviceEntryView {
            client_id: Seq::empty(),
            ip: ui@.status.peer_ip,
            alive: ui@.status.is_connected,
        }),
        reply.latency == ui@.status.peer_latency,
        entries_view(reply.devices@) == other_devices(
            ui@.status.online_devices,
            ui@.local_info.client_id,
        ),
        reply.mode@ == ui@.status.mode,
        reply.mode_code == ui@.status.mode_code,
        reply.is_connected == ui@.status.is_connected,
        reply.is_connecting == ui@.status.is_connecting,
        reply.connect_failed == ui@.status.connect_failed,
        reply.connect_message@ == ui@.status.connect_message,
        reply.status_text@ == ui@.status.status_text,
{
    PeerStatusReply {
        device: DeviceEntry {
            client_id: String::new(),
            ip: ui.status.peer_ip.clone(),
            alive: ui.status.is_connected,
        },
        latency: ui.status.peer_latency,
        devices: list_other_devices(&ui.status.online_devices, &ui.local_info.client_id),
        mode: ui.status.mode.clone(),
        mode_code: ui.status.mode_code,
        is_connected: ui.status.is_connected,
        is_connecting: ui.status.is_connecting,
        connect_failed: ui.status.connect_failed,
        connect_message: ui.status.connect_message.clone(),
        status_text: ui.status.status_text.clone(),
    }
}

/// Whether `id` can be a connection code: it has enough bytes.
pub open spec fn valid_code(id: Seq<char>) -> bool {
    encode_utf8(id).len() >= MIN_CODE_LEN
}

/// The panel after a request to connect to `target_id` was accepted.
pub open spec fn connecting(ui: WebUiView, target_id: Seq<char>) -> WebUiView {
    WebUiView {
        p2p_trigger: Some(target_id),
        status: ConnectionStatusView {
            is_connecting: true,
            connect_message: "正在建立 P2P 连接..."@,
            status_text: "正在连接..."@,
            connect_failed: false,
            ..ui.status
        },
        ..ui
    }
}

/// Takes a request to connect. A code that is too short is refused and changes nothing;
/// any other is kept for the client to act on.
pub fn connect(ui: &mut WebUi, request: ConnectRequest) -> (reply: ConnectReply)
    ensures
        valid_code(request.target_id@) ==> {
            &&& reply.code == 0
            &&& reply.message@ == "正在建立 P2P 连接..."@
            &&& final(ui)@ == connecting(old(ui)@, request.target_id@)
            &&& final(ui)@.p2p_trigger == Some(request.target_id@)
            &&& final(ui)@.status.is_connecting
            &&& !final(ui)@.status.connect_failed
        },
        !valid_code(request.target_id@) ==> {
            &&& reply.code == -1
            &&& reply.message@ == "连接码无效，请输入正确的连接码"@
            &&& final(ui)@ == old(ui)@
        },
        reply.code == 0 <==> encode_utf8(request.target_id@).len() >= 8,
{
    if request.target_id.as_str().as_bytes().len() < MIN_CODE_LEN {
        return ConnectReply { code: -1, message: "连接码无效，请输入正确的连接码".to_owned() };
    }
    set_p2p_trigger(ui, request.target_id);
    ui.status.is_connecting = true;
    ui.status.connect_message = "正在建立 P2P 连接...".to_owned();
    ui.status.status_text = "正在连接...".to_owned();
    ui.status.connect_failed = false;
    ConnectReply { code: 0, message: "正在建立 P2P 连接...".to_owned() }
}

/// The search for a port that the panel can listen on: which candidate is to be tried next,
/// or which port was settled on.
#[derive(Clone, Copy, Debug, PartialEq, Eq, Structural)]
pub enum PortSearch {
    Trying { index: u8 },
    Done { port: u16 },
}

/// How many ports are tried.
pub const CANDIDATES: u8 = 8;

/// The ports that are tried, by their place in the order.
pub open spec fn spec_candidate(index: int) -> u16 {
    if index < 6 {
        (8080 + index) as u16
    } else {
        (9000 + index - 6) as u16
    }
}

fn candidate(index: u8) -> (port: u16)
    requires
        index < CANDIDATES,
    ensures
        port == spec_candidate(index as int),
{
    match index {
        0 => 8080,
        1 => 8081,
        2 => 8082,
        3 => 8083,
        4 => 8084,
        5 => 8085,
        6 => 9000,
        _ => 9001,
    }
}

impl PortSearch {
    /// While the search lasts, there is a candidate left to try.
    pub open spec fn wf(self) -> bool {
        self matches PortSearch::Trying { index } ==> index < CANDIDATES
    }

    /// The search after the answer whether the candidate could be bound.
    pub open spec fn spec_advance(self, bound: bool) -> PortSearch {
        match self {
            PortSearch::Done { port } => PortSearch::Done { port },
            PortSearch::Trying { index } => if bound {
                PortSearch::Done { port: spec_candidate(index as int) }
            } else if index + 1 < CANDIDATES {
                PortSearch::Trying { index: (index + 1) as u8 }
            } else {
                PortSearch::Done { port: DEFAULT_PORT }
            },
        }
    }

    /// The search before any port was tried.
    pub fn start() -> (r: PortSearch)
        ensures
            r == (PortSearch::Trying { index: 0 }),
            r.wf(),
    {
        PortSearch::Trying { index: 0 }
    }

    /// The port to try next, if the search is not over.
    pub fn next_port(&self) -> (port: Option<u16>)
        requires
            self.wf(),
        ensures
            port == match *self {
                PortSearch::Trying { index } => Some(spec_candidate(index as int)),
                PortSearch::Done { .. } => None,
            },
    {
        match self {
            PortSearch::Trying { index } => Some(candidate(*index)),
            PortSearch::Done { .. } => None,
        }
    }

    /// Goes on with the answer whether the candidate could be bound.
    pub fn advance(self, bound: bool) -> (r: PortSearch)
        requires
            self.wf(),
        ensures
            r == self.spec_advance(bound),
            r.wf(),
    {
        match self {
            PortSearch::Done { port } => PortSearch::Done { port },
            PortSearch::Trying { index } => if bound {
                PortSearch::Done { port: candidate(index) }
            } else if index + 1 < CANDIDATES {
                PortSearch::Trying { index: index + 1 }
            } else {
                PortSearch::Done { port: DEFAULT_PORT }
            },
        }
    }
}

/// The search after a row of answers.
pub open spec fn search_after(search: PortSearch, answers: Seq<bool>) -> PortSearch
    decreases answers.len(),
{
    if answers.len() == 0 {
        search
    } else {
        search_after(search, answers.drop_last()).spec_advance(answers.last())
    }
}

/// The search settles on the first candidate that can be bound.
pub proof fn law_first_bindable_port(answers: Seq<bool>, n: int)
    requires
        0 <= n < answers.len() <= CANDIDATES,
        answers[n],
        forall|i: int| 0 <= i < n ==> !answers[i],
    ensures
        search_after(PortSearch::Trying { index: 0 }, answers) == (PortSearch::Done {
            port: spec_candidate(n),
        }),
    decreases answers.len(),
{
    if n + 1 < answers.len() {
        law_first_bindable_port(answers.drop_last(), n);
    } else {
        lemma_search_goes_on(answers.drop_last());
    }
}

proof fn lemma_search_goes_on(answers: Seq<bool>)
    requires
        answers.len() < CANDIDATES,
        forall|i: int| 0 <= i < answers.len() ==> !answers[i],
    ensures
        search_after(PortSearch::Trying { index: 0 }, answers) == (PortSearch::Trying {
            index: answers.len() as u8,
        }),
    decreases answers.len(),
{
    if answers.len() > 0 {
        lemma_search_goes_on(answers.drop_last());
        assert(!answers.last());
    }
}

/// Where no candidate can be bound, the search ends with the default port.
pub proof fn law_no_bindable_port(answers: Seq<bool>)
    requires
        answers.len() == CANDIDATES,
        forall|i: int| 0 <= i < answers.len() ==> !answers[i],
    ensures
        search_after(PortSearch::Trying { index: 0 }, answers) == (PortSearch::Done {
            port: DEFAULT_PORT,
        }),
{
    lemma_search_goes_on(answers.drop_last());
    assert(!answers.last());
}

/// Records the port that the panel listens on.
pub fn set_webui_port(ui: &mut WebUi, port: u16)
    ensures
        final(ui)@ == (WebUiView { port, ..old(ui)@ }),
{
    ui.port = port;
}

/// Whether the caller is to open a browser: true the first time, and never again.
pub fn claim_browser(ui: &mut WebUi) -> (first: bool)
    ensures
        first == !old(ui)@.browser_opened,
        final(ui)@ == (WebUiView { browser_opened: true, ..old(ui)@ }),
{
    let first: bool = !ui.browser_opened;
    ui.browser_opened = true;
    first
}

/// A device never finds itself among the others, and finds every other one that is online.
pub proof fn law_own_device_left_out(devices: Seq<OnlineDeviceView>, own_id: Seq<char>, i: int)
    requires
        0 <= i < devices.len(),
    ensures
        devices[i].client_id != own_id ==> other_devices(devices, own_id).contains(
            device_entry(devices[i]),
        ),
        forall|k: int|
            0 <= k < other_devices(devices, own_id).len() ==> #[trigger] other_devices(
                devices,
                own_id,
            )[k].client_id != own_id,
{
    let keep = |d: OnlineDeviceView| d.client_id != own_id;
    let kept = devices.filter(keep);
    broadcast use vstd::seq_lib::group_filter_ensures;

    assert forall|k: int| 0 <= k < other_devices(devices, own_id).len() implies #[trigger]
        other_devices(devices, own_id)[k].client_id != own_id by {
        assert(keep(kept[k]));
    }
    if devices[i].client_id != own_id {
        assert(keep(devices[i]));
        assert(kept.contains(devices[i]));
        let k = choose|k: int| 0 <= k < kept.len() && kept[k] == devices[i];
        assert(other_devices(devices, own_id)[k] == device_entry(devices[i]));
    }
}

/// A request is accepted exactly if its code has eight bytes or more. It is then what the client is
/// to act on, and the panel shows that a connection is made; nothing else of the panel changes.
pub proof fn law_accepted_request(ui: WebUiView, target_id: Seq<char>)
    ensures
        valid_code(target_id) <==> encode_utf8(target_id).len() >= 8,
        ({
            let after = connecting(ui, target_id);
            &&& after.p2p_trigger == Some(target_id)
            &&& after.status.is_connecting
            &&& !after.status.connect_failed
            &&& after.status.connect_message == "正在建立 P2P 连接..."@
            &&& after.status.status_text == "正在连接..."@
            &&& after.status.mode == ui.status.mode
            &&& after.status.mode_code == ui.status.mode_code
            &&& after.status.is_connected == ui.status.is_connected
            &&& after.status.peer_ip == ui.status.peer_ip
            &&& after.status.peer_latency == ui.status.peer_latency
            &&& after.status.online_devices == ui.status.online_devices
            &&& after.local_info == ui.local_info
            &&& after.port == ui.port
            &&& after.browser_opened == ui.browser_opened
        }),
{
}

/// The list of other devices grows by every device that is not this one, at its end and with its
/// identity, its address and whether it is online; this one adds nothing.
pub proof fn law_devices_are_listed_in_order(
    devices: Seq<OnlineDeviceView>,
    own_id: Seq<char>,
    d: OnlineDeviceView,
)
    ensures
        other_devices(Seq::empty(), own_id).len() == 0,
        d.client_id == own_id ==> other_devices(devices.push(d), own_id) == other_devices(
            devices,
            own_id,
        ),
        d.client_id != own_id ==> {
            let before = other_devices(devices, own_id);
            let after = other_devices(devices.push(d), own_id);
            &&& after.len() == before.len() + 1
            &&& after.drop_last() == before
            &&& after.last().client_id == d.client_id
            &&& after.last().ip == d.vip
            &&& after.last().alive == d.is_online
        },
{
    reveal(Seq::filter);
    assert(devices.push(d).drop_last() =~= devices);
    let before = other_devices(devices, own_id);
    let after = other_devices(devices.push(d), own_id);
    if d.client_id != own_id {
        assert(after.drop_last() =~= before);
    }
}

/// The ports are tried in their order, and a search that is over stays as it is.
pub proof fn law_candidate_ports(port: u16, bound: bool)
    ensures
        CANDIDATES == 8,
        spec_candidate(0) == 8080,
        spec_candidate(1) == 8081,
        spec_candidate(2) == 8082,
        spec_candidate(3) == 8083,
        spec_candidate(4) == 8084,
        spec_candidate(5) == 8085,
        spec_candidate(6) == 9000,
        spec_candidate(7) == 9001,
        (PortSearch::Done { port }).spec_advance(bound) == (PortSearch::Done { port }),
{
}

/// The models of what the panel keeps and shows hold all that is in them.
pub proof fn law_panel_views(
    d: OnlineDevice,
    e: DeviceEntry,
    l: LocalDeviceInfo,
    s: ConnectionStatus,
    devices: Seq<OnlineDevice>,
    entries: Seq<DeviceEntry>,
    i: int,
)
    ensures
        d@.client_id == d.client_id@,
        d@.vip == d.vip@,
        d@.is_online == d.is_online,
        e@.client_id == e.client_id@,
        e@.ip == e.ip@,
        e@.alive == e.alive,
        l@.client_id == l.client_id@,
        l@.vip == l.vip@,
        l@.nat_type == l.nat_type@,
        s@.mode == s.mode@,
        s@.mode_code == s.mode_code,
        s@.is_connected == s.is_connected,
        s@.status_text == s.status_text@,
        s@.is_connecting == s.is_connecting,
        s@.connect_failed == s.connect_failed,
        s@.connect_message == s.connect_message@,
        s@.peer_ip == s.peer_ip@,
        s@.peer_latency == s.peer_latency,
        s@.online_devices == devices_view(s.online_devices@),
        devices_view(devices).len() == devices.len(),
        0 <= i < devices.len() ==> devices_view(devices)[i] == devices[i]@,
        entries_view(entries).len() == entries.len(),
        0 <= i < entries.len() ==> entries_view(entries)[i] == entries[i]@,
{
}

/// What is empty has no text, no flag and no device.
pub proof fn law_empty_panel()
    ensures
        empty_status().mode.len() == 0,
        empty_status().mode_code == 0,
        !empty_status().is_connected,
        empty_status().status_text.len() == 0,
        !empty_status().is_connecting,
        !empty_status().connect_failed,
        empty_status().connect_message.len() == 0,
        empty_status().peer_ip.len() == 0,
        empty_status().peer_latency == 0,
        empty_status().online_devices.len() == 0,
        empty_device().client_id.len() == 0,
        empty_device().vip.len() == 0,
        !empty_device().is_online,
        empty_local_info().client_id.len() == 0,
        empty_local_info().vip.len() == 0,
        empty_local_info().nat_type.len() == 0,
        DEFAULT_PORT == 8080,
        MIN_CODE_LEN == 8,
{
}

} // verus!

//! How the virtual network device of a node is set up.

use vstd::prelude::*;
use crate::addr::Ipv4Addr;
use crate::text::starts_with;

verus! {

/// The operating systems whose devices differ.
#[derive(Clone, Copy, Debug, PartialEq, Eq, Structural)]
pub enum Platform {
    Linux,
    MacOs,
    Windows,
    Other,
}

/// What a virtual network device is set up with.
#[derive(Debug)]
pub struct TunSettings {
    pub address: Ipv4Addr,
    pub netmask: Ipv4Addr,
    /// The far end of the device, where one is set.
    pub destination: Option<Ipv4Addr>,
    /// The name of the device, where the system does not choose it.
    pub name: Option<String>,
    /// Whether packets come with a header of the device.
    pub packet_information: bool,
}

pub struct TunSettingsView {
    pub address: Ipv4Addr,
    pub netmask: Ipv4Addr,
    pub destination: Option<Ipv4Addr>,
    pub name: Option<Seq<char>>,
    pub packet_information: bool,
}

pub open spec fn name_view(name: Option<String>) -> Option<Seq<char>> {
    match name {
        Some(n) => Some(n@),
        None => None,
    }
}

impl View for TunSettings {
    type V = TunSettingsView;

    open spec fn view(&self) -> TunSettingsView {
        TunSettingsView {
            address: self.address,
            netmask: self.netmask,
            destination: self.destination,
            name: name_view(self.name),
            packet_information: self.packet_information,
        }
    }
}

/// The mask of every virtual network: 255.255.255.0.
pub open spec fn net_mask() -> Ipv4Addr {
    Ipv4Addr { a: 255, b: 255, c: 255, d: 0 }
}

/// The far end of the device of a client: 10.10.0.1.
pub open spec fn gateway() -> Ipv4Addr {
    Ipv4Addr { a: 10, b: 10, c: 0, d: 1 }
}

/// The name that a client gives its device: on macOS only one that begins with `utun`.
pub open spec fn client_device_name(name: Option<Seq<char>>, platform: Platform) -> Option<
    Seq<char>,
> {
    match name {
        Some(n) => if platform == Platform::MacOs && !"utun"@.is_prefix_of(n) {
            None
        } else {
            Some(n)
        },
        None => None,
    }
}

fn copy_name(name: &Option<String>) -> (r: Option<String>)
    ensures
        name_view(r) == name_view(*name),
{
    match name {
        Some(n) => Some(n.clone()),
        None => None,
    }
}

/// The device of the server at `ip`.
pub fn server_tun(tun_name: &Option<String>, ip: Ipv4Addr, platform: Platform) -> (r: TunSettings)
    ensures
        r@ == (TunSettingsView {
            address: ip,
            netmask: net_mask(),
            destination: if platform == Platform::Windows {
                None
            } else {
                Some(ip)
            },
            name: name_view(*tun_name),
            packet_information: platform == Platform::Linux,
        }),
{
    TunSettings {
        address: ip,
        netmask: Ipv4Addr { a: 255, b: 255, c: 255, d: 0 },
        destination: if platform == Platform::Windows {
            None
        } else {
            Some(ip)
        },
        name: copy_name(tun_name),
        packet_information: platform == Platform::Linux,
    }
}

/// The device of a server that only relays, at `ip`: it has no far end.
pub fn basic_server_tun(tun_name: &Option<String>, ip: Ipv4Addr, platform: Platform) -> (r:
    TunSettings)
    ensures
        r@ == (TunSettingsView {
            address: ip,
            netmask: net_mask(),
            destination: None,
            name: name_view(*tun_name),
            packet_information: platform == Platform::Linux,
        }),
{
    TunSettings {
        address: ip,
        netmask: Ipv4Addr { a: 255, b: 255, c: 255, d: 0 },
        destination: None,
        name: copy_name(tun_name),
        packet_information: platform == Platform::Linux,
    }
}

/// The device of a client at `ip`.
pub fn client_tun(tun_name: &Option<String>, ip: Ipv4Addr, platform: Platform) -> (r: TunSettings)
    ensures
        r@ == (TunSettingsView {
            address: ip,
            netmask: net_mask(),
            destination: if platform == Platform::Windows {
                None
            } else {
                Some(gateway())
            },
            name: client_device_name(name_view(*tun_name), platform),
            packet_information: platform == Platform::Linux,
        }),
{
    let name: Option<String> = match tun_name {
        Some(n) => if platform == Platform::MacOs && !starts_with(n.as_str(), "utun") {
            None
        } else {
            Some(n.clone())
        },
        None => None,
    };
    TunSettings {
        address: ip,
        netmask: Ipv4Addr { a: 255, b: 255, c: 255, d: 0 },
        destination: if platform == Platform::Windows {
            None
        } else {
            Some(Ipv4Addr { a: 10, b: 10, c: 0, d: 1 })
        },
        name,
        packet_information: platform == Platform::Linux,
    }
}

/// A client gives its device the name that was configured; but on macOS, where such names begin
/// with `utun`, it leaves any other name to the system.
pub proof fn law_client_device_name(name: Seq<char>, rest: Seq<char>, platform: Platform)
    ensures
        client_device_name(None, platform) is None,
        platform != Platform::MacOs ==> client_device_name(Some(name), platform) == Some(name),
        client_device_name(Some("utun"@ + rest), platform) == Some("utun"@ + rest),
        platform == Platform::MacOs && !"utun"@.is_prefix_of(name) ==> client_device_name(
            Some(name),
            platform,
        ) is None,
{
    assert(("utun"@ + rest).subrange(0, "utun"@.len() as int) =~= "utun"@);
}

/// The models of the settings hold all that is in them, and the addresses are the documented ones.
pub proof fn law_tun_views(t: TunSettings, name: String)
    ensures
        t@.address == t.address,
        t@.netmask == t.netmask,
        t@.destination == t.destination,
        t@.name == name_view(t.name),
        t@.packet_information == t.packet_information,
        name_view(Some(name)) == Some(name@),
        name_view(None) is None,
        net_mask() == (Ipv4Addr { a: 255, b: 255, c: 255, d: 0 }),
        gateway() == (Ipv4Addr { a: 10, b: 10, c: 0, d: 1 }),
{
}

} // verus!

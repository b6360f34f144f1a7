use vstd::prelude::*;
use vstd::string::StringExecFns;
use crate::clock::now_secs;
use crate::text::{dec_rep_signed, i64_dec};

verus! {

/// One network interface as the status probe reports it.
#[derive(Debug)]
pub struct NetworkInterface {
    pub name: String,
    pub status: String,
    pub ipv4: String,
    pub ipv6: String,
    pub mac_address: String,
    pub rx_bytes: u64,
    pub tx_bytes: u64,
}

/// The mathematical image of a `NetworkInterface`.
pub ghost struct NetworkInterfaceView {
    pub name: Seq<char>,
    pub status: Seq<char>,
    pub ipv4: Seq<char>,
    pub ipv6: Seq<char>,
    pub mac_address: Seq<char>,
    pub rx_bytes: u64,
    pub tx_bytes: u64,
}

impl View for NetworkInterface {
    type V = NetworkInterfaceView;

    open spec fn view(&self) -> NetworkInterfaceView {
        NetworkInterfaceView {
            name: self.name@,
            status: self.status@,
            ipv4: self.ipv4@,
            ipv6: self.ipv6@,
            mac_address: self.mac_address@,
            rx_bytes: self.rx_bytes,
            tx_bytes: self.tx_bytes,
        }
    }
}

/// The network status snapshot: the active interface's name, whether it
/// is connected, its address, and the interface table. The probe
/// reports a fixed two-interface topology.
pub fn get_network_status() -> (r: (String, bool, String, Vec<NetworkInterface>))
    ensures
        r.0@ == "eth0"@,
        r.1 == true,
        r.2@ == "192.168.1.100"@,
        r.3@.len() == 2,
        r.3@[0]@ == (NetworkInterfaceView {
            name: "eth0"@,
            status: "connected"@,
            ipv4: "192.168.1.100"@,
            ipv6: "::1"@,
            mac_address: "00:11:22:33:44:55"@,
            rx_bytes: 1024000,
            tx_bytes: 512000,
        }),
        r.3@[1]@ == (NetworkInterfaceView {
            name: "wlan0"@,
            status: "idle"@,
            ipv4: "0.0.0.0"@,
            ipv6: "::"@,
            mac_address: "AA:BB:CC:DD:EE:FF"@,
            rx_bytes: 0,
            tx_bytes: 0,
        }),
{
    let mut interfaces: Vec<NetworkInterface> = Vec::new();
    interfaces.push(
        NetworkInterface {
            name: "eth0".to_owned(),
            status: "connected".to_owned(),
            ipv4: "192.168.1.100".to_owned(),
            ipv6: "::1".to_owned(),
            mac_address: "00:11:22:33:44:55".to_owned(),
            rx_bytes: 1024000,
            tx_bytes: 512000,
        },
    );
    interfaces.push(
        NetworkInterface {
            name: "wlan0".to_owned(),
            status: "idle".to_owned(),
            ipv4: "0.0.0.0".to_owned(),
            ipv6: "::".to_owned(),
            mac_address: "AA:BB:CC:DD:EE:FF".to_owned(),
            rx_bytes: 0,
            tx_bytes: 0,
        },
    );
    ("eth0".to_owned(), true, "192.168.1.100".to_owned(), interfaces)
}

/// The visible Wi-Fi networks: name, signal strength, whether secured.
/// The probe reports a fixed scan result.
pub fn scan_wifi_networks() -> (r: Vec<(String, i32, bool)>)
    ensures
        r@.len() == 3,
        r@[0].0@ == "HomeWifi"@ && r@[0].1 == 85 && r@[0].2 == true,
        r@[1].0@ == "CoffeShopNet"@ && r@[1].1 == 60 && r@[1].2 == false,
        r@[2].0@ == "GuestWifi"@ && r@[2].1 == 45 && r@[2].2 == true,
{
    let mut out: Vec<(String, i32, bool)> = Vec::new();
    out.push(("HomeWifi".to_owned(), 85, true));
    out.push(("CoffeShopNet".to_owned(), 60, false));
    out.push(("GuestWifi".to_owned(), 45, true));
    out
}

/// Connect to a Wi-Fi network. The probe accepts every request.
pub fn connect_network(ssid: &str, password: &str) -> (r: Result<(), String>)
    ensures
        r is Ok,
{
    Ok(())
}

/// The firewall rule table: id, source, destination, ports, action,
/// protocol. The probe reports a fixed two-rule table.
pub fn get_firewall_rules() -> (r: Vec<(String, String, String, String, String, String)>)
    ensures
        r@.len() == 2,
        r@[0].0@ == "rule-001"@ && r@[0].1@ == "any"@ && r@[0].2@ == "any"@ && r@[0].3@ == "22"@
            && r@[0].4@ == "allow"@ && r@[0].5@ == "tcp"@,
        r@[1].0@ == "rule-002"@ && r@[1].1@ == "0.0.0.0/0"@ && r@[1].2@ == "0.0.0.0/0"@
            && r@[1].3@ == "80,443"@ && r@[1].4@ == "allow"@ && r@[1].5@ == "tcp"@,
{
    let mut out: Vec<(String, String, String, String, String, String)> = Vec::new();
    out.push(
        (
            "rule-001".to_owned(),
            "any".to_owned(),
            "any".to_owned(),
            "22".to_owned(),
            "allow".to_owned(),
            "tcp".to_owned(),
        ),
    );
    out.push(
        (
            "rule-002".to_owned(),
            "0.0.0.0/0".to_owned(),
            "0.0.0.0/0".to_owned(),
            "80,443".to_owned(),
            "allow".to_owned(),
            "tcp".to_owned(),
        ),
    );
    out
}

/// Add a firewall rule. Always accepted; the fresh rule id is `rule-`
/// followed by the decimal wall-clock second the rule was created.
pub fn add_firewall_rule(
    source: &str,
    destination: &str,
    port: &str,
    action: &str,
    protocol: &str,
) -> (r: Result<String, String>)
    ensures
        r is Ok,
        r matches Ok(id) ==> exists|ts: i64| id@ == "rule-"@ + dec_rep_signed(ts as int),
{
    let ts = now_secs();
    let mut id = String::new();
    id.append("rule-");
    id.append(i64_dec(ts).as_str());
    proof {
        assert(id@ =~= "rule-"@ + dec_rep_signed(ts as int));
    }
    Ok(id)
}

/// Recent traffic log lines: timestamp, source, destination, protocol,
/// bytes. The probe reports a fixed two-line log.
pub fn get_traffic_logs() -> (r: Vec<(u64, String, String, String, u64)>)
    ensures
        r@.len() == 2,
        r@[0].0 == 1700000000 && r@[0].1@ == "192.168.1.100"@ && r@[0].2@ == "8.8.8.8"@
            && r@[0].3@ == "DNS"@ && r@[0].4 == 512,
        r@[1].0 == 1699999999 && r@[1].1@ == "192.168.1.100"@ && r@[1].2@ == "1.1.1.1"@
            && r@[1].3@ == "HTTP"@ && r@[1].4 == 4096,
{
    let mut out: Vec<(u64, String, String, String, u64)> = Vec::new();
    out.push(
        (
            1700000000,
            "192.168.1.100".to_owned(),
            "8.8.8.8".to_owned(),
            "DNS".to_owned(),
            512,
        ),
    );
    out.push(
        (
            1699999999,
            "192.168.1.100".to_owned(),
            "1.1.1.1".to_owned(),
            "HTTP".to_owned(),
            4096,
        ),
    );
    out
}

/// Set a bandwidth limit in bytes per second. The probe accepts every
/// limit.
pub fn set_bandwidth_limit(limit_bytes: u64) -> (r: Result<(), String>)
    ensures
        r is Ok,
{
    Ok(())
}

} // verus!

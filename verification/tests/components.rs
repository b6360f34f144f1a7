use kiacha_kernel::audit::AuditTrail;
use kiacha_kernel::event_bus::{Event, EventBus};
use kiacha_kernel::network_info::{
    add_firewall_rule, connect_network, get_firewall_rules, get_network_status, get_traffic_logs,
    scan_wifi_networks, set_bandwidth_limit,
};
use kiacha_kernel::payload::encode_spawn_payload;
use kiacha_kernel::sandbox::WasmRuntime;
use kiacha_kernel::system_info::get_devices;
use kiacha_kernel::text::{i64_dec, u64_dec};
use kiacha_kernel::user_manager::{Session, User, UserManager};

fn event(topic: &str, n: u8) -> Event {
    Event {
        event_type: topic.to_string(),
        source: "test".to_string(),
        payload: vec![n],
        timestamp: n as i64,
    }
}

#[test]
fn event_bus_delivers_in_publish_order() {
    let mut bus = EventBus::new(10);
    let rid = bus.subscribe("alerts".to_string());
    bus.publish(event("alerts", 1));
    bus.publish(event("alerts", 2));
    assert_eq!(bus.recv_event(&"alerts".to_string(), rid).unwrap().payload, vec![1]);
    assert_eq!(bus.recv_event(&"alerts".to_string(), rid).unwrap().payload, vec![2]);
    assert!(bus.recv_event(&"alerts".to_string(), rid).is_none());
}

#[test]
fn event_bus_lagging_receiver_loses_oldest() {
    let mut bus = EventBus::new(2);
    let rid = bus.subscribe("alerts".to_string());
    bus.publish(event("alerts", 1));
    bus.publish(event("alerts", 2));
    bus.publish(event("alerts", 3));
    // Capacity 2: the oldest unread event was dropped.
    assert_eq!(bus.recv_event(&"alerts".to_string(), rid).unwrap().payload, vec![2]);
    assert_eq!(bus.recv_event(&"alerts".to_string(), rid).unwrap().payload, vec![3]);
    assert!(bus.recv_event(&"alerts".to_string(), rid).is_none());
}

#[test]
fn event_bus_publish_without_topic_is_silent() {
    let mut bus = EventBus::new(10);
    bus.publish(event("nobody-listens", 1));
    let rid = bus.subscribe("nobody-listens".to_string());
    assert!(bus.recv_event(&"nobody-listens".to_string(), rid).is_none());
}

#[test]
fn event_bus_receivers_are_independent() {
    let mut bus = EventBus::new(10);
    let r1 = bus.subscribe("t".to_string());
    let r2 = bus.subscribe("t".to_string());
    bus.publish(event("t", 7));
    assert_eq!(bus.recv_event(&"t".to_string(), r1).unwrap().payload, vec![7]);
    // Draining one receiver leaves the other's copy untouched.
    assert_eq!(bus.recv_event(&"t".to_string(), r2).unwrap().payload, vec![7]);
    assert!(bus.recv_event(&"t".to_string(), r1).is_none());
}

#[test]
fn event_bus_lists_topics_in_creation_order() {
    let mut bus = EventBus::new(10);
    bus.subscribe("b".to_string());
    bus.subscribe("a".to_string());
    bus.subscribe("b".to_string());
    assert_eq!(bus.get_subscriptions(), vec!["b".to_string(), "a".to_string()]);
}

#[test]
fn sandbox_accepts_valid_header_and_counts_args() {
    let runtime = WasmRuntime::new();
    let valid = [0x00u8, 0x61, 0x73, 0x6d, 0x01, 0x00, 0x00, 0x00, 0xab];
    let args = vec!["--x".to_string(), "y".to_string()];
    assert_eq!(
        runtime.execute(&valid, &args).unwrap(),
        "executed module with 2 argument(s)"
    );
}

#[test]
fn sandbox_refuses_bad_header_and_short_input() {
    let runtime = WasmRuntime::new();
    let bad_magic = [0x00u8, 0x61, 0x73, 0x6e, 0x01, 0x00, 0x00, 0x00];
    let too_short = [0x00u8, 0x61, 0x73];
    let msg = runtime.execute(&bad_magic, &Vec::new()).unwrap_err();
    assert_eq!(msg, "invalid bytecode: bad module header");
    assert!(runtime.execute(&too_short, &Vec::new()).is_err());
}

#[test]
fn decimal_rendering_is_exact() {
    assert_eq!(u64_dec(0), "0");
    assert_eq!(u64_dec(7), "7");
    assert_eq!(u64_dec(1234567890), "1234567890");
    assert_eq!(u64_dec(u64::MAX), "18446744073709551615");
    assert_eq!(i64_dec(0), "0");
    assert_eq!(i64_dec(-42), "-42");
    assert_eq!(i64_dec(i64::MIN), "-9223372036854775808");
    assert_eq!(i64_dec(i64::MAX), "9223372036854775807");
}

#[test]
fn spawn_payload_is_json_with_escaping() {
    assert_eq!(
        encode_spawn_payload(7, "x"),
        b"{\"module_id\":7,\"name\":\"x\"}".to_vec()
    );
    assert_eq!(
        encode_spawn_payload(0, "a\"b\\c"),
        b"{\"module_id\":0,\"name\":\"a\\\"b\\\\c\"}".to_vec()
    );
    assert_eq!(
        encode_spawn_payload(1, "l\n"),
        b"{\"module_id\":1,\"name\":\"l\\u000a\"}".to_vec()
    );
    // Non-ASCII names pass through as UTF-8.
    assert_eq!(
        encode_spawn_payload(2, "\u{e9}"),
        b"{\"module_id\":2,\"name\":\"\xc3\xa9\"}".to_vec()
    );
}

#[test]
fn network_status_reports_fixed_topology() {
    let (active, connected, addr, interfaces) = get_network_status();
    assert_eq!(active, "eth0");
    assert!(connected);
    assert_eq!(addr, "192.168.1.100");
    assert_eq!(interfaces.len(), 2);
    assert_eq!(interfaces[0].name, "eth0");
    assert_eq!(interfaces[0].status, "connected");
    assert_eq!(interfaces[0].rx_bytes, 1024000);
    assert_eq!(interfaces[1].name, "wlan0");
    assert_eq!(interfaces[1].tx_bytes, 0);
}

#[test]
fn wifi_scan_and_connect() {
    let networks = scan_wifi_networks();
    assert_eq!(networks.len(), 3);
    assert_eq!(networks[0], ("HomeWifi".to_string(), 85, true));
    assert_eq!(networks[1], ("CoffeShopNet".to_string(), 60, false));
    assert_eq!(networks[2], ("GuestWifi".to_string(), 45, true));
    assert!(connect_network("HomeWifi", "secret").is_ok());
}

#[test]
fn firewall_rules_and_new_rule_id() {
    let rules = get_firewall_rules();
    assert_eq!(rules.len(), 2);
    assert_eq!(rules[0].0, "rule-001");
    assert_eq!(rules[0].3, "22");
    assert_eq!(rules[1].3, "80,443");
    let id = add_firewall_rule("any", "any", "443", "allow", "tcp").unwrap();
    assert!(id.starts_with("rule-"));
    assert!(id.len() > "rule-".len());
}

#[test]
fn traffic_logs_and_bandwidth_limit() {
    let logs = get_traffic_logs();
    assert_eq!(logs.len(), 2);
    assert_eq!(logs[0].0, 1700000000);
    assert_eq!(logs[0].3, "DNS");
    assert_eq!(logs[1].4, 4096);
    assert!(set_bandwidth_limit(1_000_000).is_ok());
}

#[test]
fn devices_report_fixed_table() {
    let devices = get_devices();
    assert_eq!(devices.len(), 3);
    assert_eq!(devices[0].0, "dev-001");
    assert_eq!(devices[1].2, "usb");
    assert!(devices[2].3);
}

fn sample_user(id: &str, name: &str) -> User {
    User {
        id: id.to_string(),
        username: name.to_string(),
        display_name: name.to_uppercase(),
        role: "member".to_string(),
        active: true,
        created_at: 1700000000,
    }
}

fn sample_session(sid: &str, uid: &str) -> Session {
    Session {
        session_id: sid.to_string(),
        user_id: uid.to_string(),
        started_at: 1700000001,
        last_activity: 1700000002,
        device: "console".to_string(),
    }
}

#[test]
fn user_directory_create_list_delete() {
    let mut manager = UserManager::new();
    assert!(manager.list_users().is_empty());
    manager.create_user(sample_user("u1", "ada"));
    manager.create_user(sample_user("u2", "grace"));
    // Creating under an existing id replaces the record.
    manager.create_user(sample_user("u1", "ada-2"));
    let users = manager.list_users();
    assert_eq!(users.len(), 2);
    assert_eq!(users.iter().find(|u| u.id == "u1").unwrap().username, "ada-2");
    assert!(manager.delete_user("u1").is_ok());
    assert!(manager.delete_user("missing").is_ok());
    assert_eq!(manager.list_users().len(), 1);
}

#[test]
fn sessions_filter_by_user_and_terminate() {
    let mut manager = UserManager::new();
    manager.create_session(sample_session("s1", "u1"));
    manager.create_session(sample_session("s2", "u2"));
    manager.create_session(sample_session("s3", "u1"));
    let sessions = manager.list_sessions("u1");
    assert_eq!(sessions.len(), 2);
    assert_eq!(sessions[0].session_id, "s1");
    assert_eq!(sessions[1].session_id, "s3");
    assert!(manager.terminate_session("s1").is_ok());
    assert!(manager.terminate_session("never-existed").is_ok());
    assert_eq!(manager.list_sessions("u1").len(), 1);
    assert_eq!(manager.list_sessions("u2").len(), 1);
}

#[test]
fn audit_trail_keeps_entries_in_order() {
    let mut trail = AuditTrail::new();
    trail.log("first", "one", 100);
    trail.log("second", "two", 200);
    assert_eq!(trail.len(), 2);
    let entries = trail.get_entries();
    assert_eq!(entries[0].action, "first");
    assert_eq!(entries[0].timestamp, 100);
    assert_eq!(entries[1].detail, "two");
    assert_eq!(trail.get_logs(), vec!["first: one".to_string(), "second: two".to_string()]);
}

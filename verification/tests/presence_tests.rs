use foxd::channel::EventChannel;
use foxd::metrics::{gather_metrics, PacketCounter};
use foxd::models::{
    DeviceStatus, LogLevel, NetworkEvent, NotificationChannel, Rule, RuleRequest, TriggerType,
};
use foxd::notifier::Notifier;
use foxd::presence::{Directory, EventAction, event_action};
use foxd::rules::RuleStore;

fn rule(
    name: &str,
    trigger: TriggerType,
    mac_filter: Option<&str>,
    enabled: bool,
    channels: Vec<String>,
) -> Rule {
    Rule {
        id: None,
        name: name.to_string(),
        description: None,
        trigger_type: trigger,
        mac_filter: mac_filter.map(|f| f.to_string()),
        enabled,
        notification_channels: channels,
        created_at: 0,
        updated_at: 0,
    }
}

#[test]
fn repeated_activity_while_online_adds_no_log() {
    let mut dir = Directory::new();
    let rules: Vec<Rule> = Vec::new();
    dir.record_activity("aa:bb:cc:dd:ee:ff", Some("10.0.0.1".to_string()), 100, &rules);
    let logs_after_first = dir.get_logs(None, None).len();
    assert_eq!(logs_after_first, 1);

    dir.record_activity("aa:bb:cc:dd:ee:ff", Some("10.0.0.1".to_string()), 110, &rules);
    dir.record_activity("aa:bb:cc:dd:ee:ff", Some("10.0.0.1".to_string()), 120, &rules);
    assert_eq!(dir.get_logs(None, None).len(), 1);

    let d = dir.get_device_by_mac("aa:bb:cc:dd:ee:ff").unwrap();
    assert_eq!(d.status, DeviceStatus::Online);
    assert_eq!(d.last_seen, 120);
    assert_eq!(d.first_seen, 100);
}

#[test]
fn first_activity_discovers_device() {
    let mut dir = Directory::new();
    let rules = vec![
        rule("any new", TriggerType::NewDevice, None, true, vec!["c1".to_string()]),
        rule("disabled", TriggerType::NewDevice, None, false, vec!["c1".to_string()]),
    ];
    let notes = dir.record_activity("aa:bb:cc:dd:ee:ff", Some("10.0.0.9".to_string()), 500, &rules);

    let d = dir.get_device_by_mac("aa:bb:cc:dd:ee:ff").unwrap();
    assert_eq!(d.first_seen, 500);
    assert_eq!(d.last_seen, 500);
    assert_eq!(d.status, DeviceStatus::Online);
    assert_eq!(d.id, Some(1));

    let logs = dir.get_logs(None, None);
    assert_eq!(logs.len(), 1);
    assert_eq!(logs[0].id, Some(1));
    assert_eq!(logs[0].message, "New device discovered: aa:bb:cc:dd:ee:ff");
    assert_eq!(logs[0].level, LogLevel::Info);
    assert_eq!(logs[0].category, "device");
    assert_eq!(logs[0].details.as_deref(), Some("10.0.0.9"));

    // The enabled new-device rule fired; the disabled one did not.
    assert_eq!(notes.len(), 1);
    assert_eq!(notes[0].event_type, TriggerType::NewDevice);
    assert_eq!(notes[0].timestamp, 500);
    assert_eq!(notes[0].device.mac_address, "aa:bb:cc:dd:ee:ff");
    assert_eq!(
        notes[0].message,
        "Rule 'any new' triggered for device aa:bb:cc:dd:ee:ff"
    );
}

#[test]
fn offline_device_reconnects_firing_connected_rules() {
    let mut dir = Directory::new();
    let rules = vec![
        rule("conn", TriggerType::DeviceConnected, None, true, vec![]),
        rule("change", TriggerType::DeviceStatusChange, None, true, vec![]),
        rule("new", TriggerType::NewDevice, None, true, vec![]),
        rule("gone", TriggerType::DeviceDisconnected, None, true, vec![]),
    ];
    let no_rules: Vec<Rule> = Vec::new();
    dir.record_activity("11:22:33:44:55:66", None, 10, &no_rules);
    dir.record_disconnection("11:22:33:44:55:66", 20, &no_rules);
    assert_eq!(
        dir.get_device_by_mac("11:22:33:44:55:66").unwrap().status,
        DeviceStatus::Offline
    );

    let notes = dir.record_activity("11:22:33:44:55:66", None, 30, &rules);
    let fired: Vec<TriggerType> = notes.iter().map(|n| n.event_type).collect();
    assert_eq!(
        fired,
        vec![TriggerType::DeviceConnected, TriggerType::DeviceStatusChange]
    );

    let logs = dir.get_logs(None, None);
    // Newest first: connected, disconnected, discovered.
    assert_eq!(logs[0].message, "Device connected: 11:22:33:44:55:66");
    assert_eq!(logs[0].level, LogLevel::Info);
}

#[test]
fn timeout_scanner_demotes_stale_device_once() {
    let mut dir = Directory::new();
    let rules = vec![
        rule("gone", TriggerType::DeviceDisconnected, None, true, vec![]),
        rule("change", TriggerType::DeviceStatusChange, None, true, vec![]),
    ];
    let no_rules: Vec<Rule> = Vec::new();
    dir.record_activity("aa:bb:cc:dd:ee:ff", Some("10.0.0.2".to_string()), 1000, &no_rules);

    // Not yet past the threshold: elapsed == timeout does not demote.
    let notes = dir.check_timeouts(1060, 60, &rules);
    assert!(notes.is_empty());
    assert_eq!(
        dir.get_device_by_mac("aa:bb:cc:dd:ee:ff").unwrap().status,
        DeviceStatus::Online
    );

    // Past the threshold: demoted, both rules fire once.
    let notes = dir.check_timeouts(1061, 60, &rules);
    assert_eq!(notes.len(), 2);
    assert_eq!(notes[0].event_type, TriggerType::DeviceDisconnected);
    assert_eq!(notes[1].event_type, TriggerType::DeviceStatusChange);
    assert_eq!(notes[0].device.status, DeviceStatus::Offline);
    // The snapshot keeps the last activity time, the stored row is stamped.
    assert_eq!(notes[0].device.last_seen, 1000);
    let d = dir.get_device_by_mac("aa:bb:cc:dd:ee:ff").unwrap();
    assert_eq!(d.status, DeviceStatus::Offline);
    assert_eq!(d.last_seen, 1061);

    let disconnect_logs = dir
        .get_logs(None, None)
        .into_iter()
        .filter(|l| l.message == "Device disconnected: aa:bb:cc:dd:ee:ff")
        .count();
    assert_eq!(disconnect_logs, 1);

    // A second tick under the same condition does nothing further.
    let notes = dir.check_timeouts(1200, 60, &rules);
    assert!(notes.is_empty());
    let disconnect_logs = dir
        .get_logs(None, None)
        .into_iter()
        .filter(|l| l.message == "Device disconnected: aa:bb:cc:dd:ee:ff")
        .count();
    assert_eq!(disconnect_logs, 1);
}

#[test]
fn mac_filter_matches_case_insensitively_and_exactly() {
    let mut dir = Directory::new();
    let rules = vec![rule(
        "filtered",
        TriggerType::NewDevice,
        Some("AA:BB:CC:DD:EE:FF"),
        true,
        vec![],
    )];
    let notes = dir.record_activity("aa:bb:cc:dd:ee:ff", None, 1, &rules);
    assert_eq!(notes.len(), 1);

    let notes = dir.record_activity("aa:bb:cc:dd:ee:f0", None, 2, &rules);
    assert!(notes.is_empty());

    // Another casing of the filtered address is the same device, already
    // online: nothing fires, and no second row appears.
    let notes = dir.record_activity("Aa:Bb:Cc:Dd:Ee:fF", None, 3, &rules);
    assert!(notes.is_empty());
    assert_eq!(dir.get_total_device_count(), 2);

    // In a fresh directory the filter admits that casing on first sight.
    let mut fresh = Directory::new();
    let notes = fresh.record_activity("Aa:Bb:Cc:Dd:Ee:fF", None, 1, &rules);
    assert_eq!(notes.len(), 1);
}

#[test]
fn device_identity_is_case_insensitive() {
    let mut dir = Directory::new();
    let no_rules: Vec<Rule> = Vec::new();
    dir.record_activity("AA:BB:CC:DD:EE:FF", Some("10.0.0.1".to_string()), 100, &no_rules);

    // A lookup under another casing finds the same row.
    let d = dir.get_device_by_mac("aa:bb:cc:dd:ee:ff").unwrap();
    assert_eq!(d.mac_address, "AA:BB:CC:DD:EE:FF");
    assert_eq!(d.first_seen, 100);

    // Activity under another casing refreshes that row instead of creating a
    // second one, and keeps the stored identity.
    let notes = dir.record_activity("aa:bb:cc:dd:ee:ff", Some("10.0.0.2".to_string()), 200, &no_rules);
    assert!(notes.is_empty());
    assert_eq!(dir.get_total_device_count(), 1);
    let d = dir.get_device_by_mac("Aa:Bb:Cc:Dd:Ee:Ff").unwrap();
    assert_eq!(d.mac_address, "AA:BB:CC:DD:EE:FF");
    assert_eq!(d.id, Some(1));
    assert_eq!(d.first_seen, 100);
    assert_eq!(d.last_seen, 200);
    assert_eq!(d.ip_address.as_deref(), Some("10.0.0.2"));

    // Disconnection under another casing reaches the same row too.
    dir.record_disconnection("aA:bB:cC:dD:eE:fF", 300, &no_rules);
    assert_eq!(
        dir.get_device_by_mac("AA:BB:CC:DD:EE:FF").unwrap().status,
        DeviceStatus::Offline
    );
}

#[test]
fn dispatcher_isolates_failures_and_counts_successes() {
    let a = NotificationChannel::Ntfy {
        server_url: "https://ntfy.example".to_string(),
        topic: "a".to_string(),
        token: None,
    };
    let b = NotificationChannel::Ntfy {
        server_url: "https://ntfy.example".to_string(),
        topic: "b".to_string(),
        token: None,
    };
    let mut notifier = Notifier::new(vec![a, b]);
    let event = foxd::models::NotificationEvent {
        timestamp: 0,
        event_type: TriggerType::NewDevice,
        device: foxd::models::Device {
            id: None,
            mac_address: "aa:bb:cc:dd:ee:ff".to_string(),
            ip_address: None,
            hostname: None,
            nickname: None,
            vendor: None,
            first_seen: 0,
            last_seen: 0,
            status: DeviceStatus::Online,
        },
        message: "m".to_string(),
    };
    let names = vec!["ntfy_a".to_string(), "ntfy_b".to_string(), "ntfy_c".to_string()];
    let plan = notifier.plan_deliveries(&event, &names);
    assert_eq!(plan.len(), 3);
    // Channel B is planned regardless of what will happen to channel A, and
    // the unknown name is a marker, not an error.
    match &plan[1] {
        foxd::notifier::Delivery::Prepared { name, request } => {
            assert_eq!(name, "ntfy_b");
            assert_eq!(request.url, "https://ntfy.example/b");
        }
        other => panic!("expected a prepared delivery, got {:?}", other),
    }
    match &plan[2] {
        foxd::notifier::Delivery::Missing { name } => assert_eq!(name, "ntfy_c"),
        other => panic!("expected a missing marker, got {:?}", other),
    }

    // A fails, B succeeds: the counter moves by exactly one.
    notifier.record_outcomes(&vec![false, true]);
    assert_eq!(notifier.get_notifications_sent(), 1);
}

#[test]
fn full_channel_refuses_events_without_blocking() {
    let mut ch = EventChannel::new(2);
    let ev = |mac: &str| NetworkEvent::ArpRequest {
        source_mac: mac.to_string(),
        source_ip: "10.0.0.1".to_string(),
    };
    assert!(ch.try_send(ev("01:01:01:01:01:01")));
    assert!(ch.try_send(ev("02:02:02:02:02:02")));
    assert!(!ch.try_send(ev("03:03:03:03:03:03")));
    assert_eq!(ch.len(), 2);
    assert_eq!(ch.capacity(), 2);

    // Draining one makes room again, and order is arrival order.
    match ch.recv().unwrap() {
        NetworkEvent::ArpRequest { source_mac, .. } => {
            assert_eq!(source_mac, "01:01:01:01:01:01")
        }
        other => panic!("unexpected event {:?}", other),
    }
    assert!(ch.try_send(ev("04:04:04:04:04:04")));
    assert_eq!(ch.len(), 2);
}

#[test]
fn end_to_end_discover_timeout_reconnect() {
    let mut dir = Directory::new();
    let no_rules: Vec<Rule> = Vec::new();
    let t0: i64 = 1_700_000_000;

    let event = foxd::netparse::arp_event(
        2,
        &[0x11, 0x22, 0x33, 0x44, 0x55, 0x66],
        &[192, 168, 1, 50],
    )
    .unwrap();
    match &event {
        NetworkEvent::ArpReply { source_mac, source_ip } => {
            assert_eq!(source_mac, "11:22:33:44:55:66");
            assert_eq!(source_ip, "192.168.1.50");
        }
        other => panic!("unexpected event {:?}", other),
    }

    dir.handle_event(event, t0, &no_rules);
    let d = dir.get_device_by_mac("11:22:33:44:55:66").unwrap();
    assert_eq!(d.status, DeviceStatus::Online);
    assert_eq!(d.ip_address.as_deref(), Some("192.168.1.50"));
    assert_eq!(
        dir.get_logs(None, None)[0].message,
        "New device discovered: 11:22:33:44:55:66"
    );

    dir.check_timeouts(t0 + 70, 60, &no_rules);
    assert_eq!(
        dir.get_device_by_mac("11:22:33:44:55:66").unwrap().status,
        DeviceStatus::Offline
    );
    assert_eq!(
        dir.get_logs(None, None)[0].message,
        "Device disconnected: 11:22:33:44:55:66"
    );

    dir.record_activity("11:22:33:44:55:66", Some("192.168.1.50".to_string()), t0 + 80, &no_rules);
    assert_eq!(
        dir.get_device_by_mac("11:22:33:44:55:66").unwrap().status,
        DeviceStatus::Online
    );
    assert_eq!(
        dir.get_logs(None, None)[0].message,
        "Device connected: 11:22:33:44:55:66"
    );
}

#[test]
fn upsert_preserves_identity_nickname_and_first_seen() {
    let mut dir = Directory::new();
    let no_rules: Vec<Rule> = Vec::new();
    dir.record_activity("aa:aa:aa:aa:aa:aa", Some("10.0.0.1".to_string()), 100, &no_rules);
    dir.update_device_nickname("aa:aa:aa:aa:aa:aa", Some("printer".to_string()));

    dir.record_activity("aa:aa:aa:aa:aa:aa", Some("10.0.0.2".to_string()), 200, &no_rules);
    let d = dir.get_device_by_mac("aa:aa:aa:aa:aa:aa").unwrap();
    assert_eq!(d.id, Some(1));
    assert_eq!(d.nickname.as_deref(), Some("printer"));
    assert_eq!(d.first_seen, 100);
    assert_eq!(d.last_seen, 200);
    assert_eq!(d.ip_address.as_deref(), Some("10.0.0.2"));

    dir.record_activity("bb:bb:bb:bb:bb:bb", None, 300, &no_rules);
    let d2 = dir.get_device_by_mac("bb:bb:bb:bb:bb:bb").unwrap();
    assert_eq!(d2.id, Some(2));
    assert_eq!(d2.ip_address, None);

    assert_eq!(dir.get_all_devices().len(), 2);
    assert_eq!(dir.get_devices_by_status(DeviceStatus::Online).len(), 2);
    assert_eq!(dir.get_devices_by_status(DeviceStatus::Offline).len(), 0);
}

#[test]
fn unknown_or_offline_disconnection_is_a_no_op() {
    let mut dir = Directory::new();
    let rules = vec![rule("gone", TriggerType::DeviceDisconnected, None, true, vec![])];
    let notes = dir.record_disconnection("aa:aa:aa:aa:aa:aa", 10, &rules);
    assert!(notes.is_empty());
    assert!(dir.get_logs(None, None).is_empty());

    let no_rules: Vec<Rule> = Vec::new();
    dir.record_activity("aa:aa:aa:aa:aa:aa", None, 20, &no_rules);
    let notes = dir.record_disconnection("aa:aa:aa:aa:aa:aa", 30, &rules);
    assert_eq!(notes.len(), 1);
    let notes = dir.record_disconnection("aa:aa:aa:aa:aa:aa", 40, &rules);
    assert!(notes.is_empty());
}

#[test]
fn log_retention_sweeps_only_when_enabled() {
    let mut dir = Directory::new();
    let no_rules: Vec<Rule> = Vec::new();
    // Two entries, 10 days apart (86400 seconds per day).
    dir.record_activity("aa:aa:aa:aa:aa:aa", None, 0, &no_rules);
    dir.record_disconnection("aa:aa:aa:aa:aa:aa", 10 * 86400, &no_rules);
    assert_eq!(dir.get_logs(None, None).len(), 2);

    // Disabled retention is a no-op.
    let removed = dir.sweep_logs(false, 5, 12 * 86400);
    assert_eq!(removed, 0);
    assert_eq!(dir.get_logs(None, None).len(), 2);

    // Enabled: the discovery entry (day 0) is older than 5 days before day 12.
    let removed = dir.sweep_logs(true, 5, 12 * 86400);
    assert_eq!(removed, 1);
    let logs = dir.get_logs(None, None);
    assert_eq!(logs.len(), 1);
    assert_eq!(logs[0].message, "Device disconnected: aa:aa:aa:aa:aa:aa");
}

#[test]
fn get_logs_limits_and_filters_newest_first() {
    let mut dir = Directory::new();
    let no_rules: Vec<Rule> = Vec::new();
    dir.record_activity("aa:aa:aa:aa:aa:aa", None, 1, &no_rules); // Info
    dir.record_disconnection("aa:aa:aa:aa:aa:aa", 2, &no_rules); // Warning
    dir.record_activity("aa:aa:aa:aa:aa:aa", None, 3, &no_rules); // Info

    let all = dir.get_logs(None, None);
    assert_eq!(all.len(), 3);
    assert_eq!(all[0].timestamp, 3);
    assert_eq!(all[2].timestamp, 1);

    let two = dir.get_logs(Some(2), None);
    assert_eq!(two.len(), 2);
    assert_eq!(two[0].timestamp, 3);
    assert_eq!(two[1].timestamp, 2);

    let warnings = dir.get_logs(None, Some(LogLevel::Warning));
    assert_eq!(warnings.len(), 1);
    assert_eq!(warnings[0].timestamp, 2);

    let none = dir.get_logs(Some(0), None);
    assert!(none.is_empty());

    let unlimited = dir.get_logs(Some(-1), None);
    assert_eq!(unlimited.len(), 3);
}

#[test]
fn rule_store_crud_and_counts() {
    let mut store = RuleStore::new();
    let r1 = RuleRequest {
        name: "one".to_string(),
        description: Some("first".to_string()),
        trigger_type: TriggerType::NewDevice,
        mac_filter: None,
        enabled: true,
        notification_channels: vec!["c".to_string()],
    }
    .into_rule(100);
    let r2 = rule("two", TriggerType::DeviceDisconnected, None, false, vec![]);

    let id1 = store.create_rule(&r1);
    let id2 = store.create_rule(&r2);
    assert_eq!(id1, 1);
    assert_eq!(id2, 2);
    assert_eq!(store.get_total_rule_count(), 2);
    assert_eq!(store.get_enabled_rule_count(), 1);

    let got = store.get_rule_by_id(1).unwrap();
    assert_eq!(got.name, "one");
    assert_eq!(got.created_at, 100);
    assert_eq!(got.updated_at, 100);

    let enabled = store.get_enabled_rules();
    assert_eq!(enabled.len(), 1);
    assert_eq!(enabled[0].name, "one");

    let replacement = rule("one again", TriggerType::DeviceConnected, None, true, vec![]);
    assert!(store.update_rule(1, &replacement, 200));
    let got = store.get_rule_by_id(1).unwrap();
    assert_eq!(got.name, "one again");
    assert_eq!(got.created_at, 100);
    assert_eq!(got.updated_at, 200);
    assert_eq!(got.id, Some(1));

    assert!(!store.update_rule(99, &replacement, 300));
    assert!(!store.delete_rule(99));
    assert!(store.delete_rule(1));
    assert_eq!(store.get_total_rule_count(), 1);
    assert!(store.get_rule_by_id(1).is_none());
    assert_eq!(store.get_all_rules()[0].name, "two");

    // Identities are never reused.
    let id3 = store.create_rule(&r1);
    assert_eq!(id3, 3);
}

#[test]
fn metrics_snapshot_reflects_the_stores() {
    let mut dir = Directory::new();
    let no_rules: Vec<Rule> = Vec::new();
    dir.record_activity("aa:aa:aa:aa:aa:aa", None, 1, &no_rules);
    dir.record_activity("bb:bb:bb:bb:bb:bb", None, 2, &no_rules);
    dir.record_disconnection("bb:bb:bb:bb:bb:bb", 3, &no_rules);

    let mut store = RuleStore::new();
    store.create_rule(&rule("on", TriggerType::NewDevice, None, true, vec![]));
    store.create_rule(&rule("off", TriggerType::NewDevice, None, false, vec![]));

    let mut notifier = Notifier::new(vec![]);
    notifier.record_outcome(true);
    notifier.record_outcome(false);

    let mut packets = PacketCounter::new();
    packets.increment();
    packets.increment();
    packets.increment();

    let m = gather_metrics(&dir, &store, &notifier, packets.get(), 42);
    assert_eq!(m.total_devices, 2);
    assert_eq!(m.online_devices, 1);
    assert_eq!(m.offline_devices, 1);
    assert_eq!(m.total_rules, 2);
    assert_eq!(m.enabled_rules, 1);
    assert_eq!(m.packets_captured, 3);
    assert_eq!(m.notifications_sent, 1);
    assert_eq!(m.uptime_seconds, 42);
}

#[test]
fn events_classify_by_kind() {
    match event_action(NetworkEvent::DhcpRequest {
        client_mac: "aa:aa:aa:aa:aa:aa".to_string(),
        requested_ip: None,
    }) {
        EventAction::Activity { mac, ip } => {
            assert_eq!(mac, "aa:aa:aa:aa:aa:aa");
            assert_eq!(ip, None);
        }
        other => panic!("unexpected action {:?}", other),
    }
    match event_action(NetworkEvent::NeighborRemoved {
        mac: "bb:bb:bb:bb:bb:bb".to_string(),
        ip: "10.0.0.8".to_string(),
        interface_index: 3,
    }) {
        EventAction::Disconnection { mac } => assert_eq!(mac, "bb:bb:bb:bb:bb:bb"),
        other => panic!("unexpected action {:?}", other),
    }
    match event_action(NetworkEvent::NeighborUpdated {
        mac: "cc:cc:cc:cc:cc:cc".to_string(),
        ip: "10.0.0.9".to_string(),
        interface_index: 3,
    }) {
        EventAction::Activity { mac, ip } => {
            assert_eq!(mac, "cc:cc:cc:cc:cc:cc");
            assert_eq!(ip.as_deref(), Some("10.0.0.9"));
        }
        other => panic!("unexpected action {:?}", other),
    }
}

#[test]
fn device_listings_are_most_recent_first() {
    let mut dir = Directory::new();
    let no_rules: Vec<Rule> = Vec::new();
    dir.record_activity("aa:aa:aa:aa:aa:aa", None, 5, &no_rules);
    dir.record_activity("bb:bb:bb:bb:bb:bb", None, 10, &no_rules);
    dir.record_activity("cc:cc:cc:cc:cc:cc", None, 7, &no_rules);

    let all: Vec<String> = dir.get_all_devices().into_iter().map(|d| d.mac_address).collect();
    assert_eq!(
        all,
        vec![
            "bb:bb:bb:bb:bb:bb".to_string(),
            "cc:cc:cc:cc:cc:cc".to_string(),
            "aa:aa:aa:aa:aa:aa".to_string(),
        ]
    );

    dir.record_disconnection("bb:bb:bb:bb:bb:bb", 12, &no_rules);
    let online: Vec<String> = dir
        .get_devices_by_status(DeviceStatus::Online)
        .into_iter()
        .map(|d| d.mac_address)
        .collect();
    assert_eq!(
        online,
        vec!["cc:cc:cc:cc:cc:cc".to_string(), "aa:aa:aa:aa:aa:aa".to_string()]
    );
}

#[test]
fn rule_listings_are_newest_first() {
    let mut store = RuleStore::new();
    store.create_rule(&rule("old", TriggerType::NewDevice, None, true, vec![]));
    let mut newer = rule("new", TriggerType::NewDevice, None, true, vec![]);
    newer.created_at = 50;
    store.create_rule(&newer);
    let mut middle = rule("mid", TriggerType::NewDevice, None, false, vec![]);
    middle.created_at = 25;
    store.create_rule(&middle);

    let all: Vec<String> = store.get_all_rules().into_iter().map(|r| r.name).collect();
    assert_eq!(all, vec!["new".to_string(), "mid".to_string(), "old".to_string()]);

    let enabled: Vec<String> = store.get_enabled_rules().into_iter().map(|r| r.name).collect();
    assert_eq!(enabled, vec!["new".to_string(), "old".to_string()]);
}

use foxd::errors::DaemonError;
use foxd::json::{channel_list_json, parse_channel_list};
use foxd::models::{
    default_config, Device, DeviceStatus, LogLevel, NotificationChannel, NotificationEvent,
    TriggerType,
};
use foxd::netparse::{arp_event, ipv4_string};
use foxd::notifier::{build_request, delivery_result, Notifier};
use foxd::rules::parse_rule_row;
use foxd::text::mac_string;

fn device(mac: &str, ip: Option<&str>, hostname: Option<&str>, status: DeviceStatus) -> Device {
    Device {
        id: None,
        mac_address: mac.to_string(),
        ip_address: ip.map(|s| s.to_string()),
        hostname: hostname.map(|s| s.to_string()),
        nickname: None,
        vendor: None,
        first_seen: 0,
        last_seen: 0,
        status,
    }
}

#[test]
fn status_labels_round_trip() {
    assert_eq!(DeviceStatus::Online.label(), "online");
    assert_eq!(DeviceStatus::Offline.label(), "offline");
    assert_eq!(DeviceStatus::Unknown.label(), "unknown");
    assert_eq!(DeviceStatus::from_label("online"), DeviceStatus::Online);
    assert_eq!(DeviceStatus::from_label("offline"), DeviceStatus::Offline);
    assert_eq!(DeviceStatus::from_label("unknown"), DeviceStatus::Unknown);
    assert_eq!(DeviceStatus::from_label("garbled"), DeviceStatus::Unknown);
}

#[test]
fn trigger_labels_round_trip() {
    for t in [
        TriggerType::DeviceConnected,
        TriggerType::DeviceDisconnected,
        TriggerType::NewDevice,
        TriggerType::DeviceStatusChange,
    ] {
        assert_eq!(TriggerType::from_label(t.label()), Some(t));
    }
    assert_eq!(TriggerType::label(&TriggerType::NewDevice), "new_device");
    assert_eq!(TriggerType::from_label("nonsense"), None);
}

#[test]
fn level_labels_round_trip() {
    for l in [LogLevel::Info, LogLevel::Warning, LogLevel::Error, LogLevel::Debug] {
        assert_eq!(LogLevel::from_label(l.label()), l);
    }
    assert_eq!(LogLevel::from_label("mystery"), LogLevel::Info);
}

#[test]
fn channel_names_are_derived() {
    let t = NotificationChannel::Telegram {
        bot_token: "exampletoken".to_string(),
        chat_id: "42".to_string(),
    };
    assert_eq!(t.name(), "telegram_42");

    let n = NotificationChannel::Ntfy {
        server_url: "https://ntfy.example".to_string(),
        topic: "alerts".to_string(),
        token: None,
    };
    assert_eq!(n.name(), "ntfy_alerts");

    let w = NotificationChannel::Webhook {
        url: "https://hooks.example/path/alpha".to_string(),
        headers: None,
    };
    assert_eq!(w.name(), "webhook_alpha");

    let w2 = NotificationChannel::Webhook {
        url: "https://hooks.example/path/".to_string(),
        headers: None,
    };
    assert_eq!(w2.name(), "webhook_");

    let w3 = NotificationChannel::Webhook { url: "bare".to_string(), headers: None };
    assert_eq!(w3.name(), "webhook_bare");
}

#[test]
fn channel_list_encodes_and_decodes() {
    let names = vec!["a".to_string(), "b c".to_string()];
    let json = channel_list_json(&names);
    assert_eq!(json, "[\"a\",\"b c\"]");
    assert_eq!(parse_channel_list(&json), Some(names));

    let empty: Vec<String> = Vec::new();
    assert_eq!(channel_list_json(&empty), "[]");
    assert_eq!(parse_channel_list("[]"), Some(Vec::new()));

    let tricky = vec!["qu\"ote".to_string(), "back\\slash".to_string(), "new\nline".to_string()];
    let json = channel_list_json(&tricky);
    assert_eq!(json, "[\"qu\\\"ote\",\"back\\\\slash\",\"new\\nline\"]");
    assert_eq!(parse_channel_list(&json), Some(tricky));

    let control = vec!["bell\u{7}".to_string()];
    let json = channel_list_json(&control);
    assert_eq!(json, "[\"bell\\u0007\"]");
    assert_eq!(parse_channel_list(&json), Some(control));

    assert_eq!(parse_channel_list("not json"), None);
    assert_eq!(parse_channel_list("{\"a\":1}"), None);

    // Only the canonical text the store writes is accepted: whitespace or
    // alternative escapes mark the row as corrupt.
    assert_eq!(parse_channel_list("[ \"a\" ]"), None);
    assert_eq!(parse_channel_list("[\"\\u0041\"]"), None);
}

#[test]
fn rule_rows_decode_or_are_refused() {
    let ok = parse_rule_row(
        7,
        "watcher".to_string(),
        None,
        "device_connected",
        Some("AA:BB:CC:DD:EE:FF".to_string()),
        true,
        "[\"telegram_42\"]",
        100,
        200,
    )
    .unwrap();
    assert_eq!(ok.id, Some(7));
    assert_eq!(ok.trigger_type, TriggerType::DeviceConnected);
    assert_eq!(ok.notification_channels, vec!["telegram_42".to_string()]);
    assert_eq!(ok.created_at, 100);
    assert_eq!(ok.updated_at, 200);

    let bad_trigger = parse_rule_row(
        7,
        "watcher".to_string(),
        None,
        "device_vanished",
        None,
        true,
        "[]",
        100,
        200,
    );
    match bad_trigger {
        Err(DaemonError::Database(msg)) => assert_eq!(msg, "Invalid trigger type"),
        other => panic!("expected a database error, got {:?}", other),
    }

    let bad_channels =
        parse_rule_row(7, "watcher".to_string(), None, "new_device", None, true, "oops", 100, 200);
    match bad_channels {
        Err(DaemonError::Serialization(_)) => {}
        other => panic!("expected a serialization error, got {:?}", other),
    }

    // A non-canonical channel list is treated as corrupt too, and aborts the
    // row rather than being silently re-read.
    let non_canonical = parse_rule_row(
        7,
        "watcher".to_string(),
        None,
        "new_device",
        None,
        true,
        "[ \"a\" ]",
        100,
        200,
    );
    match non_canonical {
        Err(DaemonError::Serialization(_)) => {}
        other => panic!("expected a serialization error, got {:?}", other),
    }
}

#[test]
fn telegram_request_is_exact() {
    let channel = NotificationChannel::Telegram {
        bot_token: "exampletoken".to_string(),
        chat_id: "42".to_string(),
    };
    let event = NotificationEvent {
        timestamp: 0,
        event_type: TriggerType::NewDevice,
        device: device("aa:bb:cc:dd:ee:ff", Some("10.0.0.5"), None, DeviceStatus::Online),
        message: "Rule 'any new' triggered for device aa:bb:cc:dd:ee:ff".to_string(),
    };
    let r = build_request(&channel, &event);
    assert_eq!(r.url, "https://api.telegram.org/botexampletoken/sendMessage");
    assert_eq!(
        r.headers,
        vec![("Content-Type".to_string(), "application/json".to_string())]
    );
    assert_eq!(
        r.body,
        "{\"chat_id\":\"42\",\"parse_mode\":\"HTML\",\"text\":\"\u{1f98a} <b>Fox Daemon Alert</b>\\n\\n<b>Event:</b> New Device Discovered\\n<b>Device:</b> Unknown\\n<b>IP:</b> 10.0.0.5\\n<b>MAC:</b> aa:bb:cc:dd:ee:ff\\n<b>Status:</b> online\\n<b>Time:</b> 1970-01-01 00:00:00 UTC\\n\\nRule 'any new' triggered for device aa:bb:cc:dd:ee:ff\"}"
    );
}

#[test]
fn ntfy_request_is_exact() {
    let channel = NotificationChannel::Ntfy {
        server_url: "https://ntfy.example//".to_string(),
        topic: "alerts".to_string(),
        token: Some("exampletoken".to_string()),
    };
    let event = NotificationEvent {
        timestamp: 0,
        event_type: TriggerType::DeviceDisconnected,
        device: device(
            "11:22:33:44:55:66",
            Some("192.168.1.50"),
            Some("printer"),
            DeviceStatus::Offline,
        ),
        message: "m".to_string(),
    };
    let r = build_request(&channel, &event);
    assert_eq!(r.url, "https://ntfy.example/alerts");
    assert_eq!(
        r.headers,
        vec![
            ("Title".to_string(), "Device Disconnected".to_string()),
            ("Priority".to_string(), "default".to_string()),
            ("Tags".to_string(), "fox,network".to_string()),
            ("Authorization".to_string(), "Bearer exampletoken".to_string()),
        ]
    );
    assert_eq!(
        r.body,
        "printer\nMAC: 11:22:33:44:55:66\nIP: 192.168.1.50\nStatus: offline"
    );

    let bare = NotificationChannel::Ntfy {
        server_url: "https://ntfy.example".to_string(),
        topic: "alerts".to_string(),
        token: None,
    };
    let r = build_request(&bare, &event);
    assert_eq!(r.url, "https://ntfy.example/alerts");
    assert_eq!(r.headers.len(), 3);
}

#[test]
fn webhook_request_is_exact() {
    let channel = NotificationChannel::Webhook {
        url: "https://hooks.example/notify".to_string(),
        headers: Some(vec![("X-Token".to_string(), "exampletoken".to_string())]),
    };
    let event = NotificationEvent {
        timestamp: 0,
        event_type: TriggerType::DeviceDisconnected,
        device: device("11:22:33:44:55:66", Some("192.168.1.50"), None, DeviceStatus::Offline),
        message: "m".to_string(),
    };
    let r = build_request(&channel, &event);
    assert_eq!(r.url, "https://hooks.example/notify");
    assert_eq!(
        r.headers,
        vec![
            ("Content-Type".to_string(), "application/json".to_string()),
            ("X-Token".to_string(), "exampletoken".to_string()),
        ]
    );
    assert_eq!(
        r.body,
        "{\"device\":{\"hostname\":null,\"ip_address\":\"192.168.1.50\",\"last_seen\":\"1970-01-01T00:00:00Z\",\"mac_address\":\"11:22:33:44:55:66\",\"status\":\"offline\"},\"event_type\":\"device_disconnected\",\"message\":\"m\",\"timestamp\":\"1970-01-01T00:00:00Z\"}"
    );
}

#[test]
fn delivery_results_depend_only_on_the_response() {
    let channel = NotificationChannel::Ntfy {
        server_url: "https://ntfy.example".to_string(),
        topic: "a".to_string(),
        token: None,
    };
    assert_eq!(delivery_result(&channel, true, String::new()), Ok(()));
    match delivery_result(&channel, false, "forbidden".to_string()) {
        Err(DaemonError::Notification(msg)) => assert_eq!(msg, "Ntfy error: forbidden"),
        other => panic!("expected a notification error, got {:?}", other),
    }
}

#[test]
fn error_messages_carry_their_origin() {
    let x = || "x".to_string();
    assert_eq!(
        DaemonError::Database("no such table".to_string()).message(),
        "Database error: no such table"
    );
    assert_eq!(
        DaemonError::Config("missing port".to_string()).message(),
        "Configuration error: missing port"
    );
    assert_eq!(DaemonError::Network(x()).message(), "Network error: x");
    assert_eq!(DaemonError::PacketCapture(x()).message(), "Packet capture error: x");
    assert_eq!(DaemonError::Netlink(x()).message(), "Netlink error: x");
    assert_eq!(DaemonError::Notification(x()).message(), "Notification error: x");
    assert_eq!(DaemonError::Http(x()).message(), "HTTP error: x");
    assert_eq!(DaemonError::Io(x()).message(), "IO error: x");
    assert_eq!(DaemonError::Serialization(x()).message(), "Serialization error: x");
    assert_eq!(DaemonError::NotFound("rule 9".to_string()).message(), "Not found: rule 9");
    assert_eq!(DaemonError::InvalidInput(x()).message(), "Invalid input: x");
    assert_eq!(DaemonError::Internal(x()).message(), "Internal error: x");
}

#[test]
fn the_clock_is_never_before_the_epoch() {
    assert!(foxd::timefmt::current_time() >= 0);
    assert_eq!(foxd::timefmt::format_utc_label(0), "1970-01-01 00:00:00 UTC");
    assert_eq!(foxd::timefmt::format_rfc3339(1431648000), "2015-05-15T00:00:00Z");
}

#[test]
fn addresses_render_canonically() {
    assert_eq!(mac_string(&[0x11, 0x22, 0x33, 0x44, 0x55, 0x66]), "11:22:33:44:55:66");
    assert_eq!(mac_string(&[0xab, 0xcd, 0xef, 0x00, 0x09, 0x0a]), "ab:cd:ef:00:09:0a");
    assert_eq!(ipv4_string(&[192, 168, 1, 50]), "192.168.1.50");
    assert_eq!(ipv4_string(&[0, 9, 10, 255]), "0.9.10.255");
}

#[test]
fn arp_events_carry_textual_addresses() {
    let mac = [0xaa, 0xbb, 0xcc, 0xdd, 0xee, 0xff];
    let ip = [10, 0, 0, 1];
    match arp_event(1, &mac, &ip).unwrap() {
        foxd::models::NetworkEvent::ArpRequest { source_mac, source_ip } => {
            assert_eq!(source_mac, "aa:bb:cc:dd:ee:ff");
            assert_eq!(source_ip, "10.0.0.1");
        }
        other => panic!("unexpected event {:?}", other),
    }
    assert!(matches!(
        arp_event(2, &mac, &ip).unwrap(),
        foxd::models::NetworkEvent::ArpReply { .. }
    ));
    assert!(arp_event(3, &mac, &ip).is_none());
}

#[test]
fn default_configuration_is_pinned() {
    let c = default_config();
    assert_eq!(c.daemon.interface, "wlan0");
    assert_eq!(c.daemon.capture_filter, None);
    assert_eq!(c.daemon.neighbor_check_interval_secs, 30);
    assert_eq!(c.daemon.device_timeout_secs, 60);
    assert!(c.daemon.log_cleanup_enabled);
    assert_eq!(c.daemon.log_retention_days, 30);
    assert_eq!(c.database.path, "./foxd.db");
    assert_eq!(c.api.host, "127.0.0.1");
    assert_eq!(c.api.port, 8080);
}

#[test]
fn later_channel_wins_a_duplicate_name() {
    let first = NotificationChannel::Ntfy {
        server_url: "https://one.example".to_string(),
        topic: "t".to_string(),
        token: None,
    };
    let second = NotificationChannel::Ntfy {
        server_url: "https://two.example".to_string(),
        topic: "t".to_string(),
        token: None,
    };
    let notifier = Notifier::new(vec![first, second]);
    match notifier.get_channel("ntfy_t").unwrap() {
        NotificationChannel::Ntfy { server_url, .. } => {
            assert_eq!(server_url, "https://two.example")
        }
        other => panic!("unexpected channel {:?}", other),
    }
    assert!(notifier.get_channel("ntfy_other").is_none());
}

#[test]
fn update_channels_replaces_the_table_and_keeps_the_counter() {
    let mut notifier = Notifier::new(vec![NotificationChannel::Ntfy {
        server_url: "https://one.example".to_string(),
        topic: "a".to_string(),
        token: None,
    }]);
    notifier.record_outcome(true);
    notifier.update_channels(vec![NotificationChannel::Ntfy {
        server_url: "https://two.example".to_string(),
        topic: "b".to_string(),
        token: None,
    }]);
    assert!(notifier.get_channel("ntfy_a").is_none());
    assert!(notifier.get_channel("ntfy_b").is_some());
    assert_eq!(notifier.get_notifications_sent(), 1);
}

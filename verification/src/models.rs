//! Data model of the presence monitor: devices, rules, notification channels,
//! network events, log entries, configuration records, and the textual labels
//! under which the enumerations are stored and shipped.
//!
//! Every executable type has a ghost view over mathematical sequences, so that
//! the contracts of the presence tracker, rule engine and dispatcher can be
//! stated over plain values.

use vstd::prelude::*;

use crate::text::{last_segment, str_eq};

verus! {

// ---------------------------------------------------------------------------
// Enumerations and their stable labels
// ---------------------------------------------------------------------------
/// Presence state of a device. `Unknown` is the state ascribed to a device
/// that has never been observed (it exists only as the "old status" of a
/// device about to be created, and as the fallback when a stored label is
/// unreadable).
#[derive(Clone, Copy, Debug, PartialEq, Eq, Structural)]
pub enum DeviceStatus {
    Online,
    Offline,
    Unknown,
}

/// The stable textual form of a status, used on the wire and in storage.
pub open spec fn status_label(s: DeviceStatus) -> Seq<char> {
    match s {
        DeviceStatus::Online => "online"@,
        DeviceStatus::Offline => "offline"@,
        DeviceStatus::Unknown => "unknown"@,
    }
}

/// How a stored status label is read back: unrecognised text is `Unknown`.
pub open spec fn parsed_status(s: Seq<char>) -> DeviceStatus {
    if s == "online"@ {
        DeviceStatus::Online
    } else if s == "offline"@ {
        DeviceStatus::Offline
    } else {
        DeviceStatus::Unknown
    }
}

impl DeviceStatus {
    pub fn label(&self) -> (r: &'static str)
        ensures
            r@ == status_label(*self),
    {
        match self {
            DeviceStatus::Online => "online",
            DeviceStatus::Offline => "offline",
            DeviceStatus::Unknown => "unknown",
        }
    }

    pub fn from_label(s: &str) -> (r: DeviceStatus)
        ensures
            r == parsed_status(s@),
    {
        if str_eq(s, "online") {
            DeviceStatus::Online
        } else if str_eq(s, "offline") {
            DeviceStatus::Offline
        } else {
            DeviceStatus::Unknown
        }
    }
}

/// Reading a status label back yields the status it was written for.
pub proof fn lemma_status_label_round_trip(s: DeviceStatus)
    ensures
        parsed_status(status_label(s)) == s,
{
    reveal_strlit("online");
    reveal_strlit("offline");
    reveal_strlit("unknown");
    assert("online"@.len() == 6);
    assert("offline"@.len() == 7);
    assert("unknown"@[0] == 'u' && "offline"@[0] == 'o');
}

/// The presence transition a rule reacts to.
#[derive(Clone, Copy, Debug, PartialEq, Eq, Structural)]
pub enum TriggerType {
    DeviceConnected,
    DeviceDisconnected,
    NewDevice,
    DeviceStatusChange,
}

/// The stable textual form of a trigger type.
pub open spec fn trigger_label(t: TriggerType) -> Seq<char> {
    match t {
        TriggerType::DeviceConnected => "device_connected"@,
        TriggerType::DeviceDisconnected => "device_disconnected"@,
        TriggerType::NewDevice => "new_device"@,
        TriggerType::DeviceStatusChange => "device_status_change"@,
    }
}

/// How a stored trigger label is read back: unrecognised text is rejected,
/// which makes one corrupt rule row abort the whole rule listing.
pub open spec fn parsed_trigger(s: Seq<char>) -> Option<TriggerType> {
    if s == "device_connected"@ {
        Some(TriggerType::DeviceConnected)
    } else if s == "device_disconnected"@ {
        Some(TriggerType::DeviceDisconnected)
    } else if s == "new_device"@ {
        Some(TriggerType::NewDevice)
    } else if s == "device_status_change"@ {
        Some(TriggerType::DeviceStatusChange)
    } else {
        None
    }
}

impl TriggerType {
    pub fn label(&self) -> (r: &'static str)
        ensures
            r@ == trigger_label(*self),
    {
        match self {
            TriggerType::DeviceConnected => "device_connected",
            TriggerType::DeviceDisconnected => "device_disconnected",
            TriggerType::NewDevice => "new_device",
            TriggerType::DeviceStatusChange => "device_status_change",
        }
    }

    pub fn from_label(s: &str) -> (r: Option<TriggerType>)
        ensures
            r == parsed_trigger(s@),
    {
        if str_eq(s, "device_connected") {
            Some(TriggerType::DeviceConnected)
        } else if str_eq(s, "device_disconnected") {
            Some(TriggerType::DeviceDisconnected)
        } else if str_eq(s, "new_device") {
            Some(TriggerType::NewDevice)
        } else if str_eq(s, "device_status_change") {
            Some(TriggerType::DeviceStatusChange)
        } else {
            None
        }
    }
}

/// Reading a trigger label back yields the trigger it was written for.
pub proof fn lemma_trigger_label_round_trip(t: TriggerType)
    ensures
        parsed_trigger(trigger_label(t)) == Some(t),
{
    reveal_strlit("device_connected");
    reveal_strlit("device_disconnected");
    reveal_strlit("new_device");
    reveal_strlit("device_status_change");
    assert("device_connected"@.len() == 16);
    assert("device_disconnected"@.len() == 19);
    assert("new_device"@.len() == 10);
    assert("device_status_change"@.len() == 20);
}

/// Severity of an audit log entry.
#[derive(Clone, Copy, Debug, PartialEq, Eq, Structural)]
pub enum LogLevel {
    Info,
    Warning,
    Error,
    Debug,
}

/// The stable textual form of a log level.
pub open spec fn level_label(l: LogLevel) -> Seq<char> {
    match l {
        LogLevel::Info => "info"@,
        LogLevel::Warning => "warning"@,
        LogLevel::Error => "error"@,
        LogLevel::Debug => "debug"@,
    }
}

/// How a stored level label is read back: unrecognised text is `Info`.
pub open spec fn parsed_level(s: Seq<char>) -> LogLevel {
    if s == "info"@ {
        LogLevel::Info
    } else if s == "warning"@ {
        LogLevel::Warning
    } else if s == "error"@ {
        LogLevel::Error
    } else if s == "debug"@ {
        LogLevel::Debug
    } else {
        LogLevel::Info
    }
}

impl LogLevel {
    pub fn label(&self) -> (r: &'static str)
        ensures
            r@ == level_label(*self),
    {
        match self {
            LogLevel::Info => "info",
            LogLevel::Warning => "warning",
            LogLevel::Error => "error",
            LogLevel::Debug => "debug",
        }
    }

    pub fn from_label(s: &str) -> (r: LogLevel)
        ensures
            r == parsed_level(s@),
    {
        if str_eq(s, "info") {
            LogLevel::Info
        } else if str_eq(s, "warning") {
            LogLevel::Warning
        } else if str_eq(s, "error") {
            LogLevel::Error
        } else if str_eq(s, "debug") {
            LogLevel::Debug
        } else {
            LogLevel::Info
        }
    }
}

/// Reading a level label back yields the level it was written for.
pub proof fn lemma_level_label_round_trip(l: LogLevel)
    ensures
        parsed_level(level_label(l)) == l,
{
    reveal_strlit("info");
    reveal_strlit("warning");
    reveal_strlit("error");
    reveal_strlit("debug");
    assert("info"@.len() == 4);
    assert("warning"@.len() == 7);
    assert("error"@[0] == 'e' && "debug"@[0] == 'd');
}

// ---------------------------------------------------------------------------
// Small cloning helpers (hand-written so the contracts keep exact equality)
// ---------------------------------------------------------------------------
pub fn clone_opt_string(o: &Option<String>) -> (r: Option<String>)
    ensures
        r == *o,
{
    match o {
        Some(s) => Some(s.clone()),
        None => None,
    }
}

pub fn clone_string_vec(v: &Vec<String>) -> (r: Vec<String>)
    ensures
        r@ == v@,
{
    let mut out: Vec<String> = Vec::new();
    let n = v.len();
    for i in 0..n
        invariant
            n == v.len(),
            out@ == v@.take(i as int),
    {
        out.push(v[i].clone());
        assert(out@ =~= v@.take(i as int + 1));
    }
    assert(out@ =~= v@);
    out
}

// ---------------------------------------------------------------------------
// Devices
// ---------------------------------------------------------------------------
/// Ghost mirror of a device row, over character sequences and plain numbers.
/// Timestamps are seconds since the Unix epoch, UTC.
pub struct DeviceView {
    pub id: Option<i64>,
    pub mac: Seq<char>,
    pub ip: Option<Seq<char>>,
    pub hostname: Option<Seq<char>>,
    pub nickname: Option<Seq<char>>,
    pub vendor: Option<Seq<char>>,
    pub first_seen: i64,
    pub last_seen: i64,
    pub status: DeviceStatus,
}

/// A device known to the directory. The MAC address is the identity key,
/// compared case-insensitively and stable across reconnections; timestamps
/// are seconds since the Unix epoch, UTC.
#[derive(Debug, PartialEq)]
pub struct Device {
    pub id: Option<i64>,
    pub mac_address: String,
    pub ip_address: Option<String>,
    pub hostname: Option<String>,
    pub nickname: Option<String>,
    pub vendor: Option<String>,
    pub first_seen: i64,
    pub last_seen: i64,
    pub status: DeviceStatus,
}

impl View for Device {
    type V = DeviceView;

    open spec fn view(&self) -> DeviceView {
        DeviceView {
            id: self.id,
            mac: self.mac_address@,
            ip: self.ip_address.deep_view(),
            hostname: self.hostname.deep_view(),
            nickname: self.nickname.deep_view(),
            vendor: self.vendor.deep_view(),
            first_seen: self.first_seen,
            last_seen: self.last_seen,
            status: self.status,
        }
    }
}

impl DeepView for Device {
    type V = DeviceView;

    open spec fn deep_view(&self) -> DeviceView {
        self.view()
    }
}

impl Clone for Device {
    fn clone(&self) -> (r: Self)
        ensures
            r == *self,
    {
        Device {
            id: self.id,
            mac_address: self.mac_address.clone(),
            ip_address: clone_opt_string(&self.ip_address),
            hostname: clone_opt_string(&self.hostname),
            nickname: clone_opt_string(&self.nickname),
            vendor: clone_opt_string(&self.vendor),
            first_seen: self.first_seen,
            last_seen: self.last_seen,
            status: self.status,
        }
    }
}

// ---------------------------------------------------------------------------
// Rules
// ---------------------------------------------------------------------------
/// Ghost mirror of a rule row.
pub struct RuleView {
    pub id: Option<i64>,
    pub name: Seq<char>,
    pub description: Option<Seq<char>>,
    pub trigger_type: TriggerType,
    pub mac_filter: Option<Seq<char>>,
    pub enabled: bool,
    pub notification_channels: Seq<Seq<char>>,
    pub created_at: i64,
    pub updated_at: i64,
}

/// A user-configured alerting rule.
#[derive(Debug, PartialEq)]
pub struct Rule {
    pub id: Option<i64>,
    pub name: String,
    pub description: Option<String>,
    pub trigger_type: TriggerType,
    pub mac_filter: Option<String>,
    pub enabled: bool,
    pub notification_channels: Vec<String>,
    pub created_at: i64,
    pub updated_at: i64,
}

impl View for Rule {
    type V = RuleView;

    open spec fn view(&self) -> RuleView {
        RuleView {
            id: self.id,
            name: self.name@,
            description: self.description.deep_view(),
            trigger_type: self.trigger_type,
            mac_filter: self.mac_filter.deep_view(),
            enabled: self.enabled,
            notification_channels: self.notification_channels.deep_view(),
            created_at: self.created_at,
            updated_at: self.updated_at,
        }
    }
}

impl DeepView for Rule {
    type V = RuleView;

    open spec fn deep_view(&self) -> RuleView {
        self.view()
    }
}

impl Clone for Rule {
    fn clone(&self) -> (r: Self)
        ensures
            r@ == self@,
    {
        Rule {
            id: self.id,
            name: self.name.clone(),
            description: clone_opt_string(&self.description),
            trigger_type: self.trigger_type,
            mac_filter: clone_opt_string(&self.mac_filter),
            enabled: self.enabled,
            notification_channels: clone_string_vec(&self.notification_channels),
            created_at: self.created_at,
            updated_at: self.updated_at,
        }
    }
}

/// The caller-supplied part of a rule, as accepted when a rule is created or
/// replaced; identity and timestamps are added by the store.
#[derive(Debug, PartialEq)]
pub struct RuleRequest {
    pub name: String,
    pub description: Option<String>,
    pub trigger_type: TriggerType,
    pub mac_filter: Option<String>,
    pub enabled: bool,
    pub notification_channels: Vec<String>,
}

impl RuleRequest {
    /// The rule a fresh request denotes at creation time `now`.
    pub fn into_rule(self, now: i64) -> (r: Rule)
        ensures
            r@.id is None,
            r@.name == self@.name,
            r@.description == self@.description,
            r@.trigger_type == self.trigger_type,
            r@.mac_filter == self@.mac_filter,
            r@.enabled == self.enabled,
            r@.notification_channels == self@.notification_channels,
            r@.created_at == now,
            r@.updated_at == now,
    {
        Rule {
            id: None,
            name: self.name,
            description: self.description,
            trigger_type: self.trigger_type,
            mac_filter: self.mac_filter,
            enabled: self.enabled,
            notification_channels: self.notification_channels,
            created_at: now,
            updated_at: now,
        }
    }
}

/// Ghost mirror of a rule request.
pub struct RuleRequestView {
    pub name: Seq<char>,
    pub description: Option<Seq<char>>,
    pub trigger_type: TriggerType,
    pub mac_filter: Option<Seq<char>>,
    pub enabled: bool,
    pub notification_channels: Seq<Seq<char>>,
}

impl View for RuleRequest {
    type V = RuleRequestView;

    open spec fn view(&self) -> RuleRequestView {
        RuleRequestView {
            name: self.name@,
            description: self.description.deep_view(),
            trigger_type: self.trigger_type,
            mac_filter: self.mac_filter.deep_view(),
            enabled: self.enabled,
            notification_channels: self.notification_channels.deep_view(),
        }
    }
}

// ---------------------------------------------------------------------------
// Notification channels
// ---------------------------------------------------------------------------
/// Ghost mirror of a notification channel.
pub enum ChannelView {
    Telegram { bot_token: Seq<char>, chat_id: Seq<char> },
    Ntfy { server_url: Seq<char>, topic: Seq<char>, token: Option<Seq<char>> },
    Webhook { url: Seq<char>, headers: Option<Seq<(Seq<char>, Seq<char>)>> },
}

/// A configured notification delivery target. The closed variant set is
/// matched exhaustively wherever a message is built. Webhook headers carry
/// only the string-valued entries of the configured header map.
#[derive(Debug, PartialEq)]
pub enum NotificationChannel {
    Telegram { bot_token: String, chat_id: String },
    Ntfy { server_url: String, topic: String, token: Option<String> },
    Webhook { url: String, headers: Option<Vec<(String, String)>> },
}

impl View for NotificationChannel {
    type V = ChannelView;

    open spec fn view(&self) -> ChannelView {
        match self {
            NotificationChannel::Telegram { bot_token, chat_id } => ChannelView::Telegram {
                bot_token: bot_token@,
                chat_id: chat_id@,
            },
            NotificationChannel::Ntfy { server_url, topic, token } => ChannelView::Ntfy {
                server_url: server_url@,
                topic: topic@,
                token: token.deep_view(),
            },
            NotificationChannel::Webhook { url, headers } => ChannelView::Webhook {
                url: url@,
                headers: headers.deep_view(),
            },
        }
    }
}

impl DeepView for NotificationChannel {
    type V = ChannelView;

    open spec fn deep_view(&self) -> ChannelView {
        self.view()
    }
}

pub(crate) fn clone_header_pairs(v: &Vec<(String, String)>) -> (r: Vec<(String, String)>)
    ensures
        r@ == v@,
{
    let mut out: Vec<(String, String)> = Vec::new();
    let n = v.len();
    for i in 0..n
        invariant
            n == v.len(),
            out@ == v@.take(i as int),
    {
        out.push((v[i].0.clone(), v[i].1.clone()));
        assert(out@ =~= v@.take(i as int + 1));
    }
    assert(out@ =~= v@);
    out
}

impl Clone for NotificationChannel {
    fn clone(&self) -> (r: Self)
        ensures
            r@ == self@,
    {
        match self {
            NotificationChannel::Telegram { bot_token, chat_id } => NotificationChannel::Telegram {
                bot_token: bot_token.clone(),
                chat_id: chat_id.clone(),
            },
            NotificationChannel::Ntfy { server_url, topic, token } => NotificationChannel::Ntfy {
                server_url: server_url.clone(),
                topic: topic.clone(),
                token: clone_opt_string(token),
            },
            NotificationChannel::Webhook { url, headers } => NotificationChannel::Webhook {
                url: url.clone(),
                headers: match headers {
                    Some(h) => Some(clone_header_pairs(h)),
                    None => None,
                },
            },
        }
    }
}

/// The derived name under which a channel is filed in the dispatcher table
/// and referenced from rules.
pub open spec fn channel_name(c: ChannelView) -> Seq<char> {
    match c {
        ChannelView::Telegram { chat_id, .. } => "telegram_"@ + chat_id,
        ChannelView::Ntfy { topic, .. } => "ntfy_"@ + topic,
        ChannelView::Webhook { url, .. } => "webhook_"@ + last_segment(url),
    }
}

impl NotificationChannel {
    /// Derived lookup name: `telegram_<chat id>`, `ntfy_<topic>`, or
    /// `webhook_<last path segment of the url>`.
    pub fn name(&self) -> (r: String)
        ensures
            r@ == channel_name(self@),
    {
        match self {
            NotificationChannel::Telegram { chat_id, .. } => {
                let mut s = String::new();
                s.append("telegram_");
                s.append(chat_id.as_str());
                assert(s@ =~= channel_name(self@));
                s
            },
            NotificationChannel::Ntfy { topic, .. } => {
                let mut s = String::new();
                s.append("ntfy_");
                s.append(topic.as_str());
                assert(s@ =~= channel_name(self@));
                s
            },
            NotificationChannel::Webhook { url, .. } => {
                let mut s = String::new();
                s.append("webhook_");
                let seg = crate::text::suffix_after_last_slash(url.as_str());
                s.append(seg.as_str());
                assert(s@ =~= channel_name(self@));
                s
            },
        }
    }
}

/// A stored channel together with its row identity.
#[derive(Debug, PartialEq)]
pub struct NotificationChannelWithId {
    pub id: i64,
    pub channel: NotificationChannel,
}

impl Clone for NotificationChannelWithId {
    fn clone(&self) -> (r: Self)
        ensures
            r.id == self.id,
            r.channel@ == self.channel@,
    {
        NotificationChannelWithId { id: self.id, channel: self.channel.clone() }
    }
}

// ---------------------------------------------------------------------------
// Network events
// ---------------------------------------------------------------------------
/// Ghost mirror of a network event.
pub enum NetworkEventView {
    ArpRequest { source_mac: Seq<char>, source_ip: Seq<char> },
    ArpReply { source_mac: Seq<char>, source_ip: Seq<char> },
    DhcpRequest { client_mac: Seq<char>, requested_ip: Option<Seq<char>> },
    NeighborAdded { mac: Seq<char>, ip: Seq<char>, interface_index: u32 },
    NeighborRemoved { mac: Seq<char>, ip: Seq<char>, interface_index: u32 },
    NeighborUpdated { mac: Seq<char>, ip: Seq<char>, interface_index: u32 },
}

/// A typed observation decoded from raw network signals. Transient: events
/// exist only on the channel between producers and the presence tracker.
/// Addresses are carried in their textual form.
#[derive(Debug, PartialEq)]
pub enum NetworkEvent {
    ArpRequest { source_mac: String, source_ip: String },
    ArpReply { source_mac: String, source_ip: String },
    DhcpRequest { client_mac: String, requested_ip: Option<String> },
    NeighborAdded { mac: String, ip: String, interface_index: u32 },
    NeighborRemoved { mac: String, ip: String, interface_index: u32 },
    NeighborUpdated { mac: String, ip: String, interface_index: u32 },
}

impl View for NetworkEvent {
    type V = NetworkEventView;

    open spec fn view(&self) -> NetworkEventView {
        match self {
            NetworkEvent::ArpRequest { source_mac, source_ip } => NetworkEventView::ArpRequest {
                source_mac: source_mac@,
                source_ip: source_ip@,
            },
            NetworkEvent::ArpReply { source_mac, source_ip } => NetworkEventView::ArpReply {
                source_mac: source_mac@,
                source_ip: source_ip@,
            },
            NetworkEvent::DhcpRequest { client_mac, requested_ip } => NetworkEventView::DhcpRequest {
                client_mac: client_mac@,
                requested_ip: requested_ip.deep_view(),
            },
            NetworkEvent::NeighborAdded { mac, ip, interface_index } => NetworkEventView::NeighborAdded {
                mac: mac@,
                ip: ip@,
                interface_index: *interface_index,
            },
            NetworkEvent::NeighborRemoved { mac, ip, interface_index } => NetworkEventView::NeighborRemoved {
                mac: mac@,
                ip: ip@,
                interface_index: *interface_index,
            },
            NetworkEvent::NeighborUpdated { mac, ip, interface_index } => NetworkEventView::NeighborUpdated {
                mac: mac@,
                ip: ip@,
                interface_index: *interface_index,
            },
        }
    }
}

impl DeepView for NetworkEvent {
    type V = NetworkEventView;

    open spec fn deep_view(&self) -> NetworkEventView {
        self.view()
    }
}

// ---------------------------------------------------------------------------
// Log entries
// ---------------------------------------------------------------------------
/// Ghost mirror of an audit log entry.
pub struct LogEntryView {
    pub id: Option<i64>,
    pub timestamp: i64,
    pub level: LogLevel,
    pub category: Seq<char>,
    pub message: Seq<char>,
    pub details: Option<Seq<char>>,
}

/// One append-only audit trail entry.
#[derive(Debug, PartialEq)]
pub struct LogEntry {
    pub id: Option<i64>,
    pub timestamp: i64,
    pub level: LogLevel,
    pub category: String,
    pub message: String,
    pub details: Option<String>,
}

impl View for LogEntry {
    type V = LogEntryView;

    open spec fn view(&self) -> LogEntryView {
        LogEntryView {
            id: self.id,
            timestamp: self.timestamp,
            level: self.level,
            category: self.category@,
            message: self.message@,
            details: self.details.deep_view(),
        }
    }
}

impl DeepView for LogEntry {
    type V = LogEntryView;

    open spec fn deep_view(&self) -> LogEntryView {
        self.view()
    }
}

impl Clone for LogEntry {
    fn clone(&self) -> (r: Self)
        ensures
            r == *self,
    {
        LogEntry {
            id: self.id,
            timestamp: self.timestamp,
            level: self.level,
            category: self.category.clone(),
            message: self.message.clone(),
            details: clone_opt_string(&self.details),
        }
    }
}

// ---------------------------------------------------------------------------
// Notification events
// ---------------------------------------------------------------------------
/// Ghost mirror of a notification event.
pub struct NotificationEventView {
    pub timestamp: i64,
    pub event_type: TriggerType,
    pub device: DeviceView,
    pub message: Seq<char>,
}

/// What is handed to the dispatcher when a rule fires: the trigger, a device
/// snapshot, and a short free-form message.
#[derive(Debug, PartialEq)]
pub struct NotificationEvent {
    pub timestamp: i64,
    pub event_type: TriggerType,
    pub device: Device,
    pub message: String,
}

impl View for NotificationEvent {
    type V = NotificationEventView;

    open spec fn view(&self) -> NotificationEventView {
        NotificationEventView {
            timestamp: self.timestamp,
            event_type: self.event_type,
            device: self.device@,
            message: self.message@,
        }
    }
}

impl DeepView for NotificationEvent {
    type V = NotificationEventView;

    open spec fn deep_view(&self) -> NotificationEventView {
        self.view()
    }
}

impl Clone for NotificationEvent {
    fn clone(&self) -> (r: Self)
        ensures
            r == *self,
    {
        NotificationEvent {
            timestamp: self.timestamp,
            event_type: self.event_type,
            device: self.device.clone(),
            message: self.message.clone(),
        }
    }
}

// ---------------------------------------------------------------------------
// Configuration
// ---------------------------------------------------------------------------
/// Settings of the monitoring daemon itself.
#[derive(Debug, PartialEq)]
pub struct DaemonConfig {
    pub interface: String,
    pub capture_filter: Option<String>,
    pub neighbor_check_interval_secs: u64,
    pub device_timeout_secs: u64,
    pub log_cleanup_enabled: bool,
    pub log_retention_days: u64,
}

impl Clone for DaemonConfig {
    fn clone(&self) -> (r: Self)
        ensures
            r == *self,
    {
        DaemonConfig {
            interface: self.interface.clone(),
            capture_filter: clone_opt_string(&self.capture_filter),
            neighbor_check_interval_secs: self.neighbor_check_interval_secs,
            device_timeout_secs: self.device_timeout_secs,
            log_cleanup_enabled: self.log_cleanup_enabled,
            log_retention_days: self.log_retention_days,
        }
    }
}

/// Where the device/rule/log store lives.
#[derive(Debug, PartialEq)]
pub struct DatabaseConfig {
    pub path: String,
}

impl Clone for DatabaseConfig {
    fn clone(&self) -> (r: Self)
        ensures
            r == *self,
    {
        DatabaseConfig { path: self.path.clone() }
    }
}

/// Bind address of the management API.
#[derive(Debug, PartialEq)]
pub struct ApiConfig {
    pub host: String,
    pub port: u16,
}

impl Clone for ApiConfig {
    fn clone(&self) -> (r: Self)
        ensures
            r == *self,
    {
        ApiConfig { host: self.host.clone(), port: self.port }
    }
}

/// The whole process configuration.
#[derive(Debug, PartialEq)]
pub struct Config {
    pub daemon: DaemonConfig,
    pub database: DatabaseConfig,
    pub api: ApiConfig,
}

impl Clone for Config {
    fn clone(&self) -> (r: Self)
        ensures
            r == *self,
    {
        Config {
            daemon: self.daemon.clone(),
            database: self.database.clone(),
            api: self.api.clone(),
        }
    }
}

/// A partial configuration update: only the daemon settings can be replaced.
#[derive(Debug, PartialEq)]
pub struct ConfigUpdateRequest {
    pub daemon: Option<DaemonConfig>,
}

/// A nickname assignment for one device; `None` clears the nickname.
#[derive(Debug, PartialEq)]
pub struct DeviceNicknameRequest {
    pub nickname: Option<String>,
}

/// The configuration used when none is supplied: watch `wlan0`, demote a
/// device after 60 quiet seconds, rescan every 30 seconds, keep logs 30 days,
/// store beside the binary, and serve the API on localhost:8080.
pub fn default_config() -> (r: Config)
    ensures
        r.daemon.interface@ == "wlan0"@,
        r.daemon.capture_filter is None,
        r.daemon.neighbor_check_interval_secs == 30,
        r.daemon.device_timeout_secs == 60,
        r.daemon.log_cleanup_enabled == true,
        r.daemon.log_retention_days == 30,
        r.database.path@ == "./foxd.db"@,
        r.api.host@ == "127.0.0.1"@,
        r.api.port == 8080,
{
    Config {
        daemon: DaemonConfig {
            interface: String::from_str("wlan0"),
            capture_filter: None,
            neighbor_check_interval_secs: 30,
            device_timeout_secs: 60,
            log_cleanup_enabled: true,
            log_retention_days: 30,
        },
        database: DatabaseConfig { path: String::from_str("./foxd.db") },
        api: ApiConfig { host: String::from_str("127.0.0.1"), port: 8080 },
    }
}

// ---------------------------------------------------------------------------
// Read-model envelopes and metrics
// ---------------------------------------------------------------------------
/// A device listing together with its size.
#[derive(Debug, PartialEq)]
pub struct DevicesResponse {
    pub devices: Vec<Device>,
    pub count: usize,
}

/// A rule listing together with its size.
#[derive(Debug, PartialEq)]
pub struct RulesResponse {
    pub rules: Vec<Rule>,
    pub count: usize,
}

/// A log listing together with its size.
#[derive(Debug, PartialEq)]
pub struct LogsResponse {
    pub logs: Vec<LogEntry>,
    pub count: usize,
}

/// A channel listing together with its size.
#[derive(Debug, PartialEq)]
pub struct NotificationChannelsResponse {
    pub channels: Vec<NotificationChannelWithId>,
    pub count: usize,
}

/// A machine-readable failure report.
#[derive(Debug, PartialEq)]
pub struct ErrorResponse {
    pub error: String,
    pub details: Option<String>,
}

/// A machine-readable success report.
#[derive(Debug, PartialEq)]
pub struct SuccessResponse {
    pub message: String,
}

/// Process-wide operational counters and store sizes.
#[derive(Clone, Copy, Debug, PartialEq, Eq, Structural)]
pub struct Metrics {
    pub total_devices: i64,
    pub online_devices: i64,
    pub offline_devices: i64,
    pub total_rules: i64,
    pub enabled_rules: i64,
    pub packets_captured: u64,
    pub notifications_sent: u64,
    pub uptime_seconds: u64,
}

} // verus!

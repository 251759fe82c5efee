//! The presence tracker: a directory of devices keyed by MAC address
//! (compared case-insensitively), the audit log, and the state machine
//! driven by network activity, explicit disconnection, and the timeout
//! scanner.
//!
//! The directory mirrors the persistence collaborator's behaviour as an
//! in-memory store: rows are never deleted, identities are stable, and the
//! upsert preserves identity, nickname and first-seen while refreshing the
//! rest.

use vstd::prelude::*;

use crate::models::{
    Device, DeviceStatus, DeviceView, LogEntry, LogEntryView, LogLevel, NetworkEvent,
    NetworkEventView, NotificationEvent, NotificationEventView, Rule, RuleView, clone_opt_string,
};
use crate::text::{concat2, concat4, eq_ignore_ascii_case, lower};

verus! {

// ---------------------------------------------------------------------------
// Ghost lookup structure over the device sequence
// ---------------------------------------------------------------------------
/// No two rows share a MAC address. Identity is the MAC under ASCII case
/// folding: two casings of one address name one device.
pub open spec fn unique_macs(devs: Seq<DeviceView>) -> bool {
    forall|i: int, j: int|
        #![trigger devs[i], devs[j]]
        0 <= i < j < devs.len() ==> lower(devs[i].mac) != lower(devs[j].mac)
}

/// Row identities are the positions the rows were created at, one-based.
pub open spec fn sequential_ids(devs: Seq<DeviceView>) -> bool {
    forall|i: int| 0 <= i < devs.len() ==> (#[trigger] devs[i]).id == Some((i + 1) as i64)
}

/// All timestamps are non-negative (seconds since the Unix epoch).
pub open spec fn nonneg_times(devs: Seq<DeviceView>) -> bool {
    forall|i: int|
        0 <= i < devs.len() ==> 0 <= (#[trigger] devs[i]).first_seen && 0 <= devs[i].last_seen
}

/// Whether some row carries this MAC (case-insensitively).
pub open spec fn has_mac(devs: Seq<DeviceView>, mac: Seq<char>) -> bool {
    exists|i: int| 0 <= i < devs.len() && lower((#[trigger] devs[i]).mac) == lower(mac)
}

/// The position of the row carrying this MAC (meaningful under `has_mac`
/// and `unique_macs`).
pub open spec fn mac_index(devs: Seq<DeviceView>, mac: Seq<char>) -> int {
    choose|i: int| 0 <= i < devs.len() && lower((#[trigger] devs[i]).mac) == lower(mac)
}

/// The row carrying this MAC (case-insensitively), if any.
pub open spec fn prior_of(devs: Seq<DeviceView>, mac: Seq<char>) -> Option<DeviceView> {
    if has_mac(devs, mac) {
        Some(devs[mac_index(devs, mac)])
    } else {
        None
    }
}

/// Under unique MACs, the row found at `i` is the row `mac_index` names.
pub proof fn lemma_mac_index(devs: Seq<DeviceView>, mac: Seq<char>, i: int)
    requires
        unique_macs(devs),
        0 <= i < devs.len(),
        lower(devs[i].mac) == lower(mac),
    ensures
        has_mac(devs, mac),
        mac_index(devs, mac) == i,
{
    assert(has_mac(devs, mac));
    let j = mac_index(devs, mac);
    assert(0 <= j < devs.len() && lower(devs[j].mac) == lower(mac));
    if i < j {
        assert(lower(devs[i].mac) != lower(devs[j].mac));
    } else if j < i {
        assert(lower(devs[j].mac) != lower(devs[i].mac));
    }
}

// ---------------------------------------------------------------------------
// What one activity or disconnection does, as ghost functions
// ---------------------------------------------------------------------------
/// The row the tracker writes on activity: IP and last-seen refreshed, status
/// forced Online, hostname and vendor cleared, identity, nickname and
/// first-seen carried over from the prior row if there is one.
pub open spec fn activity_row(
    prior: Option<DeviceView>,
    mac: Seq<char>,
    ip: Option<Seq<char>>,
    now: i64,
) -> DeviceView {
    DeviceView {
        id: match prior {
            Some(d) => d.id,
            None => None,
        },
        mac: mac,
        ip: ip,
        hostname: None,
        nickname: match prior {
            Some(d) => d.nickname,
            None => None,
        },
        vendor: None,
        first_seen: match prior {
            Some(d) => d.first_seen,
            None => now,
        },
        last_seen: now,
        status: DeviceStatus::Online,
    }
}

/// How the store merges an upserted row into an existing one: identity,
/// nickname and first-seen stay; IP, hostname, vendor, last-seen and status
/// are taken from the new row.
pub open spec fn merged_row(existing: DeviceView, row: DeviceView) -> DeviceView {
    DeviceView {
        id: existing.id,
        mac: existing.mac,
        ip: row.ip,
        hostname: row.hostname,
        nickname: existing.nickname,
        vendor: row.vendor,
        first_seen: existing.first_seen,
        last_seen: row.last_seen,
        status: row.status,
    }
}

/// A row as first inserted: as given, with its assigned identity.
pub open spec fn inserted_row(row: DeviceView, id: i64) -> DeviceView {
    DeviceView {
        id: Some(id),
        mac: row.mac,
        ip: row.ip,
        hostname: row.hostname,
        nickname: row.nickname,
        vendor: row.vendor,
        first_seen: row.first_seen,
        last_seen: row.last_seen,
        status: row.status,
    }
}

/// The device sequence after an upsert of `row`.
pub open spec fn upserted(devs: Seq<DeviceView>, row: DeviceView) -> Seq<DeviceView> {
    if has_mac(devs, row.mac) {
        devs.update(mac_index(devs, row.mac), merged_row(devs[mac_index(devs, row.mac)], row))
    } else {
        devs.push(inserted_row(row, (devs.len() + 1) as i64))
    }
}

/// The identity an upsert reports: the existing row's position or the new one.
pub open spec fn upserted_id(devs: Seq<DeviceView>, row: DeviceView) -> i64 {
    if has_mac(devs, row.mac) {
        (mac_index(devs, row.mac) + 1) as i64
    } else {
        (devs.len() + 1) as i64
    }
}

/// Audit message for a device seen for the first time.
pub open spec fn discovery_message(mac: Seq<char>) -> Seq<char> {
    "New device discovered: "@ + mac
}

/// Audit message for a known device coming back online.
pub open spec fn connected_message(mac: Seq<char>) -> Seq<char> {
    "Device connected: "@ + mac
}

/// Audit message for a device going offline.
pub open spec fn disconnected_message(mac: Seq<char>) -> Seq<char> {
    "Device disconnected: "@ + mac
}

/// The log entries one activity event appends: a discovery entry for an
/// unknown MAC, a connected entry for a known device that was not online,
/// and nothing for a device already online.
pub open spec fn activity_log(
    prior: Option<DeviceView>,
    mac: Seq<char>,
    ip: Option<Seq<char>>,
    now: i64,
) -> Seq<LogEntryView> {
    match prior {
        None => seq![
            LogEntryView {
                id: None,
                timestamp: now,
                level: LogLevel::Info,
                category: "device"@,
                message: discovery_message(mac),
                details: ip,
            },
        ],
        Some(d) => {
            if d.status != DeviceStatus::Online {
                seq![
                    LogEntryView {
                        id: None,
                        timestamp: now,
                        level: LogLevel::Info,
                        category: "device"@,
                        message: connected_message(mac),
                        details: ip,
                    },
                ]
            } else {
                Seq::empty()
            }
        },
    }
}

/// The status ascribed to the device before the event: `Unknown` when the
/// MAC had never been seen.
pub open spec fn prior_status(prior: Option<DeviceView>) -> DeviceStatus {
    match prior {
        Some(d) => d.status,
        None => DeviceStatus::Unknown,
    }
}

/// A row with its status replaced and last-seen refreshed, as the store's
/// status update writes it.
pub open spec fn status_row(d: DeviceView, status: DeviceStatus, now: i64) -> DeviceView {
    DeviceView {
        id: d.id,
        mac: d.mac,
        ip: d.ip,
        hostname: d.hostname,
        nickname: d.nickname,
        vendor: d.vendor,
        first_seen: d.first_seen,
        last_seen: now,
        status: status,
    }
}

/// The device snapshot handed to rules on disconnection: the stored row with
/// status forced offline, last-seen untouched.
pub open spec fn snapshot_offline(d: DeviceView) -> DeviceView {
    DeviceView {
        id: d.id,
        mac: d.mac,
        ip: d.ip,
        hostname: d.hostname,
        nickname: d.nickname,
        vendor: d.vendor,
        first_seen: d.first_seen,
        last_seen: d.last_seen,
        status: DeviceStatus::Offline,
    }
}

/// Disconnection acts only on a known device that is not already offline.
pub open spec fn disconnect_happens(prior: Option<DeviceView>) -> bool {
    match prior {
        Some(d) => d.status != DeviceStatus::Offline,
        None => false,
    }
}

/// The audit entry appended when a device goes offline.
pub open spec fn disconnect_entry(mac: Seq<char>, ip: Option<Seq<char>>, now: i64) -> LogEntryView {
    LogEntryView {
        id: None,
        timestamp: now,
        level: LogLevel::Warning,
        category: "device"@,
        message: disconnected_message(mac),
        details: ip,
    }
}

// ---------------------------------------------------------------------------
// Rule evaluation
// ---------------------------------------------------------------------------
/// A MAC filter admits an event's MAC by case-insensitive exact match; an
/// absent filter admits every MAC.
pub open spec fn admits_mac(filter: Option<Seq<char>>, mac: Seq<char>) -> bool {
    match filter {
        None => true,
        Some(f) => lower(f) == lower(mac),
    }
}

/// The trigger table for the activity path: which presence transition a
/// trigger type reacts to. `DeviceDisconnected` is decided only on the
/// disconnection path, never here.
pub open spec fn trigger_reacts(
    t: crate::models::TriggerType,
    is_new: bool,
    old_status: DeviceStatus,
    new_status: DeviceStatus,
) -> bool {
    match t {
        crate::models::TriggerType::NewDevice => is_new,
        crate::models::TriggerType::DeviceConnected => old_status != DeviceStatus::Online
            && new_status == DeviceStatus::Online,
        crate::models::TriggerType::DeviceStatusChange => old_status != new_status,
        crate::models::TriggerType::DeviceDisconnected => false,
    }
}

/// Whether one rule fires on an activity transition.
pub open spec fn activity_fires(
    r: RuleView,
    mac: Seq<char>,
    is_new: bool,
    old_status: DeviceStatus,
    new_status: DeviceStatus,
) -> bool {
    r.enabled && admits_mac(r.mac_filter, mac) && trigger_reacts(
        r.trigger_type,
        is_new,
        old_status,
        new_status,
    )
}

/// Whether one rule fires on the disconnection path: that path runs only for
/// a real transition, and there `DeviceDisconnected` and `DeviceStatusChange`
/// always react.
pub open spec fn disconnect_fires(r: RuleView, mac: Seq<char>) -> bool {
    r.enabled && admits_mac(r.mac_filter, mac) && (r.trigger_type
        == crate::models::TriggerType::DeviceDisconnected || r.trigger_type
        == crate::models::TriggerType::DeviceStatusChange)
}

/// The free-form message attached to a fired rule's notification.
pub open spec fn rule_message(name: Seq<char>, mac: Seq<char>) -> Seq<char> {
    "Rule '"@ + name + "' triggered for device "@ + mac
}

/// The notification one fired rule produces.
pub open spec fn note_view(r: RuleView, dev: DeviceView, now: i64) -> NotificationEventView {
    NotificationEventView {
        timestamp: now,
        event_type: r.trigger_type,
        device: dev,
        message: rule_message(r.name, dev.mac),
    }
}

/// The notifications an activity transition produces, in rule order.
pub open spec fn activity_notes(
    rules: Seq<RuleView>,
    mac: Seq<char>,
    is_new: bool,
    old_status: DeviceStatus,
    dev: DeviceView,
    now: i64,
) -> Seq<NotificationEventView>
    decreases rules.len(),
{
    if rules.len() == 0 {
        Seq::empty()
    } else {
        activity_notes(rules.drop_last(), mac, is_new, old_status, dev, now) + (
        if activity_fires(rules.last(), mac, is_new, old_status, dev.status) {
            seq![note_view(rules.last(), dev, now)]
        } else {
            Seq::empty()
        })
    }
}

/// The notifications a disconnection produces, in rule order.
pub open spec fn disconnect_notes(
    rules: Seq<RuleView>,
    dev: DeviceView,
    now: i64,
) -> Seq<NotificationEventView>
    decreases rules.len(),
{
    if rules.len() == 0 {
        Seq::empty()
    } else {
        disconnect_notes(rules.drop_last(), dev, now) + (
        if disconnect_fires(rules.last(), dev.mac) {
            seq![note_view(rules.last(), dev, now)]
        } else {
            Seq::empty()
        })
    }
}

/// The notifications of an activity transition are exactly the notes of the
/// rules that fire, in rule order.
pub proof fn lemma_activity_notes_are_filter_map(
    rules: Seq<RuleView>,
    mac: Seq<char>,
    is_new: bool,
    old_status: DeviceStatus,
    dev: DeviceView,
    now: i64,
)
    ensures
        activity_notes(rules, mac, is_new, old_status, dev, now) == rules.filter(
            |r: RuleView| activity_fires(r, mac, is_new, old_status, dev.status),
        ).map_values(|r: RuleView| note_view(r, dev, now)),
    decreases rules.len(),
{
    reveal(Seq::filter);
    let pred = |r: RuleView| activity_fires(r, mac, is_new, old_status, dev.status);
    let to_note = |r: RuleView| note_view(r, dev, now);
    if rules.len() > 0 {
        lemma_activity_notes_are_filter_map(rules.drop_last(), mac, is_new, old_status, dev, now);
        let head = rules.drop_last().filter(pred).map_values(to_note);
        if pred(rules.last()) {
            assert(rules.drop_last().filter(pred).push(rules.last()).map_values(to_note) =~= head
                + seq![to_note(rules.last())]);
        } else {
            assert(head + Seq::<NotificationEventView>::empty() =~= head);
        }
    }
}

/// The notifications of a disconnection are exactly the notes of the rules
/// that fire on it, in rule order.
pub proof fn lemma_disconnect_notes_are_filter_map(rules: Seq<RuleView>, dev: DeviceView, now: i64)
    ensures
        disconnect_notes(rules, dev, now) == rules.filter(
            |r: RuleView| disconnect_fires(r, dev.mac),
        ).map_values(|r: RuleView| note_view(r, dev, now)),
    decreases rules.len(),
{
    reveal(Seq::filter);
    let pred = |r: RuleView| disconnect_fires(r, dev.mac);
    let to_note = |r: RuleView| note_view(r, dev, now);
    if rules.len() > 0 {
        lemma_disconnect_notes_are_filter_map(rules.drop_last(), dev, now);
        let head = rules.drop_last().filter(pred).map_values(to_note);
        if pred(rules.last()) {
            assert(rules.drop_last().filter(pred).push(rules.last()).map_values(to_note) =~= head
                + seq![to_note(rules.last())]);
        } else {
            assert(head + Seq::<NotificationEventView>::empty() =~= head);
        }
    }
}

// ---------------------------------------------------------------------------
// Timeout scanning and log retention, as ghost functions
// ---------------------------------------------------------------------------
/// A device the scanner demotes: online, with more than `timeout_secs`
/// elapsed since it was last seen.
pub open spec fn timed_out(d: DeviceView, now: i64, timeout_secs: u64) -> bool {
    d.status == DeviceStatus::Online && now - d.last_seen > timeout_secs
}

/// The device rows after one scanner tick: every timed-out row goes offline,
/// every other row is untouched.
pub open spec fn scan_devices(devs: Seq<DeviceView>, now: i64, timeout_secs: u64) -> Seq<
    DeviceView,
> {
    devs.map_values(
        |d: DeviceView|
            if timed_out(d, now, timeout_secs) {
                status_row(d, DeviceStatus::Offline, now)
            } else {
                d
            },
    )
}

/// The device rows mid-scan: rows before `upto` already handled.
pub open spec fn scan_devices_upto(
    devs: Seq<DeviceView>,
    now: i64,
    timeout_secs: u64,
    upto: int,
) -> Seq<DeviceView> {
    Seq::new(
        devs.len(),
        |j: int|
            if j < upto && timed_out(devs[j], now, timeout_secs) {
                status_row(devs[j], DeviceStatus::Offline, now)
            } else {
                devs[j]
            },
    )
}

/// The audit entries one scanner tick appends, in row order.
pub open spec fn scan_logs(devs: Seq<DeviceView>, now: i64, timeout_secs: u64) -> Seq<LogEntryView>
    decreases devs.len(),
{
    if devs.len() == 0 {
        Seq::empty()
    } else {
        scan_logs(devs.drop_last(), now, timeout_secs) + (
        if timed_out(devs.last(), now, timeout_secs) {
            seq![disconnect_entry(devs.last().mac, devs.last().ip, now)]
        } else {
            Seq::empty()
        })
    }
}

/// The notifications one scanner tick produces, in row order.
pub open spec fn scan_notes(
    devs: Seq<DeviceView>,
    now: i64,
    timeout_secs: u64,
    rules: Seq<RuleView>,
) -> Seq<NotificationEventView>
    decreases devs.len(),
{
    if devs.len() == 0 {
        Seq::empty()
    } else {
        scan_notes(devs.drop_last(), now, timeout_secs, rules) + (
        if timed_out(devs.last(), now, timeout_secs) {
            disconnect_notes(rules, snapshot_offline(devs.last()), now)
        } else {
            Seq::empty()
        })
    }
}

/// How many disconnect entries one scanner tick appends for rows carrying
/// this MAC.
pub open spec fn scan_log_count_for(
    devs: Seq<DeviceView>,
    now: i64,
    timeout_secs: u64,
    mac: Seq<char>,
) -> int
    decreases devs.len(),
{
    if devs.len() == 0 {
        0
    } else {
        scan_log_count_for(devs.drop_last(), now, timeout_secs, mac) + (
        if timed_out(devs.last(), now, timeout_secs) && devs.last().mac == mac {
            1int
        } else {
            0int
        })
    }
}

/// How many entries of a log sequence record the disconnection of this MAC.
pub open spec fn disconnect_entries_for(logs: Seq<LogEntryView>, mac: Seq<char>) -> int
    decreases logs.len(),
{
    if logs.len() == 0 {
        0
    } else {
        disconnect_entries_for(logs.drop_last(), mac) + (
        if logs.last().message == disconnected_message(mac) {
            1int
        } else {
            0int
        })
    }
}

/// Two disconnection messages agree exactly when their MACs do.
proof fn lemma_disconnected_message_injective(a: Seq<char>, b: Seq<char>)
    ensures
        (disconnected_message(a) == disconnected_message(b)) <==> (a == b),
{
    if disconnected_message(a) == disconnected_message(b) {
        let p = "Device disconnected: "@;
        assert(a =~= (p + a).subrange(p.len() as int, (p + a).len() as int));
        assert(b =~= (p + b).subrange(p.len() as int, (p + b).len() as int));
    }
}

/// The per-MAC count of a tick's disconnect entries is the count of that
/// MAC's timed-out rows: the entries the scanner appends are accounted for,
/// entry by entry.
pub proof fn lemma_scan_log_count(devs: Seq<DeviceView>, now: i64, timeout_secs: u64, mac: Seq<char>)
    ensures
        disconnect_entries_for(scan_logs(devs, now, timeout_secs), mac) == scan_log_count_for(
            devs,
            now,
            timeout_secs,
            mac,
        ),
    decreases devs.len(),
{
    if devs.len() > 0 {
        lemma_scan_log_count(devs.drop_last(), now, timeout_secs, mac);
        let head = scan_logs(devs.drop_last(), now, timeout_secs);
        if timed_out(devs.last(), now, timeout_secs) {
            let e = disconnect_entry(devs.last().mac, devs.last().ip, now);
            assert((head + seq![e]).drop_last() =~= head);
            assert((head + seq![e]).last() == e);
            lemma_disconnected_message_injective(devs.last().mac, mac);
        } else {
            assert(head + Seq::<LogEntryView>::empty() =~= head);
        }
    }
}

/// The audit entries kept by a retention sweep with the given cutoff.
pub open spec fn retained_logs(logs: Seq<LogEntryView>, cutoff: i64) -> Seq<LogEntryView>
    decreases logs.len(),
{
    if logs.len() == 0 {
        Seq::empty()
    } else {
        retained_logs(logs.drop_last(), cutoff) + (
        if logs.last().timestamp >= cutoff {
            seq![logs.last()]
        } else {
            Seq::empty()
        })
    }
}

/// A tick appends no disconnect entry for a MAC none of whose rows is timed
/// out.
pub proof fn lemma_scan_count_zero(
    devs: Seq<DeviceView>,
    now: i64,
    timeout_secs: u64,
    mac: Seq<char>,
)
    requires
        forall|j: int|
            0 <= j < devs.len() ==> ((#[trigger] devs[j]).mac != mac || !timed_out(
                devs[j],
                now,
                timeout_secs,
            )),
    ensures
        scan_log_count_for(devs, now, timeout_secs, mac) == 0,
    decreases devs.len(),
{
    if devs.len() > 0 {
        lemma_scan_count_zero(devs.drop_last(), now, timeout_secs, mac);
    }
}

/// Under unique MACs, the tick that demotes a row appends exactly one
/// disconnect entry for its MAC.
pub proof fn lemma_scan_count_single(devs: Seq<DeviceView>, now: i64, timeout_secs: u64, i: int)
    requires
        unique_macs(devs),
        0 <= i < devs.len(),
        timed_out(devs[i], now, timeout_secs),
    ensures
        scan_log_count_for(devs, now, timeout_secs, devs[i].mac) == 1,
    decreases devs.len(),
{
    let mac = devs[i].mac;
    if i == devs.len() - 1 {
        assert forall|j: int| 0 <= j < devs.drop_last().len() implies ((#[trigger] devs.drop_last()[j]).mac
            != mac || !timed_out(devs.drop_last()[j], now, timeout_secs)) by {
            assert(devs[j].mac != devs[i].mac);
        }
        lemma_scan_count_zero(devs.drop_last(), now, timeout_secs, mac);
    } else {
        assert(devs.last().mac != mac);
        lemma_scan_count_single(devs.drop_last(), now, timeout_secs, i);
    }
}

/// One continuous timeout condition fires exactly once: the tick that demotes
/// a device appends exactly one disconnect entry for its MAC, and a later
/// tick before new activity appends none for it and leaves its row offline
/// and untouched.
pub proof fn lemma_timeout_fires_once(
    devs: Seq<DeviceView>,
    now1: i64,
    now2: i64,
    timeout_secs: u64,
    i: int,
)
    requires
        unique_macs(devs),
        0 <= i < devs.len(),
        timed_out(devs[i], now1, timeout_secs),
    ensures
        scan_devices(devs, now1, timeout_secs)[i].status == DeviceStatus::Offline,
        disconnect_entries_for(scan_logs(devs, now1, timeout_secs), devs[i].mac) == 1,
        disconnect_entries_for(
            scan_logs(scan_devices(devs, now1, timeout_secs), now2, timeout_secs),
            devs[i].mac,
        ) == 0,
        scan_devices(scan_devices(devs, now1, timeout_secs), now2, timeout_secs)[i] == scan_devices(
            devs,
            now1,
            timeout_secs,
        )[i],
{
    lemma_scan_count_single(devs, now1, timeout_secs, i);
    lemma_scan_log_count(devs, now1, timeout_secs, devs[i].mac);
    lemma_scan_log_count(scan_devices(devs, now1, timeout_secs), now2, timeout_secs, devs[i].mac);
    let devs1 = scan_devices(devs, now1, timeout_secs);
    assert forall|j: int| 0 <= j < devs1.len() implies ((#[trigger] devs1[j]).mac != devs[i].mac
        || !timed_out(devs1[j], now2, timeout_secs)) by {
        if j == i {
            assert(devs1[i].status == DeviceStatus::Offline);
        } else {
            assert(devs[j].mac != devs[i].mac);
            assert(devs1[j].mac == devs[j].mac);
        }
    }
    lemma_scan_count_zero(devs1, now2, timeout_secs, devs[i].mac);
}

/// Descending by last-seen: every row at least as recent as the rows after it.
pub open spec fn recency_sorted(devs: Seq<DeviceView>) -> bool {
    forall|i: int, j: int|
        #![trigger devs[i], devs[j]]
        0 <= i < j < devs.len() ==> devs[i].last_seen >= devs[j].last_seen
}

/// Where a listing ordered by recency files one more row: before the first
/// row it was seen more recently than, so rows seen at the same time keep
/// their relative order.
pub open spec fn insert_by_recency(sorted: Seq<DeviceView>, d: DeviceView) -> Seq<DeviceView>
    decreases sorted.len(),
{
    if sorted.len() == 0 {
        seq![d]
    } else if d.last_seen > sorted[0].last_seen {
        seq![d] + sorted
    } else {
        seq![sorted[0]] + insert_by_recency(sorted.drop_first(), d)
    }
}

/// A listing of the given rows ordered by last-seen, most recent first.
pub open spec fn by_recency(devs: Seq<DeviceView>) -> Seq<DeviceView>
    decreases devs.len(),
{
    if devs.len() == 0 {
        Seq::empty()
    } else {
        insert_by_recency(by_recency(devs.drop_last()), devs.last())
    }
}

/// Filing one row keeps every row (as a multiset), adds the one row, and
/// keeps the listing sorted.
proof fn lemma_insert_by_recency_ensures(sorted: Seq<DeviceView>, d: DeviceView)
    ensures
        insert_by_recency(sorted, d).len() == sorted.len() + 1,
        insert_by_recency(sorted, d).to_multiset() == sorted.to_multiset().insert(d),
        recency_sorted(sorted) ==> recency_sorted(insert_by_recency(sorted, d)),
    decreases sorted.len(),
{
    broadcast use vstd::seq_lib::group_to_multiset_ensures;

    let r = insert_by_recency(sorted, d);
    if sorted.len() == 0 {
        assert(seq![d] =~= Seq::<DeviceView>::empty().push(d));
        assert(r.to_multiset() =~= sorted.to_multiset().insert(d));
    } else if d.last_seen > sorted[0].last_seen {
        vstd::seq_lib::lemma_multiset_commutative(seq![d], sorted);
        assert(seq![d] =~= Seq::<DeviceView>::empty().push(d));
        assert(r.to_multiset() =~= sorted.to_multiset().insert(d));
        if recency_sorted(sorted) {
            assert forall|i: int, j: int|
                #![trigger r[i], r[j]]
                0 <= i < j < r.len() implies r[i].last_seen >= r[j].last_seen by {
                if i > 0 {
                    assert(sorted[i - 1].last_seen >= sorted[j - 1].last_seen);
                } else {
                    assert(sorted[0].last_seen >= sorted[j - 1].last_seen);
                }
            }
        }
    } else {
        lemma_insert_by_recency_ensures(sorted.drop_first(), d);
        let rest = insert_by_recency(sorted.drop_first(), d);
        vstd::seq_lib::lemma_multiset_commutative(seq![sorted[0]], rest);
        vstd::seq_lib::lemma_multiset_commutative(seq![sorted[0]], sorted.drop_first());
        assert(seq![sorted[0]] + sorted.drop_first() =~= sorted);
        assert(seq![sorted[0]] =~= Seq::<DeviceView>::empty().push(sorted[0]));
        assert(r.to_multiset() =~= sorted.to_multiset().insert(d));
        if recency_sorted(sorted) {
            assert forall|i: int, j: int|
                #![trigger sorted.drop_first()[i], sorted.drop_first()[j]]
                0 <= i < j < sorted.drop_first().len() implies sorted.drop_first()[i].last_seen
                >= sorted.drop_first()[j].last_seen by {
                assert(sorted[i + 1].last_seen >= sorted[j + 1].last_seen);
            }
            assert(recency_sorted(rest));
            // Everything filed after the head is no more recent than it.
            assert forall|k: int| 0 <= k < rest.len() implies sorted[0].last_seen
                >= rest[k].last_seen by {
                assert(rest.to_multiset().count(rest[k]) > 0);
                if rest[k] != d {
                    assert(sorted.drop_first().to_multiset().count(rest[k]) > 0);
                    assert(sorted.drop_first().contains(rest[k]));
                    let m = choose|m: int|
                        0 <= m < sorted.drop_first().len() && sorted.drop_first()[m] == rest[k];
                    assert(sorted[0].last_seen >= sorted[m + 1].last_seen);
                }
            }
            assert forall|i: int, j: int|
                #![trigger r[i], r[j]]
                0 <= i < j < r.len() implies r[i].last_seen >= r[j].last_seen by {
                if i > 0 {
                    assert(rest[i - 1].last_seen >= rest[j - 1].last_seen);
                } else {
                    assert(r[j] == rest[j - 1]);
                }
            }
        }
    }
}

/// A recency listing holds exactly the given rows (as a multiset), as many as
/// there are, most recent first.
pub proof fn lemma_by_recency_ensures(devs: Seq<DeviceView>)
    ensures
        by_recency(devs).len() == devs.len(),
        by_recency(devs).to_multiset() == devs.to_multiset(),
        recency_sorted(by_recency(devs)),
    decreases devs.len(),
{
    broadcast use vstd::seq_lib::group_to_multiset_ensures;

    if devs.len() > 0 {
        lemma_by_recency_ensures(devs.drop_last());
        lemma_insert_by_recency_ensures(by_recency(devs.drop_last()), devs.last());
        assert(devs.drop_last().push(devs.last()) =~= devs);
    }
}

/// Filing at the position a left-to-right scan finds is the recursive filing.
proof fn lemma_insert_by_recency_at(sorted: Seq<DeviceView>, d: DeviceView, idx: int)
    requires
        0 <= idx <= sorted.len(),
        forall|j: int| 0 <= j < idx ==> !(d.last_seen > (#[trigger] sorted[j]).last_seen),
        idx < sorted.len() ==> d.last_seen > sorted[idx].last_seen,
    ensures
        insert_by_recency(sorted, d) == sorted.take(idx) + seq![d] + sorted.skip(idx),
    decreases sorted.len(),
{
    if sorted.len() == 0 {
        assert(insert_by_recency(sorted, d) =~= sorted.take(0) + seq![d] + sorted.skip(0));
    } else if idx == 0 {
        assert(seq![d] + sorted =~= sorted.take(0) + seq![d] + sorted.skip(0));
    } else {
        assert forall|j: int|
            0 <= j < idx - 1 implies !(d.last_seen > (#[trigger] sorted.drop_first()[j]).last_seen) by {
            assert(sorted.drop_first()[j] == sorted[j + 1]);
        }
        assert(idx - 1 < sorted.drop_first().len() ==> d.last_seen > sorted.drop_first()[idx
            - 1].last_seen);
        lemma_insert_by_recency_at(sorted.drop_first(), d, idx - 1);
        assert(seq![sorted[0]] + (sorted.drop_first().take(idx - 1) + seq![d]
            + sorted.drop_first().skip(idx - 1)) =~= sorted.take(idx) + seq![d] + sorted.skip(idx));
    }
}

/// Files one device into a recency-ordered listing.
fn insert_device_by_recency(out: &mut Vec<Device>, d: Device)
    ensures
        final(out).deep_view() == insert_by_recency(old(out).deep_view(), d@),
{
    let n = out.len();
    let mut idx: usize = 0;
    while idx < n && !(d.last_seen > out[idx].last_seen)
        invariant
            idx <= n,
            n == out.len(),
            *out == *old(out),
            forall|j: int|
                0 <= j < idx ==> !(d@.last_seen > (#[trigger] out.deep_view()[j]).last_seen),
        decreases n - idx,
    {
        idx = idx + 1;
    }
    let ghost out0 = out.deep_view();
    out.insert(idx, d);
    proof {
        lemma_insert_by_recency_at(out0, d@, idx as int);
        assert(out.deep_view() =~= out0.take(idx as int) + seq![d@] + out0.skip(idx as int));
    }
}

/// The rows with a given status, in stored order.
pub open spec fn with_status(devs: Seq<DeviceView>, status: DeviceStatus) -> Seq<DeviceView>
    decreases devs.len(),
{
    if devs.len() == 0 {
        Seq::empty()
    } else {
        with_status(devs.drop_last(), status) + (
        if devs.last().status == status {
            seq![devs.last()]
        } else {
            Seq::empty()
        })
    }
}

/// Whether an audit entry passes a level selection.
pub open spec fn matches_level(l: LogEntryView, level: Option<LogLevel>) -> bool {
    match level {
        None => true,
        Some(lv) => l.level == lv,
    }
}

/// Up to `limit` of the most recently appended entries passing a level
/// selection, newest first.
pub open spec fn recent_logs(
    logs: Seq<LogEntryView>,
    level: Option<LogLevel>,
    limit: int,
) -> Seq<LogEntryView>
    decreases logs.len(),
{
    if logs.len() == 0 || limit <= 0 {
        Seq::empty()
    } else if matches_level(logs.last(), level) {
        seq![logs.last()] + recent_logs(logs.drop_last(), level, limit - 1)
    } else {
        recent_logs(logs.drop_last(), level, limit)
    }
}

/// The row count a log listing is bounded by: 100 when unspecified,
/// everything when negative, the given count otherwise.
pub open spec fn log_limit(limit: Option<i64>, n: int) -> int {
    match limit {
        None => 100,
        Some(l) => if l < 0 {
            n
        } else {
            l as int
        },
    }
}

// ---------------------------------------------------------------------------
// The directory
// ---------------------------------------------------------------------------
/// Ghost mirror of the directory: the device rows, the audit log, and the
/// next log-row identity to assign.
pub struct DirectoryView {
    pub devices: Seq<DeviceView>,
    pub logs: Seq<LogEntryView>,
    pub next_log_id: i64,
}

/// The live presence directory: device rows keyed by MAC address (two
/// casings of one address name one device) and the append-only audit log. Rows are only ever mutated, never deleted; log
/// rows get fresh identities in append order, never reused even after a
/// retention sweep.
pub struct Directory {
    devices: Vec<Device>,
    logs: Vec<LogEntry>,
    next_log_id: i64,
}

impl View for Directory {
    type V = DirectoryView;

    closed spec fn view(&self) -> DirectoryView {
        DirectoryView {
            devices: self.devices.deep_view(),
            logs: self.logs.deep_view(),
            next_log_id: self.next_log_id,
        }
    }
}

/// An audit entry as appended: under a fresh identity.
pub open spec fn with_log_id(e: LogEntryView, id: i64) -> LogEntryView {
    LogEntryView {
        id: Some(id),
        timestamp: e.timestamp,
        level: e.level,
        category: e.category,
        message: e.message,
        details: e.details,
    }
}

/// Entries as appended in one batch: consecutive fresh identities from
/// `first_id`.
pub open spec fn stamped(entries: Seq<LogEntryView>, first_id: i64) -> Seq<LogEntryView> {
    Seq::new(entries.len(), |i: int| with_log_id(entries[i], (first_id + i) as i64))
}

/// Stamping identities changes no message: the per-MAC disconnect count is
/// the same before and after.
pub proof fn lemma_disconnect_entries_stamped(
    entries: Seq<LogEntryView>,
    first_id: i64,
    mac: Seq<char>,
)
    ensures
        disconnect_entries_for(stamped(entries, first_id), mac) == disconnect_entries_for(
            entries,
            mac,
        ),
    decreases entries.len(),
{
    if entries.len() > 0 {
        lemma_disconnect_entries_stamped(entries.drop_last(), first_id, mac);
        assert(stamped(entries, first_id).drop_last() =~= stamped(entries.drop_last(), first_id));
        assert(stamped(entries, first_id).last() == with_log_id(
            entries.last(),
            (first_id + entries.len() - 1) as i64,
        ));
    }
}

/// One scanner tick appends at most one entry per device row.
pub proof fn lemma_scan_logs_len(devs: Seq<DeviceView>, now: i64, timeout_secs: u64)
    ensures
        scan_logs(devs, now, timeout_secs).len() <= devs.len(),
    decreases devs.len(),
{
    if devs.len() > 0 {
        lemma_scan_logs_len(devs.drop_last(), now, timeout_secs);
    }
}

/// Locates the first row carrying `mac`, comparing case-insensitively.
fn find_mac_index(devices: &Vec<Device>, mac: &str) -> (r: Option<usize>)
    ensures
        match r {
            Some(i) => i < devices.len() && lower(devices.deep_view()[i as int].mac) == lower(
                mac@,
            ),
            None => !has_mac(devices.deep_view(), mac@),
        },
{
    let n = devices.len();
    for i in 0..n
        invariant
            n == devices.len(),
            forall|j: int|
                0 <= j < i ==> lower((#[trigger] devices.deep_view()[j]).mac) != lower(mac@),
    {
        if eq_ignore_ascii_case(devices[i].mac_address.as_str(), mac) {
            return Some(i);
        }
    }
    None
}

impl Directory {
    /// Internal consistency: unique MACs, stable one-based identities,
    /// non-negative timestamps, and room for the next identity.
    pub open spec fn wf(self) -> bool {
        &&& unique_macs(self@.devices)
        &&& sequential_ids(self@.devices)
        &&& nonneg_times(self@.devices)
        &&& self@.devices.len() <= i64::MAX
        &&& 1 <= self@.next_log_id
    }

    /// An empty directory.
    pub fn new() -> (r: Self)
        ensures
            r.wf(),
            r@.devices == Seq::<DeviceView>::empty(),
            r@.logs == Seq::<LogEntryView>::empty(),
            r@.next_log_id == 1,
    {
        let r = Directory { devices: Vec::new(), logs: Vec::new(), next_log_id: 1 };
        proof {
            assert(r@.devices =~= Seq::<DeviceView>::empty());
            assert(r@.logs =~= Seq::<LogEntryView>::empty());
        }
        r
    }

    /// The row carrying `mac`, if any.
    pub fn get_device_by_mac(&self, mac: &str) -> (r: Option<&Device>)
        requires
            self.wf(),
        ensures
            match r {
                Some(d) => prior_of(self@.devices, mac@) == Some(d@),
                None => prior_of(self@.devices, mac@) is None,
            },
    {
        match find_mac_index(&self.devices, mac) {
            Some(i) => {
                proof {
                    lemma_mac_index(self@.devices, mac@, i as int);
                }
                Some(&self.devices[i])
            },
            None => None,
        }
    }

    /// Writes a device row: refreshes the row carrying the same MAC, or
    /// appends a new row with the next identity. Identity, nickname and
    /// first-seen of an existing row are preserved; IP, hostname, vendor,
    /// last-seen and status are replaced. Returns the row's identity.
    pub fn upsert_device(&mut self, device: &Device) -> (id: i64)
        requires
            old(self).wf(),
            old(self)@.devices.len() < i64::MAX,
            0 <= device@.first_seen,
            0 <= device@.last_seen,
        ensures
            final(self).wf(),
            final(self)@.devices == upserted(old(self)@.devices, device@),
            final(self)@.logs == old(self)@.logs,
            final(self)@.next_log_id == old(self)@.next_log_id,
            id == upserted_id(old(self)@.devices, device@),
    {
        let ghost devs0 = self@.devices;
        match find_mac_index(&self.devices, device.mac_address.as_str()) {
            Some(i) => {
                proof {
                    lemma_mac_index(devs0, device@.mac, i as int);
                }
                let merged = Device {
                    id: self.devices[i].id,
                    mac_address: self.devices[i].mac_address.clone(),
                    ip_address: clone_opt_string(&device.ip_address),
                    hostname: clone_opt_string(&device.hostname),
                    nickname: clone_opt_string(&self.devices[i].nickname),
                    vendor: clone_opt_string(&device.vendor),
                    first_seen: self.devices[i].first_seen,
                    last_seen: device.last_seen,
                    status: device.status,
                };
                self.devices[i] = merged;
                proof {
                    assert(self@.devices =~= upserted(devs0, device@));
                    assert(self.wf());
                }
                i as i64 + 1
            },
            None => {
                let id = self.devices.len() as i64 + 1;
                let row = Device {
                    id: Some(id),
                    mac_address: device.mac_address.clone(),
                    ip_address: clone_opt_string(&device.ip_address),
                    hostname: clone_opt_string(&device.hostname),
                    nickname: clone_opt_string(&device.nickname),
                    vendor: clone_opt_string(&device.vendor),
                    first_seen: device.first_seen,
                    last_seen: device.last_seen,
                    status: device.status,
                };
                self.devices.push(row);
                proof {
                    assert(self@.devices =~= upserted(devs0, device@));
                    assert(self.wf());
                }
                id
            },
        }
    }

    /// Appends one audit log entry under a fresh identity and returns that
    /// identity.
    pub fn create_log(&mut self, entry: LogEntry) -> (id: i64)
        requires
            old(self)@.next_log_id < i64::MAX,
        ensures
            id == old(self)@.next_log_id,
            final(self)@.logs == old(self)@.logs.push(with_log_id(entry@, id)),
            final(self)@.devices == old(self)@.devices,
            final(self)@.next_log_id == old(self)@.next_log_id + 1,
            old(self).wf() ==> final(self).wf(),
    {
        let id = self.next_log_id;
        let mut stored = entry;
        stored.id = Some(id);
        self.logs.push(stored);
        self.next_log_id = id + 1;
        proof {
            assert(self@.logs =~= old(self)@.logs.push(self.logs@.last()@));
            assert(self@.devices =~= old(self)@.devices);
        }
        id
    }

    /// Records network activity of `mac` at time `now`: writes the refreshed
    /// device row, appends the discovery or reconnection audit entry, and
    /// returns the notifications of the enabled rules that fire, in rule
    /// order. Repeated activity of a device already online appends no entry.
    pub fn record_activity(
        &mut self,
        mac: &str,
        ip: Option<String>,
        now: i64,
        rules: &Vec<Rule>,
    ) -> (notes: Vec<NotificationEvent>)
        requires
            old(self).wf(),
            old(self)@.devices.len() < i64::MAX,
            old(self)@.next_log_id < i64::MAX,
            0 <= now,
        ensures
            final(self).wf(),
            ({
                let devs = old(self)@.devices;
                let prior = prior_of(devs, mac@);
                let row = activity_row(prior, mac@, ip.deep_view(), now);
                let entries = activity_log(prior, mac@, ip.deep_view(), now);
                &&& final(self)@.devices == upserted(devs, row)
                &&& final(self)@.logs == old(self)@.logs + stamped(
                    entries,
                    old(self)@.next_log_id,
                )
                &&& final(self)@.next_log_id == old(self)@.next_log_id + entries.len()
                &&& notes.deep_view() == activity_notes(
                    rules.deep_view(),
                    mac@,
                    prior is None,
                    prior_status(prior),
                    row,
                    now,
                )
            }),
    {
        let ghost devs0 = self@.devices;
        let ghost logs0 = self@.logs;
        let ghost id0 = self@.next_log_id;

        let existing: Option<Device> = match self.get_device_by_mac(mac) {
            Some(d) => Some(d.clone()),
            None => None,
        };
        assert(existing.deep_view() == prior_of(devs0, mac@));

        let plan = plan_activity(&existing, mac, ip, now);
        let _id = self.upsert_device(&plan.device);
        match plan.log {
            Some(l) => {
                let _ = self.create_log(l);
            },
            None => {},
        }
        proof {
            assert(self@.logs =~= logs0 + stamped(
                activity_log(prior_of(devs0, mac@), mac@, ip.deep_view(), now),
                id0,
            ));
        }

        activity_notifications(rules, mac, plan.is_new, plan.old_status, &plan.device, now)
    }

    /// Replaces the status of the row carrying `mac` and refreshes its
    /// last-seen; a no-op when no row carries it.
    pub fn update_device_status(&mut self, mac: &str, status: DeviceStatus, now: i64)
        requires
            old(self).wf(),
            0 <= now,
        ensures
            final(self).wf(),
            final(self)@.logs == old(self)@.logs,
            final(self)@.next_log_id == old(self)@.next_log_id,
            ({
                let devs = old(self)@.devices;
                if has_mac(devs, mac@) {
                    final(self)@.devices == devs.update(
                        mac_index(devs, mac@),
                        status_row(devs[mac_index(devs, mac@)], status, now),
                    )
                } else {
                    final(self)@.devices == devs
                }
            }),
    {
        let ghost devs0 = self@.devices;
        match find_mac_index(&self.devices, mac) {
            Some(i) => {
                proof {
                    lemma_mac_index(devs0, mac@, i as int);
                }
                let row = Device {
                    id: self.devices[i].id,
                    mac_address: self.devices[i].mac_address.clone(),
                    ip_address: clone_opt_string(&self.devices[i].ip_address),
                    hostname: clone_opt_string(&self.devices[i].hostname),
                    nickname: clone_opt_string(&self.devices[i].nickname),
                    vendor: clone_opt_string(&self.devices[i].vendor),
                    first_seen: self.devices[i].first_seen,
                    last_seen: now,
                    status: status,
                };
                self.devices[i] = row;
                proof {
                    assert(self@.devices =~= devs0.update(
                        mac_index(devs0, mac@),
                        status_row(devs0[mac_index(devs0, mac@)], status, now),
                    ));
                    assert(self@.logs =~= old(self)@.logs);
                }
            },
            None => {
                proof {
                    assert(self@.devices =~= devs0);
                    assert(self@.logs =~= old(self)@.logs);
                }
            },
        }
    }

    /// Records that `mac` left the network at time `now`: a no-op for an
    /// unknown or already-offline device, otherwise the row goes offline, a
    /// warning audit entry is appended, and the disconnection rules fire on
    /// the offline snapshot.
    pub fn record_disconnection(
        &mut self,
        mac: &str,
        now: i64,
        rules: &Vec<Rule>,
    ) -> (notes: Vec<NotificationEvent>)
        requires
            old(self).wf(),
            old(self)@.next_log_id < i64::MAX,
            0 <= now,
        ensures
            final(self).wf(),
            ({
                let devs = old(self)@.devices;
                let prior = prior_of(devs, mac@);
                if disconnect_happens(prior) {
                    let i = mac_index(devs, mac@);
                    &&& final(self)@.devices == devs.update(
                        i,
                        status_row(devs[i], DeviceStatus::Offline, now),
                    )
                    &&& final(self)@.logs == old(self)@.logs.push(
                        with_log_id(disconnect_entry(mac@, devs[i].ip, now), old(self)@.next_log_id),
                    )
                    &&& final(self)@.next_log_id == old(self)@.next_log_id + 1
                    &&& notes.deep_view() == disconnect_notes(
                        rules.deep_view(),
                        snapshot_offline(devs[i]),
                        now,
                    )
                } else {
                    &&& final(self)@.devices == devs
                    &&& final(self)@.logs == old(self)@.logs
                    &&& final(self)@.next_log_id == old(self)@.next_log_id
                    &&& notes.deep_view() == Seq::<NotificationEventView>::empty()
                }
            }),
    {
        let ghost devs0 = self@.devices;
        let ghost logs0 = self@.logs;
        let ghost id0 = self@.next_log_id;

        let existing: Option<Device> = match self.get_device_by_mac(mac) {
            Some(d) => Some(d.clone()),
            None => None,
        };
        assert(existing.deep_view() == prior_of(devs0, mac@));

        match plan_disconnection(&existing, mac, now) {
            Some(plan) => {
                self.update_device_status(mac, DeviceStatus::Offline, now);
                let _ = self.create_log(plan.log);
                let notes = disconnect_notifications(rules, &plan.snapshot, now);
                proof {
                    let i = mac_index(devs0, mac@);
                    assert(plan.snapshot@ == snapshot_offline(devs0[i]));
                    assert(self@.logs =~= logs0.push(
                        with_log_id(disconnect_entry(mac@, devs0[i].ip, now), id0),
                    ));
                }
                notes
            },
            None => {
                let notes: Vec<NotificationEvent> = Vec::new();
                proof {
                    assert(notes.deep_view() =~= Seq::<NotificationEventView>::empty());
                }
                notes
            },
        }
    }

    /// One tick of the timeout scanner: every device online with more than
    /// `timeout_secs` elapsed since it was last seen is disconnected, each
    /// with its own audit entry and rule notifications; every other device is
    /// untouched. Devices already offline are skipped, so a second tick under
    /// the same conditions does nothing.
    pub fn check_timeouts(
        &mut self,
        now: i64,
        timeout_secs: u64,
        rules: &Vec<Rule>,
    ) -> (notes: Vec<NotificationEvent>)
        requires
            old(self).wf(),
            old(self)@.next_log_id + old(self)@.devices.len() <= i64::MAX,
            0 <= now,
        ensures
            final(self).wf(),
            final(self)@.devices == scan_devices(old(self)@.devices, now, timeout_secs),
            final(self)@.logs == old(self)@.logs + stamped(
                scan_logs(old(self)@.devices, now, timeout_secs),
                old(self)@.next_log_id,
            ),
            final(self)@.next_log_id == old(self)@.next_log_id + scan_logs(
                old(self)@.devices,
                now,
                timeout_secs,
            ).len(),
            notes.deep_view() == scan_notes(
                old(self)@.devices,
                now,
                timeout_secs,
                rules.deep_view(),
            ),
    {
        let ghost devs0 = self@.devices;
        let ghost logs0 = self@.logs;
        let ghost id0 = self@.next_log_id;
        let mut notes: Vec<NotificationEvent> = Vec::new();
        let n = self.devices.len();
        proof {
            assert(self@.devices =~= scan_devices_upto(devs0, now, timeout_secs, 0));
            assert(devs0.take(0) =~= Seq::<DeviceView>::empty());
            assert(stamped(scan_logs(devs0.take(0), now, timeout_secs), id0)
                =~= Seq::<LogEntryView>::empty());
            assert(self@.logs =~= logs0 + stamped(
                scan_logs(devs0.take(0), now, timeout_secs),
                id0,
            ));
            assert(notes.deep_view() =~= scan_notes(
                devs0.take(0),
                now,
                timeout_secs,
                rules.deep_view(),
            ));
        }
        for i in 0..n
            invariant
                self.wf(),
                0 <= now,
                n == devs0.len(),
                id0 + devs0.len() <= i64::MAX,
                self@.devices == scan_devices_upto(devs0, now, timeout_secs, i as int),
                self@.logs == logs0 + stamped(
                    scan_logs(devs0.take(i as int), now, timeout_secs),
                    id0,
                ),
                self@.next_log_id == id0 + scan_logs(devs0.take(i as int), now, timeout_secs).len(),
                notes.deep_view() == scan_notes(
                    devs0.take(i as int),
                    now,
                    timeout_secs,
                    rules.deep_view(),
                ),
        {
            let ghost devs_cur = self@.devices;
            proof {
                assert(devs_cur[i as int] == devs0[i as int]);
                assert(devs0.take(i as int + 1).drop_last() =~= devs0.take(i as int));
                assert(devs0.take(i as int + 1).last() == devs0[i as int]);
            }
            let stale = self.devices[i].status == DeviceStatus::Online && self.devices[i].last_seen
                < now && ((now - self.devices[i].last_seen) as u64) > timeout_secs;
            assert(stale == timed_out(devs0[i as int], now, timeout_secs));
            if stale {
                let mac = self.devices[i].mac_address.clone();
                proof {
                    lemma_mac_index(devs_cur, mac@, i as int);
                    lemma_scan_logs_len(devs0.take(i as int), now, timeout_secs);
                    assert(devs0.take(i as int).len() == i as int);
                    assert(self@.next_log_id < i64::MAX);
                }
                let ghost notes_before = notes.deep_view();
                let mut more = self.record_disconnection(mac.as_str(), now, rules);
                let ghost more_dv = more.deep_view();
                notes.append(&mut more);
                proof {
                    assert(self@.devices =~= scan_devices_upto(
                        devs0,
                        now,
                        timeout_secs,
                        i as int + 1,
                    ));
                    assert(self@.logs =~= logs0 + stamped(
                        scan_logs(devs0.take(i as int + 1), now, timeout_secs),
                        id0,
                    ));
                    assert(notes.deep_view() =~= notes_before + more_dv);
                    assert(notes.deep_view() =~= scan_notes(
                        devs0.take(i as int + 1),
                        now,
                        timeout_secs,
                        rules.deep_view(),
                    ));
                }
            } else {
                proof {
                    assert(self@.devices =~= scan_devices_upto(
                        devs0,
                        now,
                        timeout_secs,
                        i as int + 1,
                    ));
                    assert(scan_logs(devs0.take(i as int + 1), now, timeout_secs)
                        =~= scan_logs(devs0.take(i as int), now, timeout_secs));
                    assert(notes.deep_view() =~= scan_notes(
                        devs0.take(i as int + 1),
                        now,
                        timeout_secs,
                        rules.deep_view(),
                    ));
                }
            }
        }
        proof {
            assert(devs0.take(n as int) =~= devs0);
            assert(self@.devices =~= scan_devices(devs0, now, timeout_secs));
        }
        notes
    }

    /// Deletes audit entries older than `days` days before `now` and reports
    /// how many were removed; everything else, devices included, stays.
    pub fn clear_old_logs(&mut self, days: i64, now: i64) -> (count: i64)
        requires
            old(self).wf(),
            0 <= days,
            86400 * days <= i64::MAX,
            0 <= now,
            old(self)@.logs.len() <= i64::MAX,
        ensures
            final(self).wf(),
            final(self)@.devices == old(self)@.devices,
            final(self)@.next_log_id == old(self)@.next_log_id,
            final(self)@.logs == retained_logs(old(self)@.logs, (now - 86400 * days) as i64),
            count == old(self)@.logs.len() - final(self)@.logs.len(),
    {
        let cutoff: i64 = now - days * 86400;
        let ghost logs0 = self@.logs;
        let mut kept: Vec<LogEntry> = Vec::new();
        let n = self.logs.len();
        proof {
            assert(logs0.take(0) =~= Seq::<LogEntryView>::empty());
            assert(kept.deep_view() =~= retained_logs(logs0.take(0), cutoff));
        }
        for i in 0..n
            invariant
                n == self.logs.len(),
                logs0 == self@.logs,
                cutoff == now - 86400 * days,
                kept.deep_view() == retained_logs(logs0.take(i as int), cutoff),
                kept.len() <= i,
        {
            proof {
                assert(logs0.take(i as int + 1).drop_last() =~= logs0.take(i as int));
                assert(logs0.take(i as int + 1).last() == logs0[i as int]);
            }
            if self.logs[i].timestamp >= cutoff {
                kept.push(self.logs[i].clone());
            }
            proof {
                assert(kept.deep_view() =~= retained_logs(logs0.take(i as int + 1), cutoff));
            }
        }
        proof {
            assert(logs0.take(n as int) =~= logs0);
        }
        let count = (n - kept.len()) as i64;
        self.logs = kept;
        proof {
            assert(self@.devices =~= old(self)@.devices);
        }
        count
    }

    /// One tick of the retention sweeper: a no-op while retention is
    /// disabled, otherwise one retention sweep.
    pub fn sweep_logs(&mut self, enabled: bool, days: i64, now: i64) -> (count: i64)
        requires
            old(self).wf(),
            0 <= days,
            86400 * days <= i64::MAX,
            0 <= now,
            old(self)@.logs.len() <= i64::MAX,
        ensures
            final(self).wf(),
            final(self)@.devices == old(self)@.devices,
            final(self)@.next_log_id == old(self)@.next_log_id,
            !enabled ==> final(self)@.logs == old(self)@.logs && count == 0,
            enabled ==> final(self)@.logs == retained_logs(
                old(self)@.logs,
                (now - 86400 * days) as i64,
            ) && count == old(self)@.logs.len() - final(self)@.logs.len(),
    {
        if !enabled {
            return 0;
        }
        self.clear_old_logs(days, now)
    }

    /// Handles one network event end to end: activity events record activity
    /// of their MAC, a neighbor removal records a disconnection.
    pub fn handle_event(
        &mut self,
        event: NetworkEvent,
        now: i64,
        rules: &Vec<Rule>,
    ) -> (notes: Vec<NotificationEvent>)
        requires
            old(self).wf(),
            old(self)@.devices.len() < i64::MAX,
            old(self)@.next_log_id < i64::MAX,
            0 <= now,
        ensures
            final(self).wf(),
            ({
                let devs = old(self)@.devices;
                match action_of(event@) {
                    EventActionView::Activity { mac, ip } => {
                        let prior = prior_of(devs, mac);
                        let row = activity_row(prior, mac, ip, now);
                        let entries = activity_log(prior, mac, ip, now);
                        &&& final(self)@.devices == upserted(devs, row)
                        &&& final(self)@.logs == old(self)@.logs + stamped(
                            entries,
                            old(self)@.next_log_id,
                        )
                        &&& final(self)@.next_log_id == old(self)@.next_log_id + entries.len()
                        &&& notes.deep_view() == activity_notes(
                            rules.deep_view(),
                            mac,
                            prior is None,
                            prior_status(prior),
                            row,
                            now,
                        )
                    },
                    EventActionView::Disconnection { mac } => {
                        let prior = prior_of(devs, mac);
                        if disconnect_happens(prior) {
                            let i = mac_index(devs, mac);
                            &&& final(self)@.devices == devs.update(
                                i,
                                status_row(devs[i], DeviceStatus::Offline, now),
                            )
                            &&& final(self)@.logs == old(self)@.logs.push(
                                with_log_id(
                                    disconnect_entry(mac, devs[i].ip, now),
                                    old(self)@.next_log_id,
                                ),
                            )
                            &&& final(self)@.next_log_id == old(self)@.next_log_id + 1
                            &&& notes.deep_view() == disconnect_notes(
                                rules.deep_view(),
                                snapshot_offline(devs[i]),
                                now,
                            )
                        } else {
                            &&& final(self)@.devices == devs
                            &&& final(self)@.logs == old(self)@.logs
                            &&& final(self)@.next_log_id == old(self)@.next_log_id
                            &&& notes.deep_view() == Seq::<NotificationEventView>::empty()
                        }
                    },
                }
            }),
    {
        match event_action(event) {
            EventAction::Activity { mac, ip } => self.record_activity(mac.as_str(), ip, now, rules),
            EventAction::Disconnection { mac } => self.record_disconnection(
                mac.as_str(),
                now,
                rules,
            ),
        }
    }

    /// Every device row, ordered by last-seen, most recent first (rows seen
    /// at the same time keep their stored order).
    pub fn get_all_devices(&self) -> (r: Vec<Device>)
        ensures
            r.deep_view() == by_recency(self@.devices),
    {
        let n = self.devices.len();
        let mut out: Vec<Device> = Vec::new();
        proof {
            assert(self@.devices.take(0) =~= Seq::<DeviceView>::empty());
            assert(out.deep_view() =~= by_recency(self@.devices.take(0)));
        }
        for i in 0..n
            invariant
                n == self.devices.len(),
                out.deep_view() == by_recency(self@.devices.take(i as int)),
        {
            proof {
                assert(self@.devices.take(i as int + 1).drop_last() =~= self@.devices.take(
                    i as int,
                ));
                assert(self@.devices.take(i as int + 1).last() == self@.devices[i as int]);
            }
            let d = self.devices[i].clone();
            assert(d@ == self@.devices[i as int]);
            insert_device_by_recency(&mut out, d);
        }
        proof {
            assert(self@.devices.take(n as int) =~= self@.devices);
        }
        out
    }

    /// The device rows with the given status, ordered by last-seen, most
    /// recent first (rows seen at the same time keep their stored order).
    pub fn get_devices_by_status(&self, status: DeviceStatus) -> (r: Vec<Device>)
        ensures
            r.deep_view() == by_recency(with_status(self@.devices, status)),
    {
        let n = self.devices.len();
        let mut out: Vec<Device> = Vec::new();
        proof {
            assert(self@.devices.take(0) =~= Seq::<DeviceView>::empty());
            assert(out.deep_view() =~= by_recency(with_status(self@.devices.take(0), status)));
        }
        for i in 0..n
            invariant
                n == self.devices.len(),
                out.deep_view() == by_recency(with_status(self@.devices.take(i as int), status)),
        {
            proof {
                assert(self@.devices.take(i as int + 1).drop_last() =~= self@.devices.take(
                    i as int,
                ));
                assert(self@.devices.take(i as int + 1).last() == self@.devices[i as int]);
            }
            let ghost sel0 = with_status(self@.devices.take(i as int), status);
            if self.devices[i].status == status {
                let d = self.devices[i].clone();
                assert(d@ == self@.devices[i as int]);
                insert_device_by_recency(&mut out, d);
                proof {
                    let sel1 = with_status(self@.devices.take(i as int + 1), status);
                    assert(sel1 =~= sel0.push(self@.devices[i as int]));
                    assert(sel1.drop_last() =~= sel0);
                }
            } else {
                proof {
                    assert(with_status(self@.devices.take(i as int + 1), status) =~= sel0);
                }
            }
        }
        proof {
            assert(self@.devices.take(n as int) =~= self@.devices);
        }
        out
    }

    /// Replaces the nickname of the row carrying `mac`; a no-op when no row
    /// carries it. Nothing else of the row changes.
    pub fn update_device_nickname(&mut self, mac: &str, nickname: Option<String>)
        requires
            old(self).wf(),
        ensures
            final(self).wf(),
            final(self)@.logs == old(self)@.logs,
            final(self)@.next_log_id == old(self)@.next_log_id,
            ({
                let devs = old(self)@.devices;
                if has_mac(devs, mac@) {
                    final(self)@.devices == devs.update(
                        mac_index(devs, mac@),
                        DeviceView { nickname: nickname.deep_view(), ..devs[mac_index(devs, mac@)] },
                    )
                } else {
                    final(self)@.devices == devs
                }
            }),
    {
        let ghost devs0 = self@.devices;
        match find_mac_index(&self.devices, mac) {
            Some(i) => {
                proof {
                    lemma_mac_index(devs0, mac@, i as int);
                }
                let row = Device {
                    id: self.devices[i].id,
                    mac_address: self.devices[i].mac_address.clone(),
                    ip_address: clone_opt_string(&self.devices[i].ip_address),
                    hostname: clone_opt_string(&self.devices[i].hostname),
                    nickname: nickname,
                    vendor: clone_opt_string(&self.devices[i].vendor),
                    first_seen: self.devices[i].first_seen,
                    last_seen: self.devices[i].last_seen,
                    status: self.devices[i].status,
                };
                self.devices[i] = row;
                proof {
                    assert(self@.devices =~= devs0.update(
                        mac_index(devs0, mac@),
                        DeviceView {
                            nickname: nickname.deep_view(),
                            ..devs0[mac_index(devs0, mac@)]
                        },
                    ));
                    assert(self@.logs =~= old(self)@.logs);
                }
            },
            None => {
                proof {
                    assert(self@.devices =~= devs0);
                    assert(self@.logs =~= old(self)@.logs);
                }
            },
        }
    }

    /// How many device rows there are.
    pub fn get_total_device_count(&self) -> (r: i64)
        requires
            self.wf(),
        ensures
            r == self@.devices.len(),
    {
        self.devices.len() as i64
    }

    /// How many device rows carry the given status.
    pub fn get_device_count_by_status(&self, status: DeviceStatus) -> (r: i64)
        requires
            self.wf(),
        ensures
            r == with_status(self@.devices, status).len(),
    {
        let n = self.devices.len();
        let mut count: i64 = 0;
        proof {
            assert(self@.devices.take(0) =~= Seq::<DeviceView>::empty());
        }
        for i in 0..n
            invariant
                n == self.devices.len(),
                self.wf(),
                count == with_status(self@.devices.take(i as int), status).len(),
                count <= i,
        {
            proof {
                assert(self@.devices.take(i as int + 1).drop_last() =~= self@.devices.take(
                    i as int,
                ));
                assert(self@.devices.take(i as int + 1).last() == self@.devices[i as int]);
            }
            if self.devices[i].status == status {
                count = count + 1;
            }
        }
        proof {
            assert(self@.devices.take(n as int) =~= self@.devices);
        }
        count
    }

    /// Up to `limit` of the most recently appended audit entries passing the
    /// level selection, newest first; 100 when no bound is given, everything
    /// when the bound is negative.
    pub fn get_logs(&self, limit: Option<i64>, level: Option<LogLevel>) -> (r: Vec<LogEntry>)
        requires
            self@.logs.len() <= i64::MAX,
        ensures
            r.deep_view() == recent_logs(self@.logs, level, log_limit(limit, self@.logs.len() as int)),
    {
        let n = self.logs.len();
        let lim: i64 = match limit {
            None => 100,
            Some(l) => if l < 0 {
                n as i64
            } else {
                l
            },
        };
        let ghost l0 = lim as int;
        let mut out: Vec<LogEntry> = Vec::new();
        let mut taken: i64 = 0;
        let mut i: usize = n;
        proof {
            assert(self@.logs.take(n as int) =~= self@.logs);
            assert(out.deep_view() =~= Seq::<LogEntryView>::empty());
        }
        while i > 0 && taken < lim
            invariant
                i <= n,
                n == self.logs.len(),
                self@.logs.len() <= i64::MAX,
                l0 == lim as int,
                taken == out@.len(),
                out.len() + i <= n,
                recent_logs(self@.logs, level, l0) == out.deep_view() + recent_logs(
                    self@.logs.take(i as int),
                    level,
                    l0 - out.len(),
                ),
            decreases i,
        {
            assert(out@.len() < l0);
            i = i - 1;
            proof {
                assert(self@.logs.take(i as int + 1).drop_last() =~= self@.logs.take(i as int));
                assert(self@.logs.take(i as int + 1).last() == self@.logs[i as int]);
            }
            let ghost out0 = out.deep_view();
            let ghost k = l0 - out0.len();
            let keep = match level {
                None => true,
                Some(lv) => self.logs[i].level == lv,
            };
            if keep {
                let e = self.logs[i].clone();
                assert(e@ == self@.logs[i as int]);
                out.push(e);
                taken = taken + 1;
                proof {
                    let ev = self@.logs[i as int];
                    let take1 = self@.logs.take(i as int + 1);
                    assert(matches_level(ev, level));
                    assert(take1.len() > 0);
                    assert(k > 0);
                    assert(take1.last() == ev && matches_level(take1.last(), level));
                    assert(recent_logs(take1, level, k) == seq![take1.last()] + recent_logs(
                        take1.drop_last(),
                        level,
                        k - 1,
                    ));
                    assert(recent_logs(self@.logs.take(i as int + 1), level, k) == seq![ev]
                        + recent_logs(self@.logs.take(i as int), level, k - 1));
                    assert(out.deep_view() =~= out0.push(ev));
                    assert(out0.push(ev) =~= out0 + seq![ev]);
                    assert((out0 + seq![ev]) + recent_logs(self@.logs.take(i as int), level, k - 1)
                        =~= out0 + (seq![ev] + recent_logs(self@.logs.take(i as int), level, k - 1)));
                }
            } else {
                proof {
                    let ev = self@.logs[i as int];
                    assert(!matches_level(ev, level));
                    assert(recent_logs(self@.logs.take(i as int + 1), level, k) == recent_logs(
                        self@.logs.take(i as int),
                        level,
                        k,
                    ));
                }
            }
        }
        proof {
            if i == 0 {
                assert(self@.logs.take(0) =~= Seq::<LogEntryView>::empty());
            }
            assert(recent_logs(self@.logs, level, l0) =~= out.deep_view());
        }
        out
    }
}

/// Whether one rule fires on the disconnection path (executable form).
pub fn rule_fires_on_disconnect(rule: &Rule, mac: &str) -> (r: bool)
    ensures
        r == disconnect_fires(rule@, mac@),
{
    if !rule.enabled {
        return false;
    }
    let admits = match &rule.mac_filter {
        Some(f) => eq_ignore_ascii_case(f.as_str(), mac),
        None => true,
    };
    if !admits {
        return false;
    }
    match rule.trigger_type {
        crate::models::TriggerType::DeviceDisconnected => true,
        crate::models::TriggerType::DeviceStatusChange => true,
        _ => false,
    }
}

/// Builds the notifications of the rules that fire on a disconnection.
pub fn disconnect_notifications(rules: &Vec<Rule>, device: &Device, now: i64) -> (out: Vec<
    NotificationEvent,
>)
    ensures
        out.deep_view() == disconnect_notes(rules.deep_view(), device@, now),
{
    let mut out: Vec<NotificationEvent> = Vec::new();
    let n = rules.len();
    proof {
        assert(rules.deep_view().take(0) =~= Seq::<RuleView>::empty());
        assert(out.deep_view() =~= Seq::<NotificationEventView>::empty());
    }
    for i in 0..n
        invariant
            n == rules.len(),
            out.deep_view() == disconnect_notes(rules.deep_view().take(i as int), device@, now),
    {
        let ghost rv = rules.deep_view();
        proof {
            assert(rv.take(i as int + 1).drop_last() =~= rv.take(i as int));
            assert(rv.take(i as int + 1).last() == rv[i as int]);
        }
        if rule_fires_on_disconnect(&rules[i], device.mac_address.as_str()) {
            let note = notification_for(&rules[i], device, now);
            out.push(note);
            proof {
                assert(out.deep_view() =~= disconnect_notes(rv.take(i as int + 1), device@, now));
            }
        } else {
            proof {
                assert(out.deep_view() =~= disconnect_notes(rv.take(i as int + 1), device@, now));
            }
        }
    }
    proof {
        assert(rules.deep_view().take(n as int) =~= rules.deep_view());
    }
    out
}

/// What one activity event asks the store to do: the row to write, the
/// transition that was seen, and the audit entry to append, if any.
pub struct ActivityPlan {
    pub device: Device,
    pub is_new: bool,
    pub old_status: DeviceStatus,
    pub log: Option<LogEntry>,
}

/// Decides one activity event against the prior row: everything the tracker
/// writes and evaluates, before anything is written.
pub fn plan_activity(existing: &Option<Device>, mac: &str, ip: Option<String>, now: i64) -> (p:
    ActivityPlan)
    ensures
        p.device@ == activity_row(existing.deep_view(), mac@, ip.deep_view(), now),
        p.is_new == (existing is None),
        p.old_status == prior_status(existing.deep_view()),
        match p.log {
            Some(l) => activity_log(existing.deep_view(), mac@, ip.deep_view(), now) == seq![l@],
            None => activity_log(existing.deep_view(), mac@, ip.deep_view(), now) == Seq::<
                LogEntryView,
            >::empty(),
        },
{
    let (is_new, old_status, prior_id, prior_nickname, prior_first_seen): (
        bool,
        DeviceStatus,
        Option<i64>,
        Option<String>,
        i64,
    ) = match existing {
        Some(d) => (false, d.status, d.id, clone_opt_string(&d.nickname), d.first_seen),
        None => (true, DeviceStatus::Unknown, None, None, now),
    };
    let device = Device {
        id: prior_id,
        mac_address: String::from_str(mac),
        ip_address: clone_opt_string(&ip),
        hostname: None,
        nickname: prior_nickname,
        vendor: None,
        first_seen: prior_first_seen,
        last_seen: now,
        status: DeviceStatus::Online,
    };
    let log = if is_new {
        Some(
            LogEntry {
                id: None,
                timestamp: now,
                level: LogLevel::Info,
                category: String::from_str("device"),
                message: concat2("New device discovered: ", mac),
                details: clone_opt_string(&ip),
            },
        )
    } else if old_status != DeviceStatus::Online {
        Some(
            LogEntry {
                id: None,
                timestamp: now,
                level: LogLevel::Info,
                category: String::from_str("device"),
                message: concat2("Device connected: ", mac),
                details: clone_opt_string(&ip),
            },
        )
    } else {
        None
    };
    ActivityPlan { device, is_new, old_status, log }
}

/// What one disconnection asks the store to do, when it acts at all: the
/// offline snapshot handed to rules, and the audit entry to append.
pub struct DisconnectPlan {
    pub snapshot: Device,
    pub log: LogEntry,
}

/// Decides one disconnection against the prior row: nothing for an unknown
/// or already-offline device, otherwise the snapshot and the audit entry.
/// The entry names the MAC as the event carried it.
pub fn plan_disconnection(existing: &Option<Device>, mac: &str, now: i64) -> (p: Option<
    DisconnectPlan,
>)
    ensures
        match p {
            Some(plan) => {
                &&& disconnect_happens(existing.deep_view())
                &&& existing matches Some(d) && plan.snapshot@ == snapshot_offline(d@)
                    && plan.log@ == disconnect_entry(mac@, d@.ip, now)
            },
            None => !disconnect_happens(existing.deep_view()),
        },
{
    match existing {
        Some(d) => {
            if d.status != DeviceStatus::Offline {
                let mut snapshot = d.clone();
                snapshot.status = DeviceStatus::Offline;
                let log = LogEntry {
                    id: None,
                    timestamp: now,
                    level: LogLevel::Warning,
                    category: String::from_str("device"),
                    message: concat2("Device disconnected: ", mac),
                    details: clone_opt_string(&d.ip_address),
                };
                Some(DisconnectPlan { snapshot, log })
            } else {
                None
            }
        },
        None => None,
    }
}

/// Whether a device is past the timeout threshold at time `now`.
pub fn is_timed_out(device: &Device, now: i64, timeout_secs: u64) -> (r: bool)
    requires
        0 <= device@.last_seen,
    ensures
        r == timed_out(device@, now, timeout_secs),
{
    device.status == DeviceStatus::Online && device.last_seen < now && ((now - device.last_seen)
        as u64) > timeout_secs
}

/// The notification one fired rule produces for a device snapshot.
pub fn notification_for(rule: &Rule, device: &Device, now: i64) -> (r: NotificationEvent)
    ensures
        r@ == note_view(rule@, device@, now),
{
    NotificationEvent {
        timestamp: now,
        event_type: rule.trigger_type,
        device: device.clone(),
        message: concat4(
            "Rule '",
            rule.name.as_str(),
            "' triggered for device ",
            device.mac_address.as_str(),
        ),
    }
}

/// Whether one rule fires on an activity transition (executable form).
pub fn rule_fires_on_activity(
    rule: &Rule,
    mac: &str,
    is_new: bool,
    old_status: DeviceStatus,
    new_status: DeviceStatus,
) -> (r: bool)
    ensures
        r == activity_fires(rule@, mac@, is_new, old_status, new_status),
{
    if !rule.enabled {
        return false;
    }
    let admits = match &rule.mac_filter {
        Some(f) => eq_ignore_ascii_case(f.as_str(), mac),
        None => true,
    };
    if !admits {
        return false;
    }
    match rule.trigger_type {
        crate::models::TriggerType::NewDevice => is_new,
        crate::models::TriggerType::DeviceConnected => old_status != DeviceStatus::Online
            && new_status == DeviceStatus::Online,
        crate::models::TriggerType::DeviceStatusChange => old_status != new_status,
        crate::models::TriggerType::DeviceDisconnected => false,
    }
}

/// Builds the notifications of the rules that fire on an activity transition.
pub fn activity_notifications(
    rules: &Vec<Rule>,
    mac: &str,
    is_new: bool,
    old_status: DeviceStatus,
    device: &Device,
    now: i64,
) -> (out: Vec<NotificationEvent>)
    ensures
        out.deep_view() == activity_notes(
            rules.deep_view(),
            mac@,
            is_new,
            old_status,
            device@,
            now,
        ),
{
    let mut out: Vec<NotificationEvent> = Vec::new();
    let n = rules.len();
    proof {
        assert(rules.deep_view().take(0) =~= Seq::<RuleView>::empty());
        assert(out.deep_view() =~= Seq::<NotificationEventView>::empty());
    }
    for i in 0..n
        invariant
            n == rules.len(),
            out.deep_view() == activity_notes(
                rules.deep_view().take(i as int),
                mac@,
                is_new,
                old_status,
                device@,
                now,
            ),
    {
        let ghost rv = rules.deep_view();
        proof {
            assert(rv.take(i as int + 1).drop_last() =~= rv.take(i as int));
            assert(rv.take(i as int + 1).last() == rv[i as int]);
        }
        if rule_fires_on_activity(&rules[i], mac, is_new, old_status, device.status) {
            let note = notification_for(&rules[i], device, now);
            out.push(note);
            proof {
                assert(out.deep_view() =~= activity_notes(
                    rv.take(i as int + 1),
                    mac@,
                    is_new,
                    old_status,
                    device@,
                    now,
                ));
            }
        } else {
            proof {
                assert(out.deep_view() =~= activity_notes(
                    rv.take(i as int + 1),
                    mac@,
                    is_new,
                    old_status,
                    device@,
                    now,
                ));
            }
        }
    }
    proof {
        assert(rules.deep_view().take(n as int) =~= rules.deep_view());
    }
    out
}

// ---------------------------------------------------------------------------
// Event classification
// ---------------------------------------------------------------------------
/// Ghost mirror of an event's classification.
pub enum EventActionView {
    Activity { mac: Seq<char>, ip: Option<Seq<char>> },
    Disconnection { mac: Seq<char> },
}

/// What a network event asks of the tracker: activity of a MAC (with the IP
/// the event carried, if any), or its disappearance.
#[derive(Debug, PartialEq)]
pub enum EventAction {
    Activity { mac: String, ip: Option<String> },
    Disconnection { mac: String },
}

impl View for EventAction {
    type V = EventActionView;

    open spec fn view(&self) -> EventActionView {
        match self {
            EventAction::Activity { mac, ip } => EventActionView::Activity {
                mac: mac@,
                ip: ip.deep_view(),
            },
            EventAction::Disconnection { mac } => EventActionView::Disconnection { mac: mac@ },
        }
    }
}

/// The classification table: address-resolution traffic, address requests and
/// neighbor appearances are activity; only a neighbor's removal is a
/// disconnection.
pub open spec fn action_of(e: NetworkEventView) -> EventActionView {
    match e {
        NetworkEventView::ArpRequest { source_mac, source_ip } => EventActionView::Activity {
            mac: source_mac,
            ip: Some(source_ip),
        },
        NetworkEventView::ArpReply { source_mac, source_ip } => EventActionView::Activity {
            mac: source_mac,
            ip: Some(source_ip),
        },
        NetworkEventView::DhcpRequest { client_mac, requested_ip } => EventActionView::Activity {
            mac: client_mac,
            ip: requested_ip,
        },
        NetworkEventView::NeighborAdded { mac, ip, .. } => EventActionView::Activity {
            mac: mac,
            ip: Some(ip),
        },
        NetworkEventView::NeighborUpdated { mac, ip, .. } => EventActionView::Activity {
            mac: mac,
            ip: Some(ip),
        },
        NetworkEventView::NeighborRemoved { mac, .. } => EventActionView::Disconnection { mac: mac },
    }
}

/// Classifies one network event, matched exhaustively over the closed
/// variant set.
pub fn event_action(e: NetworkEvent) -> (r: EventAction)
    ensures
        r@ == action_of(e@),
{
    match e {
        NetworkEvent::ArpRequest { source_mac, source_ip } => EventAction::Activity {
            mac: source_mac,
            ip: Some(source_ip),
        },
        NetworkEvent::ArpReply { source_mac, source_ip } => EventAction::Activity {
            mac: source_mac,
            ip: Some(source_ip),
        },
        NetworkEvent::DhcpRequest { client_mac, requested_ip } => EventAction::Activity {
            mac: client_mac,
            ip: requested_ip,
        },
        NetworkEvent::NeighborAdded { mac, ip, .. } => EventAction::Activity {
            mac: mac,
            ip: Some(ip),
        },
        NetworkEvent::NeighborUpdated { mac, ip, .. } => EventAction::Activity {
            mac: mac,
            ip: Some(ip),
        },
        NetworkEvent::NeighborRemoved { mac, .. } => EventAction::Disconnection { mac: mac },
    }
}

// ---------------------------------------------------------------------------
// Laws of the activity path
// ---------------------------------------------------------------------------
/// Repeated activity of a device already online appends no audit entry and
/// leaves the device online: activity is idempotent with respect to logging.
pub proof fn lemma_activity_idempotent_when_online(
    prior: DeviceView,
    mac: Seq<char>,
    ip: Option<Seq<char>>,
    now: i64,
)
    requires
        prior.status == DeviceStatus::Online,
    ensures
        activity_log(Some(prior), mac, ip, now) == Seq::<LogEntryView>::empty(),
        activity_row(Some(prior), mac, ip, now).status == DeviceStatus::Online,
{
}

/// A MAC never seen before is created with first-seen equal to last-seen
/// equal to the event time, a discovery audit entry is appended, and an
/// enabled new-device rule fires exactly when its MAC filter is absent or
/// matches.
pub proof fn lemma_first_activity_discovers(
    mac: Seq<char>,
    ip: Option<Seq<char>>,
    now: i64,
    r: RuleView,
)
    ensures
        activity_row(None, mac, ip, now).first_seen == now,
        activity_row(None, mac, ip, now).last_seen == now,
        activity_row(None, mac, ip, now).status == DeviceStatus::Online,
        activity_log(None, mac, ip, now) == seq![
            LogEntryView {
                id: None,
                timestamp: now,
                level: LogLevel::Info,
                category: "device"@,
                message: discovery_message(mac),
                details: ip,
            },
        ],
        r.trigger_type == crate::models::TriggerType::NewDevice ==> (activity_fires(
            r,
            mac,
            true,
            DeviceStatus::Unknown,
            DeviceStatus::Online,
        ) <==> r.enabled && admits_mac(r.mac_filter, mac)),
{
}

/// A device previously offline that shows activity goes online, firing
/// device-connected and status-change rules but not new-device rules.
pub proof fn lemma_reconnection_fires_connected_not_new(
    prior: DeviceView,
    mac: Seq<char>,
    ip: Option<Seq<char>>,
    now: i64,
    r: RuleView,
)
    requires
        prior.status == DeviceStatus::Offline,
    ensures
        activity_row(Some(prior), mac, ip, now).status == DeviceStatus::Online,
        activity_log(Some(prior), mac, ip, now) == seq![
            LogEntryView {
                id: None,
                timestamp: now,
                level: LogLevel::Info,
                category: "device"@,
                message: connected_message(mac),
                details: ip,
            },
        ],
        r.trigger_type == crate::models::TriggerType::DeviceConnected ==> (activity_fires(
            r,
            mac,
            false,
            prior.status,
            DeviceStatus::Online,
        ) <==> r.enabled && admits_mac(r.mac_filter, mac)),
        r.trigger_type == crate::models::TriggerType::DeviceStatusChange ==> (activity_fires(
            r,
            mac,
            false,
            prior.status,
            DeviceStatus::Online,
        ) <==> r.enabled && admits_mac(r.mac_filter, mac)),
        r.trigger_type == crate::models::TriggerType::NewDevice ==> !activity_fires(
            r,
            mac,
            false,
            prior.status,
            DeviceStatus::Online,
        ),
{
}

/// The row lifecycle is soft: an activity event never deletes a row, never
/// changes a row's first-seen once set, and only ever moves the touched row
/// to online; a status update (the disconnection path and the scanner write
/// through it) keeps identity, addresses and first-seen and changes only the
/// status and last-seen.
pub proof fn lemma_device_lifecycle(
    devs: Seq<DeviceView>,
    mac: Seq<char>,
    ip: Option<Seq<char>>,
    now: i64,
    d: DeviceView,
    status: DeviceStatus,
)
    ensures
        upserted(devs, activity_row(prior_of(devs, mac), mac, ip, now)).len() >= devs.len(),
        has_mac(devs, mac) ==> {
            let after = upserted(devs, activity_row(prior_of(devs, mac), mac, ip, now));
            let i = mac_index(devs, mac);
            &&& after.len() == devs.len()
            &&& after[i].first_seen == devs[i].first_seen
            &&& after[i].id == devs[i].id
            &&& after[i].status == DeviceStatus::Online
        },
        status_row(d, status, now).first_seen == d.first_seen,
        status_row(d, status, now).id == d.id,
        status_row(d, status, now).mac == d.mac,
        status_row(d, status, now).ip == d.ip,
        status_row(d, status, now).nickname == d.nickname,
{
}

/// MAC filters match case-insensitively and exactly: a filter admits a MAC
/// precisely when the two fold to the same characters, and admission cannot
/// tell apart two MACs that fold alike.
pub proof fn lemma_mac_filter_case_insensitive_exact(
    f: Seq<char>,
    mac_a: Seq<char>,
    mac_b: Seq<char>,
)
    ensures
        admits_mac(Some(f), mac_a) <==> lower(f) == lower(mac_a),
        lower(mac_a) == lower(mac_b) ==> (admits_mac(Some(f), mac_a) == admits_mac(
            Some(f),
            mac_b,
        )),
{
}

} // verus!

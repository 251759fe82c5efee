//! Operational metrics: the packet counter and the snapshot handed to
//! metrics consumers.

use vstd::prelude::*;

use crate::models::{DeviceStatus, Metrics};
use crate::notifier::Notifier;
use crate::presence::{Directory, with_status};
use crate::rules::{RuleStore, enabled_rules_of};

verus! {

/// The process-wide count of captured packets: monotonic, never reset.
pub struct PacketCounter {
    count: u64,
}

impl View for PacketCounter {
    type V = u64;

    closed spec fn view(&self) -> u64 {
        self.count
    }
}

impl PacketCounter {
    /// A counter at zero.
    pub fn new() -> (r: Self)
        ensures
            r@ == 0,
    {
        PacketCounter { count: 0 }
    }

    /// Counts one captured packet.
    pub fn increment(&mut self)
        requires
            old(self)@ < u64::MAX,
        ensures
            final(self)@ == old(self)@ + 1,
    {
        self.count = self.count + 1;
    }

    /// The count so far.
    pub fn get(&self) -> (r: u64)
        ensures
            r == self@,
    {
        self.count
    }
}

/// One read-only metrics snapshot: store sizes from the directory and the
/// rule store, the two process counters, and the uptime.
pub fn gather_metrics(
    directory: &Directory,
    rules: &RuleStore,
    notifier: &Notifier,
    packets_captured: u64,
    uptime_seconds: u64,
) -> (m: Metrics)
    requires
        directory.wf(),
        rules.wf(),
    ensures
        m.total_devices == directory@.devices.len(),
        m.online_devices == with_status(directory@.devices, DeviceStatus::Online).len(),
        m.offline_devices == with_status(directory@.devices, DeviceStatus::Offline).len(),
        m.total_rules == rules@.rules.len(),
        m.enabled_rules == enabled_rules_of(rules@.rules).len(),
        m.packets_captured == packets_captured,
        m.notifications_sent == notifier@.sent,
        m.uptime_seconds == uptime_seconds,
{
    Metrics {
        total_devices: directory.get_total_device_count(),
        online_devices: directory.get_device_count_by_status(DeviceStatus::Online),
        offline_devices: directory.get_device_count_by_status(DeviceStatus::Offline),
        total_rules: rules.get_total_rule_count(),
        enabled_rules: rules.get_enabled_rule_count(),
        packets_captured: packets_captured,
        notifications_sent: notifier.get_notifications_sent(),
        uptime_seconds: uptime_seconds,
    }
}

} // verus!

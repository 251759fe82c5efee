//! Core of a passive network-presence monitor: a device directory driven by
//! address-resolution activity, a rule engine over presence transitions, and a
//! notification dispatcher with per-channel failure isolation.
//!
//! The pipeline is the one the daemon runs: producers reduce raw network
//! signals to typed events and offer them to a bounded channel
//! ([`channel`]); the single consumer drives the presence state machine and
//! the rule engine ([`presence`]); fired rules become fully built wire
//! requests, delivered one channel at a time with failures isolated per
//! channel ([`notifier`]). Periodic scanners demote stale devices and prune
//! old audit entries through the same store operations.

pub mod channel;
pub mod errors;
pub mod json;
pub mod metrics;
pub mod models;
pub mod netparse;
pub mod notifier;
pub mod presence;
pub mod rules;
pub mod text;
pub mod timefmt;

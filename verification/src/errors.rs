//! The error taxonomy. Causes arising outside the library (the database, the
//! HTTP client, the capture and netlink layers) are carried as their rendered
//! text, so the taxonomy itself stays plain data.

use vstd::prelude::*;

use crate::text::concat2;

verus! {

/// Everything that can go wrong, by origin. Payloads are the human-readable
/// cause.
#[derive(Debug, PartialEq)]
pub enum DaemonError {
    Database(String),
    Config(String),
    Network(String),
    PacketCapture(String),
    Netlink(String),
    Notification(String),
    Http(String),
    Io(String),
    Serialization(String),
    NotFound(String),
    InvalidInput(String),
    Internal(String),
}

/// The rendered form of an error: its origin's prefix and the cause.
pub open spec fn error_text(e: DaemonError) -> Seq<char> {
    match e {
        DaemonError::Database(s) => "Database error: "@ + s@,
        DaemonError::Config(s) => "Configuration error: "@ + s@,
        DaemonError::Network(s) => "Network error: "@ + s@,
        DaemonError::PacketCapture(s) => "Packet capture error: "@ + s@,
        DaemonError::Netlink(s) => "Netlink error: "@ + s@,
        DaemonError::Notification(s) => "Notification error: "@ + s@,
        DaemonError::Http(s) => "HTTP error: "@ + s@,
        DaemonError::Io(s) => "IO error: "@ + s@,
        DaemonError::Serialization(s) => "Serialization error: "@ + s@,
        DaemonError::NotFound(s) => "Not found: "@ + s@,
        DaemonError::InvalidInput(s) => "Invalid input: "@ + s@,
        DaemonError::Internal(s) => "Internal error: "@ + s@,
    }
}

impl DaemonError {
    /// The rendered error message.
    pub fn message(&self) -> (r: String)
        ensures
            r@ == error_text(*self),
    {
        match self {
            DaemonError::Database(s) => concat2("Database error: ", s.as_str()),
            DaemonError::Config(s) => concat2("Configuration error: ", s.as_str()),
            DaemonError::Network(s) => concat2("Network error: ", s.as_str()),
            DaemonError::PacketCapture(s) => concat2("Packet capture error: ", s.as_str()),
            DaemonError::Netlink(s) => concat2("Netlink error: ", s.as_str()),
            DaemonError::Notification(s) => concat2("Notification error: ", s.as_str()),
            DaemonError::Http(s) => concat2("HTTP error: ", s.as_str()),
            DaemonError::Io(s) => concat2("IO error: ", s.as_str()),
            DaemonError::Serialization(s) => concat2("Serialization error: ", s.as_str()),
            DaemonError::NotFound(s) => concat2("Not found: ", s.as_str()),
            DaemonError::InvalidInput(s) => concat2("Invalid input: ", s.as_str()),
            DaemonError::Internal(s) => concat2("Internal error: ", s.as_str()),
        }
    }
}

impl Clone for DaemonError {
    fn clone(&self) -> (r: Self)
        ensures
            r == *self,
    {
        match self {
            DaemonError::Database(s) => DaemonError::Database(s.clone()),
            DaemonError::Config(s) => DaemonError::Config(s.clone()),
            DaemonError::Network(s) => DaemonError::Network(s.clone()),
            DaemonError::PacketCapture(s) => DaemonError::PacketCapture(s.clone()),
            DaemonError::Netlink(s) => DaemonError::Netlink(s.clone()),
            DaemonError::Notification(s) => DaemonError::Notification(s.clone()),
            DaemonError::Http(s) => DaemonError::Http(s.clone()),
            DaemonError::Io(s) => DaemonError::Io(s.clone()),
            DaemonError::Serialization(s) => DaemonError::Serialization(s.clone()),
            DaemonError::NotFound(s) => DaemonError::NotFound(s.clone()),
            DaemonError::InvalidInput(s) => DaemonError::InvalidInput(s.clone()),
            DaemonError::Internal(s) => DaemonError::Internal(s.clone()),
        }
    }
}

} // verus!

//! Error taxonomy for mesh-core operations.

use vstd::prelude::*;

verus! {

use vstd::string::StringExecFns;

/// The kinds of failure that operations of this crate report.
///
/// Every fallible operation returns one of these rather than aborting.
#[derive(Debug)]
pub enum AtmosphereError {
    /// Operation requires a started node.
    NotInitialized,
    /// Transport-level failure, with a message.
    Network(String),
    /// Malformed structured data.
    Serialization(String),
    /// A capability looked up by id or name was absent.
    CapabilityNotFound(String),
    /// Routing found no node within the cost budget.
    NoCapablePeer(String),
    /// Cryptographic signing or verification failure.
    Signature(String),
    /// A connection attempt failed.
    ConnectionFailed(String),
    /// An operation timed out.
    Timeout(String),
    /// Invalid configuration, e.g. starting an already-running node.
    InvalidConfig(String),
    /// Catch-all internal error.
    Internal(String),
}

impl AtmosphereError {
    /// The human-readable message for this error, as a sequence of characters.
    pub open spec fn message_spec(&self) -> Seq<char> {
        match self {
            AtmosphereError::NotInitialized => "Node not initialized"@,
            AtmosphereError::Network(m) => "Network error: "@ + m@,
            AtmosphereError::Serialization(m) => "Serialization error: "@ + m@,
            AtmosphereError::CapabilityNotFound(m) => "Capability not found: "@ + m@,
            AtmosphereError::NoCapablePeer(m) => "No capable peer found for intent: "@ + m@,
            AtmosphereError::Signature(m) => "Signature error: "@ + m@,
            AtmosphereError::ConnectionFailed(m) => "Connection failed: "@ + m@,
            AtmosphereError::Timeout(m) => "Timeout: "@ + m@,
            AtmosphereError::InvalidConfig(m) => "Invalid configuration: "@ + m@,
            AtmosphereError::Internal(m) => "Internal error: "@ + m@,
        }
    }

    /// The human-readable description of this error.
    pub fn message(&self) -> (r: String)
        ensures
            r@ == self.message_spec(),
    {
        match self {
            AtmosphereError::NotInitialized => "Node not initialized".to_owned(),
            AtmosphereError::Network(m) => {
                let mut s = "Network error: ".to_owned();
                s.append(m.as_str());
                s
            },
            AtmosphereError::Serialization(m) => {
                let mut s = "Serialization error: ".to_owned();
                s.append(m.as_str());
                s
            },
            AtmosphereError::CapabilityNotFound(m) => {
                let mut s = "Capability not found: ".to_owned();
                s.append(m.as_str());
                s
            },
            AtmosphereError::NoCapablePeer(m) => {
                let mut s = "No capable peer found for intent: ".to_owned();
                s.append(m.as_str());
                s
            },
            AtmosphereError::Signature(m) => {
                let mut s = "Signature error: ".to_owned();
                s.append(m.as_str());
                s
            },
            AtmosphereError::ConnectionFailed(m) => {
                let mut s = "Connection failed: ".to_owned();
                s.append(m.as_str());
                s
            },
            AtmosphereError::Timeout(m) => {
                let mut s = "Timeout: ".to_owned();
                s.append(m.as_str());
                s
            },
            AtmosphereError::InvalidConfig(m) => {
                let mut s = "Invalid configuration: ".to_owned();
                s.append(m.as_str());
                s
            },
            AtmosphereError::Internal(m) => {
                let mut s = "Internal error: ".to_owned();
                s.append(m.as_str());
                s
            },
        }
    }
}

} // verus!

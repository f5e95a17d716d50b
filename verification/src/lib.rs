//! Platform-agnostic core of a peer-to-peer mesh network.
//!
//! Nodes advertise capabilities, discover peers over a gossip protocol,
//! and route intents to whichever node can satisfy them most cheaply.

use vstd::prelude::*;

pub mod capability;
mod clock;
pub mod cost;
pub mod error;
pub mod mesh;
pub mod intent;
pub mod metrics;
pub mod model;
pub mod node;
pub mod peer;
pub mod util;

pub use capability::{Capability, CapabilityRegistry};
pub use cost::{CostCollector, NodeCost};
pub use error::AtmosphereError;
pub use intent::{Intent, IntentRouter, IntentStatus};
pub use mesh::{GossipMessage, MeshClient, PeerInfo};
pub use metrics::PlatformMetrics;
pub use node::{AtmosphereNode, NodeConfig, NodeId};

verus! {

/// Library version.
pub const VERSION: &'static str = "0.1.0";

} // verus!

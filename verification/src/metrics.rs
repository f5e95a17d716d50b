//! Platform metrics abstraction.
//!
//! The cost model depends only on this interface; each platform supplies
//! battery, CPU and memory readings through an implementation of it,
//! injected at construction. Fractional readings are fixed point, in
//! ten-thousandths of full scale (see `crate::cost::COST_SCALE`).

use vstd::prelude::*;

verus! {

/// Network connection type.
#[derive(Debug, Clone, Copy, PartialEq, Eq, Structural)]
pub enum NetworkType {
    Wifi,
    Cellular,
    Ethernet,
    Unknown,
}

impl Default for NetworkType {
    /// The default network type is unknown.
    fn default() -> (r: Self)
        ensures
            r == NetworkType::Unknown,
    {
        NetworkType::Unknown
    }
}

/// Platform metrics provider.
///
/// Implement this trait for each platform to provide device metrics; the
/// cost model reads them to score the local node. Implementations are
/// expected to return cached or instant values, never to block.
pub trait PlatformMetrics {
    /// Abstract battery percentage reading (whole percent), if available.
    spec fn battery_percent_spec(&self) -> Option<u32>;

    /// Abstract reading of whether the device runs on battery power.
    spec fn is_on_battery_spec(&self) -> bool;

    /// Abstract CPU load reading, in ten-thousandths of full utilization.
    spec fn cpu_load_spec(&self) -> u64;

    /// Abstract available-memory reading, in megabytes.
    spec fn available_memory_mb_spec(&self) -> u64;

    /// Abstract total-memory reading, in megabytes; 0 means unknown.
    spec fn total_memory_mb_spec(&self) -> u64;

    /// Current battery percentage (whole percent, 0 to 100), or None if
    /// battery status is unavailable, e.g. a desktop without a battery.
    fn battery_percent(&self) -> (r: Option<u32>)
        ensures
            r == self.battery_percent_spec(),
    ;

    /// Whether the device is running on battery power; false if plugged in
    /// or no battery is present.
    fn is_on_battery(&self) -> (r: bool)
        ensures
            r == self.is_on_battery_spec(),
    ;

    /// Current CPU load, in ten-thousandths of full utilization.
    fn cpu_load(&self) -> (r: u64)
        ensures
            r == self.cpu_load_spec(),
    ;

    /// Available memory in megabytes.
    fn available_memory_mb(&self) -> (r: u64)
        ensures
            r == self.available_memory_mb_spec(),
    ;

    /// Total memory in megabytes; 0 means unknown.
    fn total_memory_mb(&self) -> (r: u64)
        ensures
            r == self.total_memory_mb_spec(),
    ;

    /// Whether the device is in power-saving mode.
    fn is_power_saving(&self) -> bool {
        false
    }

    /// The current network connection type.
    fn network_type(&self) -> NetworkType {
        NetworkType::Unknown
    }

    /// Estimated network bandwidth in Mbps; 0 if unknown.
    fn estimated_bandwidth_mbps(&self) -> u32 {
        0
    }
}

/// Fixed metrics for testing: every reading comes straight from a field.
#[derive(Debug, Clone)]
pub struct MockMetrics {
    /// Battery percentage, whole percent, None if unavailable.
    pub battery: Option<u32>,
    /// Whether the device runs on battery power.
    pub on_battery: bool,
    /// CPU load, in ten-thousandths of full utilization.
    pub cpu: u64,
    /// Available memory in megabytes.
    pub memory_mb: u64,
    /// Total memory in megabytes.
    pub total_memory_mb: u64,
}

impl Default for MockMetrics {
    /// 80% battery, on battery power, 30% CPU load, 2048 of 4096 MB free.
    fn default() -> (r: Self)
        ensures
            r.battery == Some(80u32),
            r.on_battery,
            r.cpu == 3000,
            r.memory_mb == 2048,
            r.total_memory_mb == 4096,
    {
        MockMetrics {
            battery: Some(80),
            on_battery: true,
            cpu: 3000,
            memory_mb: 2048,
            total_memory_mb: 4096,
        }
    }
}

impl PlatformMetrics for MockMetrics {
    open spec fn battery_percent_spec(&self) -> Option<u32> {
        self.battery
    }

    open spec fn is_on_battery_spec(&self) -> bool {
        self.on_battery
    }

    open spec fn cpu_load_spec(&self) -> u64 {
        self.cpu
    }

    open spec fn available_memory_mb_spec(&self) -> u64 {
        self.memory_mb
    }

    open spec fn total_memory_mb_spec(&self) -> u64 {
        self.total_memory_mb
    }

    fn battery_percent(&self) -> (r: Option<u32>)
    {
        self.battery
    }

    fn is_on_battery(&self) -> (r: bool)
    {
        self.on_battery
    }

    fn cpu_load(&self) -> (r: u64)
    {
        self.cpu
    }

    fn available_memory_mb(&self) -> (r: u64)
    {
        self.memory_mb
    }

    fn total_memory_mb(&self) -> (r: u64)
    {
        self.total_memory_mb
    }
}

} // verus!

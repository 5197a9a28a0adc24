//! Basic protocol scalars.

use vstd::prelude::*;

verus! {

/// Gas, the unit of computational cost.
pub type Gas = u64;

/// Identifier of a shard.
pub type ShardId = u64;

/// Identifier of an account, reduced to the key the sink reads: the epoch
/// information provider maps it to a shard.
pub type AccountId = u64;

/// Protocol version number used for feature gating.
pub type ProtocolVersion = u32;

/// First protocol version with congestion-aware receipt forwarding.
pub const CONGESTION_CONTROL_VERSION: ProtocolVersion = 67;

/// First protocol version with the bandwidth scheduler.
pub const BANDWIDTH_SCHEDULER_VERSION: ProtocolVersion = 74;

/// Whether congestion-aware forwarding is active at `version`.
pub open spec fn spec_congestion_control_enabled(version: ProtocolVersion) -> bool {
    version >= CONGESTION_CONTROL_VERSION
}

/// Whether the bandwidth scheduler is active at `version`.
pub open spec fn spec_bandwidth_scheduler_enabled(version: ProtocolVersion) -> bool {
    version >= BANDWIDTH_SCHEDULER_VERSION
}

/// Executable check for the congestion-control feature gate.
pub fn congestion_control_enabled(version: ProtocolVersion) -> (b: bool)
    ensures
        b == spec_congestion_control_enabled(version),
{
    version >= CONGESTION_CONTROL_VERSION
}

/// Executable check for the bandwidth-scheduler feature gate.
pub fn bandwidth_scheduler_enabled(version: ProtocolVersion) -> (b: bool)
    ensures
        b == spec_bandwidth_scheduler_enabled(version),
{
    version >= BANDWIDTH_SCHEDULER_VERSION
}

} // verus!

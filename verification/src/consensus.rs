//! Settings and decisions of the consensus event loop and of cluster bootstrap.
use vstd::prelude::*;

use crate::remediation_raft::RaftRole;

verus! {

/// Timing of the consensus event loop.
#[derive(Debug, Clone, Copy)]
pub struct EventLoopConfig {
    /// Interval between ticks, in milliseconds.
    pub tick_interval_ms: u64,
    /// Ticks between progress log lines.
    pub tick_log_interval: u64,
}

impl Default for EventLoopConfig {
    /// A tick every 100 ms, logged every 50 ticks.
    fn default() -> (c: Self)
        ensures
            c.tick_interval_ms == 100,
            c.tick_log_interval == 50,
    {
        EventLoopConfig { tick_interval_ms: 100, tick_log_interval: 50 }
    }
}

impl EventLoopConfig {
    /// Whether the tick numbered `tick_count` is logged: every `tick_log_interval`-th
    /// one (none when the interval is 0).
    pub fn should_log_tick(&self, tick_count: u64) -> (r: bool)
        ensures
            r == (self.tick_log_interval > 0 && tick_count % self.tick_log_interval == 0),
    {
        self.tick_log_interval > 0 && tick_count % self.tick_log_interval == 0
    }
}

/// Whether a node starts a single-node cluster: it has no peers and no address to
/// join.
pub fn should_bootstrap(peer_count: usize, has_join_address: bool) -> (r: bool)
    ensures
        r == (peer_count == 0 && !has_join_address),
{
    peer_count == 0 && !has_join_address
}

/// Whether a bootstrapping node proposes an empty entry to establish its leadership:
/// only when its campaign made it leader.
pub fn should_propose_empty_entry(role: RaftRole) -> (r: bool)
    ensures
        r == (role == RaftRole::Leader),
{
    role == RaftRole::Leader
}

/// Makes bootstrap coordinators.
pub struct BootstrapCoordinatorFactory;

/// Makes event loops.
pub struct EventLoopFactory;

/// Makes the event handlers of the consensus loop.
pub struct HandlerFactory;

} // verus!

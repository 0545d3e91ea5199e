//! Fleet configuration, constructed once at process start and handed by
//! reference into each component. There is no ambient global lookup.

use vstd::prelude::*;

verus! {

/// Static configuration of one gateway process.
pub struct Config {
    /// The bot's own user id; the cache tracks self-membership for it alone.
    pub client_id: u64,
    /// Authentication token for the upstream event source.
    pub token: String,
    /// Fleet-wide identify concurrency budget (number of admission buckets).
    pub concurrency: u64,
    /// Address of the store used by the admission gate and health tracker.
    pub redis_addr: String,
    /// Address of the store that holds the cached entity tables.
    pub gateway_redis_addr: String,
    /// Index of this process within the fleet.
    pub node_id: u16,
    /// Number of processes in the fleet.
    pub total_nodes: u16,
    /// Number of shards across the whole fleet.
    pub total_shards: u16,
    /// When set, the event router drops events instead of dispatching them.
    pub ignore_events: bool,
}

impl Config {
    /// A configuration the components can run on: the admission gate needs a
    /// non-zero bucket count, and a fleet with no shards has nothing to run.
    pub open spec fn wf(self) -> bool {
        &&& self.concurrency > 0
        &&& self.total_shards > 0
    }

    /// Checks that this configuration is usable; gate construction demands it.
    pub fn is_valid(&self) -> (r: bool)
        ensures
            r == self.wf(),
    {
        self.concurrency > 0 && self.total_shards > 0
    }
}

/// How many shards one process drives at most.
pub const SHARDS_PER_NODE: u16 = 16;

/// The inclusive range of shard ids this node owns.
///
/// A fleet smaller than one node's share is assumed to be a single process
/// that owns every shard; otherwise each node takes the next block of
/// `SHARDS_PER_NODE` consecutive ids.
pub fn shard_range(node_id: u16, total_shards: u16) -> (r: (u16, u16))
    requires
        total_shards > 0,
        total_shards >= SHARDS_PER_NODE ==> (node_id + 1) * SHARDS_PER_NODE <= u16::MAX,
    ensures
        total_shards < SHARDS_PER_NODE ==> r == (0u16, (total_shards - 1) as u16),
        total_shards >= SHARDS_PER_NODE ==> r == (
            (node_id * SHARDS_PER_NODE) as u16,
            ((node_id + 1) * SHARDS_PER_NODE - 1) as u16,
        ),
        r.0 <= r.1,
{
    if total_shards < SHARDS_PER_NODE {
        (0, total_shards - 1)
    } else {
        (node_id * SHARDS_PER_NODE, (node_id + 1) * SHARDS_PER_NODE - 1)
    }
}

} // verus!

//! The event router: hands each incoming `(shard, event)` pair to the shard
//! health tracker and then to the cache synchronizer. Self-identity updates
//! are resolved inside the synchronizer, synchronously before its dispatch.

use vstd::prelude::*;

use crate::event::DomainEvent;
use crate::health::{apply_health, ShardStateManager};
use crate::sync::{apply_event, event_error, CacheError, CacheSynchronizer};

verus! {

/// The two event consumers, wired together.
pub struct EventRouter {
    pub cache: CacheSynchronizer,
    pub shards: ShardStateManager,
}

impl EventRouter {
    /// A router over an empty projection and an empty health table.
    pub fn new(own_user_id: u64) -> (r: EventRouter)
        ensures
            r.cache.own_user_id == own_user_id,
            r.cache.store@ == crate::model::empty_store(),
            r.cache.store@.wf(),
            r.shards@ == Map::<u64, crate::health::ShardState>::empty(),
    {
        EventRouter { cache: CacheSynchronizer::new(own_user_id), shards: ShardStateManager::new() }
    }

    /// Routes one event: the health table sees it first, then the cache. A
    /// per-event failure is reported to the caller, which logs and goes on
    /// with the next event; the health update has happened either way.
    pub fn route(
        &mut self,
        shard_id: u64,
        event: DomainEvent,
        now: i64,
        latency: Option<u64>,
    ) -> (r: Result<(), CacheError>)
        requires
            old(self).cache.store@.wf(),
        ensures
            final(self).cache.own_user_id == old(self).cache.own_user_id,
            final(self).cache.store@.wf(),
            final(self).shards@ == apply_health(old(self).shards@, shard_id, event, now, latency),
            final(self).cache.store@ == apply_event(
                old(self).cache.store@,
                event,
                old(self).cache.own_user_id,
            ),
            (r is Err) <==> event_error(event, old(self).cache.own_user_id),
    {
        self.shards.handle_event(shard_id, &event, now, latency);
        self.cache.handle_event(event)
    }
}

} // verus!

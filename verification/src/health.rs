//! The shard health tracker.
//!
//! One record per shard, created lazily, never deleted, updated by a
//! read-modify-write on each connectivity transition. The disconnection
//! counter only ever grows; the two timestamps are overwritten with the
//! caller-supplied clock reading, with no guard against clock skew. A shard
//! id is owned by one process at a time by fleet design; nothing here
//! compensates if that assumption breaks.

use vstd::prelude::*;

use std::collections::HashMap;

use crate::event::DomainEvent;

verus! {

broadcast use vstd::std_specs::hash::group_hash_axioms;

/// One shard's health record.
#[derive(Clone, Copy, PartialEq, Eq, Structural, Debug)]
pub struct ShardState {
    /// Whether the shard is believed connected.
    pub up: bool,
    /// When the shard last connected or resumed (seconds since the epoch).
    pub last_connection: i64,
    /// When a heartbeat was last observed.
    pub last_heartbeat: i64,
    /// How often the shard's socket closed; never decreases.
    pub disconnection_count: u64,
    /// The last observed heartbeat round-trip, in milliseconds.
    pub latency_ms: u64,
}

/// The record a shard has before its first event: down, never seen.
pub open spec fn initial_shard_state() -> ShardState {
    ShardState { up: false, last_connection: 0, last_heartbeat: 0, disconnection_count: 0, latency_ms: 0 }
}

impl Default for ShardState {
    /// The record a never-seen shard reads as.
    fn default() -> (r: ShardState)
        ensures
            r == initial_shard_state(),
    {
        ShardState { up: false, last_connection: 0, last_heartbeat: 0, disconnection_count: 0, latency_ms: 0 }
    }
}

/// The counter after one more disconnection; it pins at the top rather than
/// wrap, so it never decreases.
pub open spec fn count_up(c: u64) -> u64 {
    if c == u64::MAX {
        c
    } else {
        (c + 1) as u64
    }
}

/// What one event does to one shard's record. Connection and resumption mark
/// the shard up and stamp the connection time; a close marks it down and
/// counts; a heartbeat implies liveness even without a reconnect and stamps
/// the heartbeat time, taking the round-trip measurement when one came.
pub open spec fn health_transition(
    st: ShardState,
    e: DomainEvent,
    now: i64,
    latency: Option<u64>,
) -> ShardState {
    match e {
        DomainEvent::ShardConnected => ShardState { up: true, last_connection: now, ..st },
        DomainEvent::Resumed => ShardState { up: true, last_connection: now, ..st },
        DomainEvent::ShardDisconnected => ShardState {
            up: false,
            disconnection_count: count_up(st.disconnection_count),
            ..st
        },
        DomainEvent::GatewayHeartbeat => ShardState {
            up: true,
            last_heartbeat: now,
            latency_ms: match latency {
                Some(l) => l,
                None => st.latency_ms,
            },
            ..st
        },
        _ => st,
    }
}

/// The record a table holds for a shard, the initial record when none.
pub open spec fn shard_of(m: Map<u64, ShardState>, shard_id: u64) -> ShardState {
    if m.dom().contains(shard_id) {
        m[shard_id]
    } else {
        initial_shard_state()
    }
}

/// What one event does to the whole health table: a connectivity transition
/// rewrites that shard's record; every other event leaves the table alone.
pub open spec fn apply_health(
    m: Map<u64, ShardState>,
    shard_id: u64,
    e: DomainEvent,
    now: i64,
    latency: Option<u64>,
) -> Map<u64, ShardState> {
    match e {
        DomainEvent::ShardConnected => m.insert(
            shard_id,
            health_transition(shard_of(m, shard_id), e, now, latency),
        ),
        DomainEvent::Resumed => m.insert(
            shard_id,
            health_transition(shard_of(m, shard_id), e, now, latency),
        ),
        DomainEvent::ShardDisconnected => m.insert(
            shard_id,
            health_transition(shard_of(m, shard_id), e, now, latency),
        ),
        DomainEvent::GatewayHeartbeat => m.insert(
            shard_id,
            health_transition(shard_of(m, shard_id), e, now, latency),
        ),
        _ => m,
    }
}

/// The health table: the store's per-shard records, keyed by shard id.
pub struct ShardStateManager {
    shards: HashMap<u64, ShardState>,
}

impl View for ShardStateManager {
    type V = Map<u64, ShardState>;

    closed spec fn view(&self) -> Map<u64, ShardState> {
        self.shards@
    }
}

impl ShardStateManager {
    /// A table with no records yet.
    pub fn new() -> (r: ShardStateManager)
        ensures
            r@ == Map::<u64, ShardState>::empty(),
    {
        ShardStateManager { shards: HashMap::new() }
    }

    /// Reads a shard's record, the initial one when none exists yet.
    pub fn get_shard(&self, shard_id: u64) -> (r: ShardState)
        ensures
            r == shard_of(self@, shard_id),
    {
        match self.shards.get(&shard_id) {
            Some(st) => *st,
            None => ShardState::default(),
        }
    }

    /// Writes a shard's record back.
    fn save_shard(&mut self, shard_id: u64, info: ShardState)
        ensures
            final(self)@ == old(self)@.insert(shard_id, info),
    {
        self.shards.insert(shard_id, info);
    }

    /// The shard connected or resumed: mark it up, stamp the time.
    fn ready_or_resumed(&mut self, shard_id: u64, now: i64)
        ensures
            final(self)@ == old(self)@.insert(
                shard_id,
                (ShardState {
                    up: true,
                    last_connection: now,
                    ..shard_of(old(self)@, shard_id)
                }),
            ),
    {
        let mut info = self.get_shard(shard_id);
        info.last_connection = now;
        info.up = true;
        self.save_shard(shard_id, info);
    }

    /// The shard's socket closed: mark it down, count the disconnection.
    fn socket_closed(&mut self, shard_id: u64)
        ensures
            final(self)@ == old(self)@.insert(
                shard_id,
                (ShardState {
                    up: false,
                    disconnection_count: count_up(
                        shard_of(old(self)@, shard_id).disconnection_count,
                    ),
                    ..shard_of(old(self)@, shard_id)
                }),
            ),
    {
        let mut info = self.get_shard(shard_id);
        info.up = false;
        if info.disconnection_count < u64::MAX {
            info.disconnection_count = info.disconnection_count + 1;
        }
        self.save_shard(shard_id, info);
    }

    /// A heartbeat was observed: the shard is alive even without an explicit
    /// reconnect.
    fn heartbeated(&mut self, shard_id: u64, now: i64, latency: Option<u64>)
        ensures
            final(self)@ == old(self)@.insert(
                shard_id,
                (ShardState {
                    up: true,
                    last_heartbeat: now,
                    latency_ms: (match latency {
                        Some(l) => l,
                        None => shard_of(old(self)@, shard_id).latency_ms,
                    }),
                    ..shard_of(old(self)@, shard_id)
                }),
            ),
    {
        let mut info = self.get_shard(shard_id);
        info.up = true;
        info.last_heartbeat = now;
        match latency {
            Some(l) => {
                info.latency_ms = l;
            },
            None => {},
        }
        self.save_shard(shard_id, info);
    }

    /// Consumes one event for one shard, updating that shard's record on the
    /// connectivity transitions and ignoring everything else.
    pub fn handle_event(
        &mut self,
        shard_id: u64,
        event: &DomainEvent,
        now: i64,
        latency: Option<u64>,
    )
        ensures
            final(self)@ == apply_health(old(self)@, shard_id, *event, now, latency),
            shard_of(final(self)@, shard_id).disconnection_count >= shard_of(
                old(self)@,
                shard_id,
            ).disconnection_count,
    {
        match event {
            DomainEvent::ShardConnected => self.ready_or_resumed(shard_id, now),
            DomainEvent::Resumed => self.ready_or_resumed(shard_id, now),
            DomainEvent::ShardDisconnected => self.socket_closed(shard_id),
            DomainEvent::GatewayHeartbeat => self.heartbeated(shard_id, now, latency),
            _ => {},
        }
    }
}

/// Computes one transition on a single record, for a caller that itself
/// read the record from the shared store and writes the result back.
pub fn transition_record(
    st: ShardState,
    event: &DomainEvent,
    now: i64,
    latency: Option<u64>,
) -> (r: ShardState)
    ensures
        r == health_transition(st, *event, now, latency),
        r.disconnection_count >= st.disconnection_count,
{
    let mut info = st;
    match event {
        DomainEvent::ShardConnected => {
            info.up = true;
            info.last_connection = now;
        },
        DomainEvent::Resumed => {
            info.up = true;
            info.last_connection = now;
        },
        DomainEvent::ShardDisconnected => {
            info.up = false;
            if info.disconnection_count < u64::MAX {
                info.disconnection_count = info.disconnection_count + 1;
            }
        },
        DomainEvent::GatewayHeartbeat => {
            info.up = true;
            info.last_heartbeat = now;
            match latency {
                Some(l) => {
                    info.latency_ms = l;
                },
                None => {},
            }
        },
        _ => {},
    }
    info
}

/// A whole observed history: for each event, the shard it came from, the
/// clock reading and the measured latency that came with it.
pub open spec fn apply_health_seq(
    m: Map<u64, ShardState>,
    obs: Seq<(u64, DomainEvent, i64, Option<u64>)>,
) -> Map<u64, ShardState>
    decreases obs.len(),
{
    if obs.len() == 0 {
        m
    } else {
        apply_health_seq(
            apply_health(m, obs[0].0, obs[0].1, obs[0].2, obs[0].3),
            obs.drop_first(),
        )
    }
}

/// Health monotonicity: across any sequence of events, a shard's
/// disconnection counter never decreases.
pub proof fn lemma_health_monotonic(
    m: Map<u64, ShardState>,
    obs: Seq<(u64, DomainEvent, i64, Option<u64>)>,
    shard_id: u64,
)
    ensures
        shard_of(apply_health_seq(m, obs), shard_id).disconnection_count >= shard_of(
            m,
            shard_id,
        ).disconnection_count,
    decreases obs.len(),
{
    if obs.len() > 0 {
        let m1 = apply_health(m, obs[0].0, obs[0].1, obs[0].2, obs[0].3);
        assert(shard_of(m1, shard_id).disconnection_count >= shard_of(
            m,
            shard_id,
        ).disconnection_count);
        lemma_health_monotonic(m1, obs.drop_first(), shard_id);
    }
}

} // verus!

//! The identify admission gate.
//!
//! Shards are hashed onto `concurrency` buckets; a bucket is claimed by a
//! conditional write with a fixed expiry against the shared store, and the
//! claim's own expiry is the refill. The store's marker table is modelled
//! here as a map from bucket to expiry instant; `try_claim` has exactly the
//! semantics of the conditional write ("set, expiring, only if absent"), with
//! an expired marker counting as absent. Correctness rests solely on that
//! write being atomic; no client-side locking exists.

use vstd::prelude::*;

use std::collections::HashMap;

verus! {

broadcast use vstd::std_specs::hash::group_hash_axioms;

/// Admission policy constants. Both are policy, not protocol: they stay
/// configurable.
pub struct GateConfig {
    /// How long a bucket claim lives, in seconds.
    pub expiry_secs: u64,
    /// How long an unadmitted caller sleeps before retrying, in milliseconds.
    pub retry_interval_ms: u64,
}

impl GateConfig {
    /// The defaults the system runs with: six-second claims, half-second
    /// retries.
    pub fn standard() -> (r: GateConfig)
        ensures
            r.expiry_secs == 6,
            r.retry_interval_ms == 500,
    {
        GateConfig { expiry_secs: 6, retry_interval_ms: 500 }
    }
}

/// The bucket a shard contends on.
pub open spec fn bucket_of(shard_id: u64, concurrency: u64) -> u64
    recommends
        concurrency > 0,
{
    shard_id % concurrency
}

/// Maps a shard onto its admission bucket.
pub fn bucket_for(shard_id: u64, concurrency: u64) -> (r: u64)
    requires
        concurrency > 0,
    ensures
        r == bucket_of(shard_id, concurrency),
        r < concurrency,
{
    shard_id % concurrency
}

/// Whether a bucket is claimed at an instant: its marker exists and has not
/// expired.
pub open spec fn claimed(m: Map<u64, u64>, bucket: u64, now: u64) -> bool {
    m.dom().contains(bucket) && now < m[bucket]
}

/// The buckets claimed at an instant.
pub open spec fn claimed_buckets(m: Map<u64, u64>, now: u64) -> Set<u64> {
    Set::new(|b: u64| claimed(m, b, now))
}

/// The bucket ids a budget of `n` admits.
pub open spec fn bucket_range(n: u64) -> Set<u64> {
    Set::new(|b: u64| b < n)
}

pub proof fn lemma_bucket_range_len(n: u64)
    ensures
        bucket_range(n).finite(),
        bucket_range(n).len() == n,
    decreases n,
{
    if n == 0 {
        assert(bucket_range(0) =~= Set::<u64>::empty());
    } else {
        lemma_bucket_range_len((n - 1) as u64);
        assert(bucket_range(n) =~= bucket_range((n - 1) as u64).insert((n - 1) as u64));
        assert(!bucket_range((n - 1) as u64).contains((n - 1) as u64));
    }
}

/// Admission fairness bound: whatever the set of shards, as long as every
/// marker was written through `bucket_of` with budget `concurrency`, at most
/// `concurrency` buckets are simultaneously claimed.
pub proof fn lemma_admission_fairness(m: Map<u64, u64>, now: u64, concurrency: u64)
    requires
        concurrency > 0,
        forall|b: u64| m.dom().contains(b) ==> b < concurrency,
    ensures
        claimed_buckets(m, now).finite(),
        claimed_buckets(m, now).len() <= concurrency,
{
    lemma_bucket_range_len(concurrency);
    assert(claimed_buckets(m, now).subset_of(bucket_range(concurrency)));
    vstd::set_lib::lemma_len_subset(claimed_buckets(m, now), bucket_range(concurrency));
}

/// No re-claim before expiry: once a bucket is claimed at `t` with expiry
/// `e`, every attempt strictly before `t + e` finds it claimed, and only
/// after that instant can a claim succeed again.
pub proof fn lemma_no_reclaim_before_expiry(m: Map<u64, u64>, bucket: u64, t: u64, e: u64, t2: u64)
    requires
        t + e <= u64::MAX,
        t <= t2,
        t2 < t + e,
    ensures
        claimed(m.insert(bucket, (t + e) as u64), bucket, t2),
{
}

/// In-memory model of the store's bucket markers: bucket id to the instant
/// its marker expires.
pub struct BucketTable {
    claims: HashMap<u64, u64>,
}

impl View for BucketTable {
    type V = Map<u64, u64>;

    closed spec fn view(&self) -> Map<u64, u64> {
        self.claims@
    }
}

impl BucketTable {
    /// A table with no markers: every bucket available.
    pub fn new() -> (r: BucketTable)
        ensures
            r@ == Map::<u64, u64>::empty(),
    {
        BucketTable { claims: HashMap::new() }
    }

    /// The conditional claim: "write a marker expiring after `expiry_secs`,
    /// only if none lives". Returns whether admission was granted. Atomic in
    /// the real store; this model is the single-caller view of it.
    pub fn try_claim(&mut self, bucket: u64, now: u64, expiry_secs: u64) -> (granted: bool)
        requires
            now + expiry_secs <= u64::MAX,
        ensures
            granted == !claimed(old(self)@, bucket, now),
            granted ==> final(self)@ == old(self)@.insert(bucket, (now + expiry_secs) as u64),
            !granted ==> final(self)@ == old(self)@,
    {
        let live = match self.claims.get(&bucket) {
            Some(exp) => now < *exp,
            None => false,
        };
        if live {
            false
        } else {
            self.claims.insert(bucket, now + expiry_secs);
            true
        }
    }
}

/// What the admission loop does after one claim attempt: proceed, or sleep
/// the fixed interval and try again. The loop itself (the sleeping) lives
/// outside the verified core.
pub enum AcquireDecision {
    /// Admission granted: the caller may open its connection now.
    Granted,
    /// Not yet: retry after this many milliseconds, without bound.
    RetryAfterMillis(u64),
}

/// One iteration of `acquire`: attempt the bucket claim, and decide.
pub fn request_attempt(
    table: &mut BucketTable,
    shard_id: u64,
    concurrency: u64,
    cfg: &GateConfig,
    now: u64,
) -> (r: AcquireDecision)
    requires
        concurrency > 0,
        now + cfg.expiry_secs <= u64::MAX,
    ensures
        ({
            let b = bucket_of(shard_id, concurrency);
            &&& (r is Granted) == !claimed(old(table)@, b, now)
            &&& (r is Granted) ==> final(table)@ == old(table)@.insert(
                b,
                (now + cfg.expiry_secs) as u64,
            )
            &&& !(r is Granted) ==> r == AcquireDecision::RetryAfterMillis(cfg.retry_interval_ms)
                && final(table)@ == old(table)@
            &&& (forall|x: u64| old(table)@.dom().contains(x) ==> x < concurrency) ==> (forall|
                x: u64,
            |
                final(table)@.dom().contains(x) ==> x < concurrency)
        }),
{
    let bucket = bucket_for(shard_id, concurrency);
    let granted = table.try_claim(bucket, now, cfg.expiry_secs);
    if granted {
        AcquireDecision::Granted
    } else {
        AcquireDecision::RetryAfterMillis(cfg.retry_interval_ms)
    }
}

/// Turns the outcome of the store's conditional write into the loop's next
/// action; the unverified retry loop calls this on what the store returned.
pub fn acquire_step(granted: bool, retry_interval_ms: u64) -> (r: AcquireDecision)
    ensures
        granted ==> r is Granted,
        !granted ==> r == AcquireDecision::RetryAfterMillis(retry_interval_ms),
{
    if granted {
        AcquireDecision::Granted
    } else {
        AcquireDecision::RetryAfterMillis(retry_interval_ms)
    }
}

} // verus!

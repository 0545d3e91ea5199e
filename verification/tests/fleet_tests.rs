use gateway_cache::admission::{
    acquire_step, bucket_for, request_attempt, AcquireDecision, BucketTable, GateConfig,
};
use gateway_cache::config::{shard_range, Config};
use gateway_cache::event::DomainEvent;
use gateway_cache::health::ShardStateManager;
use gateway_cache::router::EventRouter;

#[test]
fn scenario_d_shared_bucket_blocks_until_expiry() {
    let mut table = BucketTable::new();
    let cfg = GateConfig::standard();

    assert_eq!(bucket_for(5, 16), 5);
    assert_eq!(bucket_for(21, 16), 5);

    // Shard 5 claims bucket 5 at t = 100.
    let d = request_attempt(&mut table, 5, 16, &cfg, 100);
    assert!(matches!(d, AcquireDecision::Granted));

    // Shard 21 contends on the same bucket and must wait out the expiry.
    let d = request_attempt(&mut table, 21, 16, &cfg, 103);
    assert!(matches!(d, AcquireDecision::RetryAfterMillis(500)));
    let d = request_attempt(&mut table, 21, 16, &cfg, 105);
    assert!(matches!(d, AcquireDecision::RetryAfterMillis(500)));

    // At t = 106 the six-second marker has expired; the claim succeeds.
    let d = request_attempt(&mut table, 21, 16, &cfg, 106);
    assert!(matches!(d, AcquireDecision::Granted));
}

#[test]
fn distinct_buckets_do_not_contend() {
    let mut table = BucketTable::new();
    let cfg = GateConfig::standard();
    assert!(matches!(request_attempt(&mut table, 0, 16, &cfg, 50), AcquireDecision::Granted));
    assert!(matches!(request_attempt(&mut table, 1, 16, &cfg, 50), AcquireDecision::Granted));
    assert!(matches!(request_attempt(&mut table, 15, 16, &cfg, 50), AcquireDecision::Granted));
    // Re-claiming a held bucket still fails.
    assert!(matches!(
        request_attempt(&mut table, 16, 16, &cfg, 51),
        AcquireDecision::RetryAfterMillis(500)
    ));
}

#[test]
fn acquire_step_decisions() {
    assert!(matches!(acquire_step(true, 500), AcquireDecision::Granted));
    assert!(matches!(acquire_step(false, 250), AcquireDecision::RetryAfterMillis(250)));
}

#[test]
fn gate_defaults() {
    let cfg = GateConfig::standard();
    assert_eq!(cfg.expiry_secs, 6);
    assert_eq!(cfg.retry_interval_ms, 500);
}

#[test]
fn health_connect_disconnect_counts() {
    let mut mgr = ShardStateManager::new();
    mgr.handle_event(3, &DomainEvent::ShardConnected, 1000, None);
    let st = mgr.get_shard(3);
    assert!(st.up);
    assert_eq!(st.last_connection, 1000);
    assert_eq!(st.disconnection_count, 0);

    mgr.handle_event(3, &DomainEvent::ShardDisconnected, 1005, None);
    let st = mgr.get_shard(3);
    assert!(!st.up);
    assert_eq!(st.disconnection_count, 1);

    mgr.handle_event(3, &DomainEvent::Resumed, 1010, None);
    let st = mgr.get_shard(3);
    assert!(st.up);
    assert_eq!(st.last_connection, 1010);
    assert_eq!(st.disconnection_count, 1);
}

#[test]
fn health_heartbeat_implies_liveness() {
    let mut mgr = ShardStateManager::new();
    mgr.handle_event(8, &DomainEvent::GatewayHeartbeat, 2000, Some(42));
    let st = mgr.get_shard(8);
    assert!(st.up);
    assert_eq!(st.last_heartbeat, 2000);
    assert_eq!(st.latency_ms, 42);

    // Without a measurement the previous latency is kept.
    mgr.handle_event(8, &DomainEvent::GatewayHeartbeat, 2060, None);
    let st = mgr.get_shard(8);
    assert_eq!(st.last_heartbeat, 2060);
    assert_eq!(st.latency_ms, 42);
}

#[test]
fn health_count_never_decreases() {
    let mut mgr = ShardStateManager::new();
    let mut last: u64 = 0;
    let events = [
        DomainEvent::ShardDisconnected,
        DomainEvent::ShardConnected,
        DomainEvent::ShardDisconnected,
        DomainEvent::GatewayHeartbeat,
        DomainEvent::ShardDisconnected,
        DomainEvent::Resumed,
    ];
    for (i, e) in events.iter().enumerate() {
        mgr.handle_event(1, e, 3000 + i as i64, None);
        let st = mgr.get_shard(1);
        assert!(st.disconnection_count >= last);
        last = st.disconnection_count;
    }
    assert_eq!(last, 3);
}

#[test]
fn health_untracked_shard_reads_initial() {
    let mgr = ShardStateManager::new();
    let st = mgr.get_shard(12);
    assert!(!st.up);
    assert_eq!(st.disconnection_count, 0);
    assert_eq!(st.last_connection, 0);
}

#[test]
fn health_ignores_cache_events() {
    let mut mgr = ShardStateManager::new();
    mgr.handle_event(2, &DomainEvent::GuildDelete { guild_id: 1 }, 100, None);
    let st = mgr.get_shard(2);
    assert_eq!(st, gateway_cache::health::ShardState::default());
}

#[test]
fn router_feeds_both_consumers() {
    let mut router = EventRouter::new(999);
    let r = router.route(4, DomainEvent::ShardConnected, 5000, None);
    assert!(r.is_ok());
    assert!(router.shards.get_shard(4).up);

    let r = router.route(4, DomainEvent::ReactionAdd { channel_id: 9, guild_id: None }, 5001, None);
    assert!(r.is_ok());
    assert!(router.cache.store.get_channel(9).is_some());
}

#[test]
fn shard_range_small_fleet_is_single_process() {
    assert_eq!(shard_range(0, 1), (0, 0));
    assert_eq!(shard_range(3, 15), (0, 14));
}

#[test]
fn shard_range_blocks_of_sixteen() {
    assert_eq!(shard_range(0, 512), (0, 15));
    assert_eq!(shard_range(1, 512), (16, 31));
    assert_eq!(shard_range(31, 512), (496, 511));
}

#[test]
fn config_validity() {
    let mut cfg = Config {
        client_id: 1,
        token: "example-token".to_string(),
        concurrency: 16,
        redis_addr: "redis://127.0.0.1:6379".to_string(),
        gateway_redis_addr: "redis://127.0.0.1:6379".to_string(),
        node_id: 0,
        total_nodes: 32,
        total_shards: 512,
        ignore_events: false,
    };
    assert!(cfg.is_valid());
    cfg.concurrency = 0;
    assert!(!cfg.is_valid());
}

use std::sync::{Arc, RwLock};

use auria_node::clock::{seconds_between, Timestamp, MAX_EPOCH_NANOS, MIN_EPOCH_NANOS};
use auria_node::state::{heartbeat_is_fresh, uptime_from_elapsed, HEARTBEAT_TIMEOUT_SECS};
use auria_node::{NodeState, NodeStatus, PublicKey, Tier};

#[test]
fn test_node_state_creation() {
    let state = NodeState::new(Tier::Standard, PublicKey([1u8; 32]));

    assert_eq!(state.tier, Tier::Standard);
    assert_eq!(state.requests_processed, 0);
    assert_eq!(state.requests_failed, 0);
    #[allow(unused_comparisons)]
    let non_negative = state.uptime() >= 0;
    assert!(non_negative);
}

#[test]
fn test_node_state_increment_requests() {
    let mut state = NodeState::new(Tier::Pro, PublicKey([2u8; 32]));

    state.increment_requests();
    state.increment_requests();

    assert_eq!(state.requests_processed, 2);
}

#[test]
fn test_node_state_increment_failures() {
    let mut state = NodeState::new(Tier::Nano, PublicKey([3u8; 32]));

    state.increment_failures();

    assert_eq!(state.requests_failed, 1);
}

#[test]
fn test_node_state_increment_tokens() {
    let mut state = NodeState::new(Tier::Max, PublicKey([4u8; 32]));

    state.increment_tokens(100);
    state.increment_tokens(50);

    assert_eq!(state.tokens_generated, 150);
}

#[test]
fn test_node_state_cache_tracking() {
    let mut state = NodeState::new(Tier::Standard, PublicKey([5u8; 32]));

    state.record_cache_hit();
    state.record_cache_hit();
    state.record_cache_miss();

    assert_eq!(state.cache_hits, 2);
    assert_eq!(state.cache_misses, 1);
    let (hits, lookups) = state.cache_hit_ratio();
    let rate = if lookups == 0 { 0.0 } else { hits as f64 / lookups as f64 };
    assert!((rate - 0.666).abs() < 0.01);
}

#[test]
fn test_node_state_active_requests() {
    let mut state = NodeState::new(Tier::Standard, PublicKey([6u8; 32]));

    state.start_request();
    state.start_request();

    assert_eq!(state.active_requests, 2);

    state.end_request();

    assert_eq!(state.active_requests, 1);
}

#[test]
fn test_node_state_health() {
    let state = NodeState::new(Tier::Standard, PublicKey([7u8; 32]));

    assert!(state.is_healthy());
}

#[test]
fn test_node_status() {
    let state = NodeState::new(Tier::Max, PublicKey([9u8; 32]));
    let state = Arc::new(RwLock::new(state));

    {
        let mut s = state.write().unwrap();
        s.increment_requests();
        s.increment_tokens(100);
    }

    let status = NodeStatus {
        running: true,
        tier: Tier::Max,
        uptime_seconds: 100,
        requests_processed: 1,
        requests_failed: 0,
        cluster_enabled: true,
    };

    assert!(status.running);
    assert_eq!(status.requests_processed, 1);
}

#[test]
fn fresh_state_has_all_counters_at_zero() {
    let state = NodeState::new(Tier::Nano, PublicKey([0u8; 32]));
    assert_eq!(state.tier, Tier::Nano);
    assert_eq!(state.public_key, PublicKey([0u8; 32]));
    assert_eq!(state.tokens_generated, 0);
    assert_eq!(state.cache_hits, 0);
    assert_eq!(state.cache_misses, 0);
    assert_eq!(state.active_requests, 0);
}

#[test]
fn end_request_when_idle_stays_at_zero() {
    let mut state = NodeState::new(Tier::Standard, PublicKey([0u8; 32]));
    state.end_request();
    assert_eq!(state.active_requests, 0);
    state.end_request();
    assert_eq!(state.active_requests, 0);
}

#[test]
fn start_then_end_restores_active_count() {
    let mut state = NodeState::new(Tier::Standard, PublicKey([0u8; 32]));
    state.start_request();
    state.start_request();
    state.start_request();
    state.end_request();
    assert_eq!(state.active_requests, 2);
    state.start_request();
    state.end_request();
    assert_eq!(state.active_requests, 2);
}

#[test]
fn tokens_accumulate_across_calls() {
    let mut a = NodeState::new(Tier::Standard, PublicKey([0u8; 32]));
    let mut b = NodeState::new(Tier::Standard, PublicKey([0u8; 32]));
    a.increment_tokens(7);
    a.increment_tokens(35);
    b.increment_tokens(42);
    assert_eq!(a.tokens_generated, b.tokens_generated);
    assert_eq!(a.tokens_generated, 42);
}

#[test]
fn successful_request_is_counted_and_ends() {
    let mut state = NodeState::new(Tier::Pro, PublicKey([0u8; 32]));
    state.start_request();
    state.finish_request(Some(12));
    assert_eq!(state.active_requests, 0);
    assert_eq!(state.requests_processed, 1);
    assert_eq!(state.tokens_generated, 12);
    assert_eq!(state.requests_failed, 0);
}

#[test]
fn failed_request_stays_in_flight() {
    let mut state = NodeState::new(Tier::Pro, PublicKey([0u8; 32]));
    state.start_request();
    state.finish_request(None);
    assert_eq!(state.active_requests, 1);
    assert_eq!(state.requests_failed, 1);
    assert_eq!(state.requests_processed, 0);
}

#[test]
fn cache_ratio_with_no_lookups() {
    let state = NodeState::new(Tier::Standard, PublicKey([0u8; 32]));
    assert_eq!(state.cache_hit_ratio(), (0, 0));
}

#[test]
fn cache_ratio_counts_hits_and_misses() {
    let mut state = NodeState::new(Tier::Standard, PublicKey([0u8; 32]));
    state.record_cache_miss();
    state.record_cache_miss();
    state.record_cache_hit();
    assert_eq!(state.cache_hit_ratio(), (1, 3));
}

#[test]
fn uptime_is_zero_when_clock_is_behind() {
    assert_eq!(uptime_from_elapsed(None), 0);
    assert_eq!(uptime_from_elapsed(Some(3600)), 3600);
}

#[test]
fn heartbeat_freshness_threshold() {
    assert_eq!(HEARTBEAT_TIMEOUT_SECS, 120);
    assert!(heartbeat_is_fresh(Some(0)));
    assert!(heartbeat_is_fresh(Some(119)));
    assert!(!heartbeat_is_fresh(Some(120)));
    assert!(!heartbeat_is_fresh(Some(10_000)));
    assert!(!heartbeat_is_fresh(None));
}

fn at_secs(secs: i128) -> Timestamp {
    Timestamp::from_epoch_nanos(secs * 1_000_000_000).unwrap()
}

#[test]
fn timestamps_hold_epoch_nanos_in_range() {
    assert_eq!(Timestamp::from_epoch_nanos(-5).unwrap().as_epoch_nanos(), -5);
    assert_eq!(MIN_EPOCH_NANOS, i64::MIN as i128 * 1_000_000_000);
    assert_eq!(MAX_EPOCH_NANOS, i64::MAX as i128 * 1_000_000_000 + 999_999_999);
    assert!(Timestamp::from_epoch_nanos(MAX_EPOCH_NANOS).is_some());
    assert!(Timestamp::from_epoch_nanos(MIN_EPOCH_NANOS).is_some());
    assert!(Timestamp::from_epoch_nanos(MAX_EPOCH_NANOS + 1).is_none());
    assert!(Timestamp::from_epoch_nanos(MIN_EPOCH_NANOS - 1).is_none());
}

#[test]
fn whole_seconds_between_instants() {
    let a = Timestamp::from_epoch_nanos(1_000_000_000).unwrap();
    let b = Timestamp::from_epoch_nanos(3_999_999_999).unwrap();
    assert_eq!(seconds_between(&a, &b), Some(2));
    assert_eq!(seconds_between(&a, &a), Some(0));
    assert_eq!(seconds_between(&b, &a), None);
    let lo = Timestamp::from_epoch_nanos(MIN_EPOCH_NANOS).unwrap();
    let hi = Timestamp::from_epoch_nanos(MAX_EPOCH_NANOS).unwrap();
    assert_eq!(seconds_between(&lo, &hi), Some(u64::MAX));
}

#[test]
fn new_at_keeps_the_clock_readings() {
    let state = NodeState::new_at(Tier::Pro, PublicKey([8u8; 32]), at_secs(100), at_secs(150));
    assert_eq!(state.started_at.as_epoch_nanos(), 100_000_000_000);
    assert_eq!(state.last_heartbeat.as_epoch_nanos(), 150_000_000_000);
    assert_eq!(state.tier, Tier::Pro);
    assert_eq!(state.requests_processed, 0);
    assert_eq!(state.active_requests, 0);
}

#[test]
fn uptime_measures_from_the_start() {
    let state = NodeState::new_at(Tier::Standard, PublicKey([0u8; 32]), at_secs(100), at_secs(1000));
    assert_eq!(state.uptime_at(&at_secs(160)), 60);
    assert_eq!(state.uptime_at(&at_secs(100)), 0);
    assert_eq!(state.uptime_at(&at_secs(50)), 0);
}

#[test]
fn health_measures_from_the_last_heartbeat() {
    let state = NodeState::new_at(Tier::Standard, PublicKey([0u8; 32]), at_secs(0), at_secs(1000));
    assert!(state.is_healthy_at(&at_secs(1000)));
    assert!(state.is_healthy_at(&at_secs(1119)));
    assert!(!state.is_healthy_at(&at_secs(1120)));
    assert!(!state.is_healthy_at(&at_secs(999)));
}

#[test]
fn failed_finish_keeps_other_counters() {
    let mut state = NodeState::new(Tier::Pro, PublicKey([0u8; 32]));
    state.finish_request(Some(3));
    state.finish_request(None);
    assert_eq!(state.requests_processed, 1);
    assert_eq!(state.requests_failed, 1);
    assert_eq!(state.tokens_generated, 3);
    assert_eq!(state.active_requests, 0);
}

#[test]
fn clock_readings_become_instants() {
    assert_eq!(Timestamp::from_clock_reading(Ok(1_500)).as_epoch_nanos(), 1_500);
    assert_eq!(Timestamp::from_clock_reading(Err(2_000)).as_epoch_nanos(), -2_000);
    assert_eq!(Timestamp::from_clock_reading(Ok(0)).as_epoch_nanos(), 0);
    assert_eq!(Timestamp::from_clock_reading(Ok(u128::MAX)).as_epoch_nanos(), MAX_EPOCH_NANOS);
    assert_eq!(Timestamp::from_clock_reading(Err(u128::MAX)).as_epoch_nanos(), MIN_EPOCH_NANOS);
    let edge = (-MIN_EPOCH_NANOS) as u128;
    assert_eq!(Timestamp::from_clock_reading(Err(edge)).as_epoch_nanos(), MIN_EPOCH_NANOS);
}

#[test]
fn clock_reads_after_the_epoch() {
    // Any machine running this test has its clock well after 1970.
    assert!(Timestamp::now().as_epoch_nanos() > 1_000_000_000_000_000_000);
}

#[test]
fn interleaved_requests_lose_no_update() {
    let mut state = NodeState::new(Tier::Standard, PublicKey([0u8; 32]));
    state.start_request();
    state.start_request();
    state.finish_request(Some(3));
    state.start_request();
    state.finish_request(Some(4));
    state.finish_request(Some(5));
    assert_eq!(state.requests_processed, 3);
    assert_eq!(state.tokens_generated, 12);
    assert_eq!(state.active_requests, 0);
    assert_eq!(state.requests_failed, 0);
}

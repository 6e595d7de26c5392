use cedar_agent::services::stats::memory::MemoryStatsStore;
use cedar_agent::services::stats::StatsStore;
use std::sync::{Arc, Mutex};

#[test]
fn test_initial_stats_are_zero() {
    let store = MemoryStatsStore::new();
    let stats = store.get_stats();

    assert_eq!(stats.total_requests, 0);
    assert_eq!(stats.allows, 0);
    assert_eq!(stats.denies, 0);
}

#[test]
fn test_increment_auth_request() {
    let mut store = MemoryStatsStore::new();

    store.increment_auth_request();
    store.increment_auth_request();

    let stats = store.get_stats();
    assert_eq!(stats.total_requests, 2);
}

#[test]
fn test_increment_allow() {
    let mut store = MemoryStatsStore::new();

    store.increment_allow();

    let stats = store.get_stats();
    assert_eq!(stats.allows, 1);
}

#[test]
fn test_increment_deny() {
    let mut store = MemoryStatsStore::new();

    store.increment_deny();
    store.increment_deny();
    store.increment_deny();

    let stats = store.get_stats();
    assert_eq!(stats.denies, 3);
}

#[test]
fn test_reset() {
    let mut store = MemoryStatsStore::new();

    store.increment_auth_request();
    store.increment_allow();
    store.increment_deny();

    store.reset();

    let stats = store.get_stats();
    assert_eq!(stats.total_requests, 0);
    assert_eq!(stats.allows, 0);
    assert_eq!(stats.denies, 0);
}

#[test]
fn test_concurrent_increments() {
    let store = Arc::new(Mutex::new(MemoryStatsStore::new()));

    // 100 holders of the shared store, each incrementing the counter once
    for _ in 0..100 {
        let store_clone = store.clone();
        store_clone.lock().unwrap().increment_auth_request();
    }

    let stats = store.lock().unwrap().get_stats();
    assert_eq!(stats.total_requests, 100);
}

#[test]
fn test_get_stats_initial_zero() {
    let stats_store = MemoryStatsStore::new();
    let stats = stats_store.get_stats();

    assert_eq!(stats.total_requests, 0);
    assert_eq!(stats.allows, 0);
    assert_eq!(stats.denies, 0);
}

#[test]
fn test_increment_total_requests() {
    let mut stats_store = MemoryStatsStore::new();

    stats_store.increment_auth_request();
    stats_store.increment_auth_request();
    stats_store.increment_auth_request();

    let stats = stats_store.get_stats();
    assert_eq!(stats.total_requests, 3);
}

#[test]
fn test_increment_allows() {
    let mut stats_store = MemoryStatsStore::new();

    stats_store.increment_allow();
    stats_store.increment_allow();

    let stats = stats_store.get_stats();
    assert_eq!(stats.allows, 2);
}

#[test]
fn test_increment_denies() {
    let mut stats_store = MemoryStatsStore::new();

    stats_store.increment_deny();

    let stats = stats_store.get_stats();
    assert_eq!(stats.denies, 1);
}

#[test]
fn test_stats_allow_deny_breakdown() {
    let mut stats_store = MemoryStatsStore::new();

    // 5 requests: 3 allows, 2 denies
    for _ in 0..5 {
        stats_store.increment_auth_request();
    }

    stats_store.increment_allow();
    stats_store.increment_allow();
    stats_store.increment_allow();

    stats_store.increment_deny();
    stats_store.increment_deny();

    let stats = stats_store.get_stats();
    assert_eq!(stats.total_requests, 5);
    assert_eq!(stats.allows, 3);
    assert_eq!(stats.denies, 2);
}

#[test]
fn test_stats_reset() {
    let mut stats_store = MemoryStatsStore::new();

    stats_store.increment_auth_request();
    stats_store.increment_auth_request();
    stats_store.increment_allow();
    stats_store.increment_deny();

    let stats_before = stats_store.get_stats();
    assert!(stats_before.total_requests > 0);
    assert!(stats_before.allows > 0);
    assert!(stats_before.denies > 0);

    stats_store.reset();

    let stats_after = stats_store.get_stats();
    assert_eq!(stats_after.total_requests, 0);
    assert_eq!(stats_after.allows, 0);
    assert_eq!(stats_after.denies, 0);
}

#[test]
fn test_stats_after_reset() {
    let mut stats_store = MemoryStatsStore::new();

    stats_store.increment_auth_request();
    stats_store.increment_allow();

    stats_store.reset();

    stats_store.increment_auth_request();
    stats_store.increment_deny();

    let stats = stats_store.get_stats();
    assert_eq!(stats.total_requests, 1);
    assert_eq!(stats.allows, 0);
    assert_eq!(stats.denies, 1);
}

#[test]
fn test_concurrent_stats_updates() {
    let stats_store = Arc::new(Mutex::new(MemoryStatsStore::new()));

    // 50 holders increment requests
    for _ in 0..50 {
        let store = stats_store.clone();
        store.lock().unwrap().increment_auth_request();
    }

    // 30 holders increment allows
    for _ in 0..30 {
        let store = stats_store.clone();
        store.lock().unwrap().increment_allow();
    }

    // 20 holders increment denies
    for _ in 0..20 {
        let store = stats_store.clone();
        store.lock().unwrap().increment_deny();
    }

    let stats = stats_store.lock().unwrap().get_stats();
    assert_eq!(stats.total_requests, 50);
    assert_eq!(stats.allows, 30);
    assert_eq!(stats.denies, 20);
}

#[test]
fn test_stats_reflect_decisions() {
    let mut stats_store = MemoryStatsStore::new();

    for i in 0..10 {
        stats_store.increment_auth_request();

        // First 7 are allowed, last 3 are denied
        if i < 7 {
            stats_store.increment_allow();
        } else {
            stats_store.increment_deny();
        }
    }

    let stats = stats_store.get_stats();
    assert_eq!(stats.total_requests, 10);
    assert_eq!(stats.allows, 7);
    assert_eq!(stats.denies, 3);

    assert_eq!(stats.allows + stats.denies, stats.total_requests);
}

#[test]
fn test_multiple_resets() {
    let mut stats_store = MemoryStatsStore::new();

    for _ in 0..3 {
        stats_store.increment_auth_request();
        stats_store.reset();

        let stats = stats_store.get_stats();
        assert_eq!(stats.total_requests, 0);
    }
}

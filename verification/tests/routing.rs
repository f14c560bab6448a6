use db_access::pool_manager::{HealthStatus, PoolChoice, PoolManager, QueryIntent, ReadOutcome};

const COOLDOWN_MS: u64 = 30_000;

#[test]
fn write_always_primary_without_replica() {
    let m = PoolManager::new(false, COOLDOWN_MS);
    assert_eq!(m.get_pool(QueryIntent::Write, 0), PoolChoice::Primary);
    assert_eq!(m.get_pool(QueryIntent::Write, 1_000_000), PoolChoice::Primary);
}

#[test]
fn write_always_primary_with_replica() {
    let mut m = PoolManager::new(true, COOLDOWN_MS);
    assert_eq!(m.get_pool(QueryIntent::Write, 5), PoolChoice::Primary);
    m.record_replica_success();
    assert_eq!(m.get_pool(QueryIntent::Write, 6), PoolChoice::Primary);
    m.record_replica_failure(7);
    assert_eq!(m.get_pool(QueryIntent::Write, 8), PoolChoice::Primary);
}

#[test]
fn read_without_replica_goes_to_primary() {
    let m = PoolManager::new(false, COOLDOWN_MS);
    assert_eq!(m.get_pool(QueryIntent::Read, 0), PoolChoice::Primary);
    assert_eq!(m.get_pool(QueryIntent::Read, 123_456), PoolChoice::Primary);
}

#[test]
fn read_with_healthy_replica_goes_to_replica() {
    let mut m = PoolManager::new(true, COOLDOWN_MS);
    // Optimistic before any observation...
    assert_eq!(m.get_pool(QueryIntent::Read, 5), PoolChoice::Replica);
    // ... and after an observed success.
    m.record_replica_success();
    assert_eq!(m.get_pool(QueryIntent::Read, 6), PoolChoice::Replica);
}

#[test]
fn replica_unset_scenario() {
    let m = PoolManager::new(false, COOLDOWN_MS);
    assert_eq!(m.get_pool(QueryIntent::Read, 10), PoolChoice::Primary);
    assert_eq!(m.get_pool(QueryIntent::Write, 10), PoolChoice::Primary);
    assert!(!m.replica());
}

#[test]
fn replica_set_and_healthy_scenario() {
    let mut m = PoolManager::new(true, COOLDOWN_MS);
    m.record_replica_success();
    assert_eq!(m.get_pool(QueryIntent::Read, 10), PoolChoice::Replica);
    assert_eq!(m.get_pool(QueryIntent::Write, 10), PoolChoice::Primary);
    assert!(m.replica());
}

#[test]
fn failover_then_cooldown_restores_replica() {
    let mut m = PoolManager::new(true, COOLDOWN_MS);
    m.record_replica_success();
    assert_eq!(m.get_pool(QueryIntent::Read, 100), PoolChoice::Replica);

    // A failed replica read is retried once, on the primary, and the replica
    // is flagged unhealthy.
    let retry = m.on_read_result(PoolChoice::Replica, ReadOutcome::Failed, 100);
    assert_eq!(retry, Some(PoolChoice::Primary));
    assert_eq!(m.replica_health, HealthStatus::Unhealthy { since_ms: 100 });

    // Inside the cool-down window reads fall back to the primary.
    assert_eq!(m.get_pool(QueryIntent::Read, 101), PoolChoice::Primary);
    assert_eq!(m.get_pool(QueryIntent::Read, 100 + COOLDOWN_MS - 1), PoolChoice::Primary);

    // Once the cool-down has elapsed the replica is tried again.
    assert_eq!(m.get_pool(QueryIntent::Read, 100 + COOLDOWN_MS), PoolChoice::Replica);

    // A subsequent success restores health.
    let retry2 = m.on_read_result(PoolChoice::Replica, ReadOutcome::Succeeded, 100 + COOLDOWN_MS);
    assert_eq!(retry2, None);
    assert_eq!(m.replica_health, HealthStatus::Healthy);
    assert_eq!(m.get_pool(QueryIntent::Read, 100 + COOLDOWN_MS + 1), PoolChoice::Replica);
}

#[test]
fn primary_read_failure_is_not_retried() {
    let mut m = PoolManager::new(true, COOLDOWN_MS);
    m.record_replica_success();
    let retry = m.on_read_result(PoolChoice::Primary, ReadOutcome::Failed, 50);
    assert_eq!(retry, None);
    assert_eq!(m.replica_health, HealthStatus::Healthy);
}

use db_access::partition::{PartitionCatalog, PartitionManager, u64_to_dec, MS_PER_DAY};

#[test]
fn decimal_rendering() {
    assert_eq!(u64_to_dec(0), "0");
    assert_eq!(u64_to_dec(9), "9");
    assert_eq!(u64_to_dec(10), "10");
    assert_eq!(u64_to_dec(105), "105");
    assert_eq!(u64_to_dec(86_400_000), "86400000");
    assert_eq!(u64_to_dec(u64::MAX), "18446744073709551615");
}

#[test]
fn plan_covers_now_and_horizon() {
    let m = PartitionManager::new("events".to_string(), 24);
    // Day D, mid-day.
    let day_d: u64 = 20_000;
    let now = day_d * MS_PER_DAY + 12_345;
    let plan = m.plan_tick(now);
    assert_eq!(plan.len(), 4);
    for (i, d) in plan.iter().enumerate() {
        let start = (day_d + i as u64) * MS_PER_DAY;
        assert_eq!(d.table, "events");
        assert_eq!(d.start_ms, start);
        assert_eq!(d.end_ms, start + MS_PER_DAY);
        assert_eq!(d.name, format!("events_p{}", start));
    }
}

#[test]
fn plan_is_a_function_of_the_clock_alone() {
    let m = PartitionManager::new("events".to_string(), 24);
    let now = 19_000 * MS_PER_DAY + 7;
    let a = m.plan_tick(now);
    let b = m.plan_tick(now);
    assert_eq!(a.len(), b.len());
    for (x, y) in a.iter().zip(b.iter()) {
        assert_eq!(x.start_ms, y.start_ms);
        assert_eq!(x.end_ms, y.end_ms);
        assert_eq!(x.name, y.name);
    }
}

#[test]
fn tick_is_idempotent() {
    let m = PartitionManager::new("events".to_string(), 24);
    let mut catalog = PartitionCatalog::new();
    let now = 20_000 * MS_PER_DAY + 999;

    let created_first = m.run_tick(&mut catalog, now);
    assert_eq!(created_first, 4);
    assert_eq!(catalog.len(), 4);

    // The same tick again: no error, nothing created, no duplicates.
    let created_second = m.run_tick(&mut catalog, now);
    assert_eq!(created_second, 0);
    assert_eq!(catalog.len(), 4);
}

#[test]
fn partitions_exist_for_day_d_through_d_plus_3() {
    let m = PartitionManager::new("events".to_string(), 24);
    let mut catalog = PartitionCatalog::new();
    let day_d: u64 = 19_500;
    m.run_tick(&mut catalog, day_d * MS_PER_DAY + 1);
    for off in 0..4u64 {
        assert!(catalog.has((day_d + off) * MS_PER_DAY));
    }
    assert!(!catalog.has((day_d + 4) * MS_PER_DAY));
    assert!(!catalog.has((day_d - 1) * MS_PER_DAY));
}

#[test]
fn later_tick_extends_without_duplicating() {
    let m = PartitionManager::new("events".to_string(), 24);
    let mut catalog = PartitionCatalog::new();
    let day_d: u64 = 21_000;
    assert_eq!(m.run_tick(&mut catalog, day_d * MS_PER_DAY), 4);
    // One day later only the newly uncovered bucket is created.
    assert_eq!(m.run_tick(&mut catalog, (day_d + 1) * MS_PER_DAY), 1);
    assert_eq!(catalog.len(), 5);
}

#[test]
fn prune_drops_only_expired_buckets() {
    let m = PartitionManager::with_policy("events".to_string(), MS_PER_DAY, 3, 2, 24);
    let mut catalog = PartitionCatalog::new();
    let day_d: u64 = 22_000;
    // Buckets well before the retention window, then a current tick.
    catalog.ensure((day_d - 10) * MS_PER_DAY);
    catalog.ensure((day_d - 2) * MS_PER_DAY);
    m.run_tick(&mut catalog, day_d * MS_PER_DAY + 5);
    assert_eq!(catalog.len(), 6);

    // Retention is two buckets: the cut-off is D-2; only D-10 expires.
    let dropped = m.prune_expired(&mut catalog, day_d * MS_PER_DAY + 5);
    assert_eq!(dropped, 1);
    assert!(!catalog.has((day_d - 10) * MS_PER_DAY));
    assert!(catalog.has((day_d - 2) * MS_PER_DAY));
    assert!(catalog.has(day_d * MS_PER_DAY));

    // Pruning again for the same instant drops nothing.
    assert_eq!(m.prune_expired(&mut catalog, day_d * MS_PER_DAY + 5), 0);
    assert_eq!(catalog.len(), 5);
}

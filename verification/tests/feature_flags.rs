use db_access::flags::{names_unique, FeatureFlag, FeatureFlagService, WriteOutcome};

fn flag(name: &str, enabled: bool, at: u64) -> FeatureFlag {
    FeatureFlag { name: name.to_string(), enabled, updated_at_ms: at }
}

#[test]
fn absent_flag_reads_as_default() {
    let s = FeatureFlagService::new();
    assert!(!s.get(&"new_ui".to_string()));
    assert_eq!(s.generation_ms, 0);
}

#[test]
fn install_snapshot_serves_its_contents() {
    let mut s = FeatureFlagService::new();
    let rows = vec![flag("new_ui", true, 5), flag("beta_api", false, 6)];
    assert!(names_unique(&rows));
    s.install_snapshot(rows, 100);
    assert!(s.get(&"new_ui".to_string()));
    assert!(!s.get(&"beta_api".to_string()));
    assert!(!s.get(&"absent".to_string()));
    assert_eq!(s.generation_ms, 100);
}

#[test]
fn snapshot_replacement_is_wholesale() {
    let mut s = FeatureFlagService::new();
    s.install_snapshot(vec![flag("a", true, 1), flag("b", true, 1)], 10);
    assert!(s.get(&"a".to_string()));
    assert!(s.get(&"b".to_string()));

    // The next snapshot replaces the previous one as a unit: every read is
    // answered from the new snapshot alone, nothing of the old one survives.
    s.install_snapshot(vec![flag("a", false, 2), flag("c", true, 2)], 20);
    assert!(!s.get(&"a".to_string()));
    assert!(!s.get(&"b".to_string()));
    assert!(s.get(&"c".to_string()));
    assert_eq!(s.generation_ms, 20);
}

#[test]
fn failed_refresh_keeps_last_good_snapshot() {
    let mut s = FeatureFlagService::new();
    s.install_snapshot(vec![flag("new_ui", true, 1)], 10);
    let refreshed = s.finish_refresh(None, 99);
    assert!(!refreshed);
    assert!(s.get(&"new_ui".to_string()));
    assert_eq!(s.generation_ms, 10);
}

#[test]
fn successful_refresh_installs_new_snapshot() {
    let mut s = FeatureFlagService::new();
    s.install_snapshot(vec![flag("new_ui", true, 1)], 10);
    let refreshed = s.finish_refresh(Some(vec![flag("new_ui", false, 2)]), 20);
    assert!(refreshed);
    assert!(!s.get(&"new_ui".to_string()));
    assert_eq!(s.generation_ms, 20);
}

#[test]
fn committed_update_is_immediately_visible() {
    let mut s = FeatureFlagService::new();
    s.install_snapshot(vec![flag("new_ui", false, 1), flag("beta_api", true, 1)], 10);
    let ok = s.update(&"new_ui".to_string(), true, 50, WriteOutcome::Committed);
    assert!(ok);
    assert!(s.get(&"new_ui".to_string()));
    // Other flags are untouched.
    assert!(s.get(&"beta_api".to_string()));
}

#[test]
fn committed_update_can_introduce_a_flag() {
    let mut s = FeatureFlagService::new();
    let ok = s.update(&"fresh".to_string(), true, 50, WriteOutcome::Committed);
    assert!(ok);
    assert!(s.get(&"fresh".to_string()));
}

#[test]
fn failed_update_leaves_previous_value() {
    let mut s = FeatureFlagService::new();
    s.install_snapshot(vec![flag("new_ui", true, 1)], 10);
    let ok = s.update(&"new_ui".to_string(), false, 50, WriteOutcome::Failed);
    assert!(!ok);
    assert!(s.get(&"new_ui".to_string()));
    assert_eq!(s.generation_ms, 10);
}

#[test]
fn names_unique_detects_duplicates() {
    let rows = vec![flag("a", true, 1), flag("b", true, 1), flag("a", false, 2)];
    assert!(!names_unique(&rows));
    let ok_rows = vec![flag("a", true, 1), flag("b", true, 1)];
    assert!(names_unique(&ok_rows));
    let empty: Vec<FeatureFlag> = Vec::new();
    assert!(names_unique(&empty));
}

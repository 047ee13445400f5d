use code_corpses::alerts::{ZombieAlert, ZombieAlerts};

fn alert(id: &str, notified: bool) -> ZombieAlert {
    ZombieAlert {
        id: id.to_string(),
        corpse_repo: "org/dead-repo".to_string(),
        corpse_path: "src/old.rs".to_string(),
        zombie_repo: "org/new-repo".to_string(),
        zombie_path: "src/copy.rs".to_string(),
        similarity_per_mille: 930,
        resurrection_type: "copy-paste".to_string(),
        confidence_per_mille: 870,
        detected_at: "2024-06-01T00:00:00Z".to_string(),
        notified,
    }
}

#[test]
fn from_entries_skips_invalid_entries_individually() {
    let mut bad_score = alert("overflowing", false);
    bad_score.similarity_per_mille = 2000;
    let entries = vec![
        Some(alert("a1", false)),
        None,
        Some(alert("a2", true)),
        Some(bad_score),
    ];
    let store = ZombieAlerts::from_entries(entries, "2024-06-02T00:00:00Z".to_string());
    assert_eq!(store.total_alerts, 2);
    assert_eq!(store.unread_count, 1);
    assert_eq!(store.alerts.len(), 2);
    assert_eq!(store.alerts[0].id, "a1");
    assert_eq!(store.alerts[1].id, "a2");
    assert_eq!(store.last_check, "2024-06-02T00:00:00Z");
}

#[test]
fn mark_alert_read_unknown_id_changes_nothing() {
    let entries = vec![Some(alert("a1", false)), Some(alert("a2", false))];
    let mut store = ZombieAlerts::from_entries(entries, "never".to_string());
    assert_eq!(store.unread_count, 2);
    store.mark_alert_read(&"missing".to_string());
    assert_eq!(store.total_alerts, 2);
    assert_eq!(store.unread_count, 2);
    assert!(!store.alerts[0].notified);
    assert!(!store.alerts[1].notified);
}

#[test]
fn mark_alert_read_is_idempotent() {
    let entries = vec![Some(alert("a1", false)), Some(alert("a2", false))];
    let mut store = ZombieAlerts::from_entries(entries, "never".to_string());
    store.mark_alert_read(&"a1".to_string());
    assert_eq!(store.unread_count, 1);
    assert!(store.alerts[0].notified);
    store.mark_alert_read(&"a1".to_string());
    assert_eq!(store.unread_count, 1);
    assert!(store.alerts[0].notified);
    assert!(!store.alerts[1].notified);
}

#[test]
fn mark_alert_read_touches_only_the_first_match() {
    let entries = vec![Some(alert("dup", false)), Some(alert("dup", false))];
    let mut store = ZombieAlerts::from_entries(entries, "never".to_string());
    store.mark_alert_read(&"dup".to_string());
    assert!(store.alerts[0].notified);
    assert!(!store.alerts[1].notified);
    assert_eq!(store.unread_count, 1);
}

#[test]
fn clear_all_alerts_empties_the_set_and_updates_last_check() {
    let entries = vec![Some(alert("a1", false)), Some(alert("a2", true))];
    let mut store = ZombieAlerts::from_entries(entries, "2024-06-02T00:00:00Z".to_string());
    store.clear_all_alerts("2024-07-01T12:00:00Z".to_string());
    let snapshot = store.get_zombie_alerts();
    assert_eq!(snapshot.total_alerts, 0);
    assert_eq!(snapshot.unread_count, 0);
    assert!(snapshot.alerts.is_empty());
    assert_eq!(snapshot.last_check, "2024-07-01T12:00:00Z");
}

#[test]
fn clear_all_alerts_now_stamps_a_wall_clock_time() {
    let mut store = ZombieAlerts::from_entries(
        vec![Some(alert("a1", false))],
        "never".to_string(),
    );
    store.clear_all_alerts_now();
    assert_eq!(store.total_alerts, 0);
    assert!(!store.last_check.is_empty());
    assert_ne!(store.last_check, "never");
}

#[test]
fn snapshot_reflects_the_store() {
    let entries = vec![Some(alert("a1", false)), Some(alert("a2", true))];
    let store = ZombieAlerts::from_entries(entries, "stamp".to_string());
    let snapshot = store.get_zombie_alerts();
    assert_eq!(snapshot.total_alerts, 2);
    assert_eq!(snapshot.unread_count, 1);
    assert_eq!(snapshot.alerts[0].id, "a1");
    assert_eq!(snapshot.alerts[1].id, "a2");
    assert_eq!(snapshot.last_check, "stamp");
}

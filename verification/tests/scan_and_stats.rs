use code_corpses::asset::Asset;
use code_corpses::scanner::{trigger_scan, RepoRecord, DEFAULT_THRESHOLD_DAYS};
use code_corpses::stats::{compose_report, dead_asset_count, get_stats, Stats};
use code_corpses::tombstone::TombstoneRegistry;
use code_corpses::CemeteryError;

// 2023-01-01T00:00:00Z as a UNIX timestamp.
const JAN_2023: i64 = 1672531200;
const DAY: i64 = 86400;

fn repo(id: &str, updated_at: &str, stars: u64) -> RepoRecord {
    RepoRecord {
        id: id.to_string(),
        full_name: format!("org/{}", id),
        updated_at: updated_at.to_string(),
        stargazers_count: stars,
        language: Some("Rust".to_string()),
        html_url: format!("https://example.invalid/org/{}", id),
    }
}

fn asset(id: &str, alive: bool) -> Asset {
    Asset {
        id: id.to_string(),
        name: id.to_string(),
        asset_type: "module".to_string(),
        location: format!("src/{}.rs", id),
        language: Some("Rust".to_string()),
        tags: vec![],
        alive,
        line_count: 5,
    }
}

#[test]
fn inactive_starred_repository_is_classified_dead() {
    let mut reg = TombstoneRegistry::new();
    let now = JAN_2023 + 200 * DAY;
    let records = vec![repo("stale", "2023-01-01T00:00:00Z", 5)];
    let result = trigger_scan(&mut reg, &records, now, DEFAULT_THRESHOLD_DAYS);
    assert!(result.success);
    assert_eq!(result.scanned, 1);
    assert_eq!(result.zombies, 1);
    assert_eq!(reg.records.len(), 1);
    assert_eq!(reg.records[0].id, "stale");
    assert_eq!(reg.records[0].name, "org/stale");
    assert_eq!(reg.records[0].died_at, "2023-01-01T00:00:00Z");
    assert_eq!(reg.records[0].cause_of_death, "Inactive for 200 days");
}

#[test]
fn unstarred_repository_is_never_classified_dead() {
    let mut reg = TombstoneRegistry::new();
    let now = JAN_2023 + 2000 * DAY;
    let records = vec![repo("ignored", "2023-01-01T00:00:00Z", 0)];
    let result = trigger_scan(&mut reg, &records, now, DEFAULT_THRESHOLD_DAYS);
    assert_eq!(result.scanned, 1);
    assert_eq!(result.zombies, 0);
    assert!(reg.records.is_empty());
}

#[test]
fn recently_updated_repository_stays_alive() {
    let mut reg = TombstoneRegistry::new();
    let now = JAN_2023 + 10 * DAY;
    let records = vec![repo("active", "2023-01-01T00:00:00Z", 50)];
    let result = trigger_scan(&mut reg, &records, now, DEFAULT_THRESHOLD_DAYS);
    assert_eq!(result.zombies, 0);
    assert!(reg.records.is_empty());
}

#[test]
fn malformed_record_is_scanned_but_not_classified() {
    let mut reg = TombstoneRegistry::new();
    let now = JAN_2023 + 400 * DAY;
    let records = vec![
        repo("broken", "not-a-date", 9),
        repo("stale", "2023-01-01T00:00:00Z", 9),
    ];
    let result = trigger_scan(&mut reg, &records, now, DEFAULT_THRESHOLD_DAYS);
    assert_eq!(result.scanned, 2);
    assert_eq!(result.zombies, 1);
    assert_eq!(result.message, "Scan complete: found 1 zombies");
    assert_eq!(reg.records.len(), 1);
    assert_eq!(reg.records[0].id, "stale");
}

#[test]
fn stats_on_empty_stores_are_all_zero_with_a_sentinel() {
    let stats = get_stats(&vec![], &vec![], None);
    assert_eq!(stats.total_assets, 0);
    assert_eq!(stats.alive_assets, 0);
    assert_eq!(stats.dead_assets, 0);
    assert_eq!(stats.total_tombstones, 0);
    assert_eq!(stats.resurrected, 0);
    assert_eq!(stats.last_scan, "unknown");
}

#[test]
fn stats_count_alive_dead_and_resurrected() {
    let assets = vec![asset("a", true), asset("b", false), asset("c", true)];
    let mut reg = TombstoneRegistry::new();
    let now = JAN_2023 + 300 * DAY;
    let records = vec![
        repo("one", "2023-01-01T00:00:00Z", 3),
        repo("two", "2023-01-01T00:00:00Z", 3),
    ];
    trigger_scan(&mut reg, &records, now, DEFAULT_THRESHOLD_DAYS);
    reg.mark_resurrected(
        &"one".to_string(),
        "elsewhere".to_string(),
        "2024-01-01T00:00:00Z".to_string(),
    );
    let stats = get_stats(&assets, &reg.records, Some(0));
    assert_eq!(stats.total_assets, 3);
    assert_eq!(stats.alive_assets, 2);
    assert_eq!(stats.dead_assets, 1);
    assert_eq!(stats.total_tombstones, 2);
    assert_eq!(stats.resurrected, 1);
    assert_eq!(stats.last_scan, "1970-01-01 00:00:00");
}

#[test]
fn stats_format_the_registry_modification_time() {
    let stats = get_stats(&vec![], &vec![], Some(JAN_2023));
    assert_eq!(stats.last_scan, "2023-01-01 00:00:00");
}

#[test]
fn report_spells_out_every_count() {
    let stats = Stats {
        total_assets: 3,
        alive_assets: 2,
        dead_assets: 1,
        total_tombstones: 12,
        resurrected: 0,
        last_scan: "unknown".to_string(),
    };
    assert_eq!(
        compose_report(&stats, 10),
        "Cemetery report\n\nassets: 3 (alive 2, dead 1)\ntombstones: 12 (resurrected 0)\nlisted: 10"
    );
}

#[test]
fn alive_count_above_total_is_a_data_integrity_error() {
    assert_eq!(dead_asset_count(3, 2), Ok(1));
    assert_eq!(dead_asset_count(2, 2), Ok(0));
    assert_eq!(
        dead_asset_count(1, 2),
        Err(CemeteryError::DataIntegrityError)
    );
}

use code_corpses::tombstone::{get_mock_corpses, Tombstone, TombstoneRegistry};

fn tomb(id: &str, died_at: &str) -> Tombstone {
    Tombstone {
        id: id.to_string(),
        name: format!("{} name", id),
        cause_of_death: "obsolete".to_string(),
        epitaph: "rest easy".to_string(),
        tags: vec!["legacy".to_string()],
        original_path: format!("src/{}.rs", id),
        language: Some("Rust".to_string()),
        line_count: 10,
        died_at: died_at.to_string(),
        resurrected_at: None,
        resurrected_to: None,
    }
}

#[test]
fn upsert_same_id_twice_keeps_one_record_with_latest_fields() {
    let mut reg = TombstoneRegistry::new();
    let first = tomb("old-parser", "2020-01-01T00:00:00Z");
    let mut second = tomb("old-parser", "2021-06-01T00:00:00Z");
    second.cause_of_death = "rewritten".to_string();
    reg.upsert(first);
    reg.upsert(second);
    assert_eq!(reg.records.len(), 1);
    assert_eq!(reg.records[0].id, "old-parser");
    assert_eq!(reg.records[0].cause_of_death, "rewritten");
    assert_eq!(reg.records[0].died_at, "2021-06-01T00:00:00Z");
}

#[test]
fn upsert_inserts_at_the_head() {
    let mut reg = TombstoneRegistry::new();
    reg.upsert(tomb("a", "2020-01-01T00:00:00Z"));
    reg.upsert(tomb("b", "2019-01-01T00:00:00Z"));
    assert_eq!(reg.records[0].id, "b");
    assert_eq!(reg.records[1].id, "a");
}

#[test]
fn cap_keeps_the_hundred_most_recently_inserted() {
    let mut reg = TombstoneRegistry::new();
    for i in 0..150 {
        reg.upsert(tomb(&format!("repo-{}", i), "2022-01-01T00:00:00Z"));
    }
    assert_eq!(reg.records.len(), 100);
    for k in 0..100 {
        assert_eq!(reg.records[k].id, format!("repo-{}", 149 - k));
    }
}

#[test]
fn listing_sorts_by_death_date_descending() {
    let mut reg = TombstoneRegistry::new();
    reg.upsert(tomb("a", "2020-05-01T00:00:00Z"));
    reg.upsert(tomb("b", "2024-02-01T00:00:00Z"));
    reg.upsert(tomb("c", "2022-11-01T00:00:00Z"));
    let all = reg.get_recent_corpses(10);
    assert_eq!(all.len(), 3);
    assert_eq!(all[0].id, "b");
    assert_eq!(all[1].id, "c");
    assert_eq!(all[2].id, "a");
    let two = reg.get_recent_corpses(2);
    assert_eq!(two.len(), 2);
    assert_eq!(two[0].id, "b");
    assert_eq!(two[1].id, "c");
}

#[test]
fn listing_zero_or_negative_limit_is_empty() {
    let mut reg = TombstoneRegistry::new();
    reg.upsert(tomb("a", "2020-05-01T00:00:00Z"));
    assert!(reg.get_recent_corpses(0).is_empty());
    assert!(reg.get_recent_corpses(-3).is_empty());
}

#[test]
fn listing_keeps_insertion_order_between_equal_death_dates() {
    let mut reg = TombstoneRegistry::new();
    reg.upsert(tomb("x", "2022-01-01T00:00:00Z"));
    reg.upsert(tomb("y", "2022-01-01T00:00:00Z"));
    let all = reg.get_recent_corpses(10);
    assert_eq!(all.len(), 2);
    assert_eq!(all[0].id, "y");
    assert_eq!(all[1].id, "x");
}

#[test]
fn listing_an_empty_registry_is_empty() {
    let reg = TombstoneRegistry::new();
    assert!(reg.get_recent_corpses(10).is_empty());
}

#[test]
fn mark_resurrected_sets_the_fields_on_the_match() {
    let mut reg = TombstoneRegistry::new();
    reg.upsert(tomb("a", "2020-05-01T00:00:00Z"));
    reg.upsert(tomb("b", "2021-05-01T00:00:00Z"));
    reg.mark_resurrected(
        &"a".to_string(),
        "new/home.rs".to_string(),
        "2025-01-01T00:00:00Z".to_string(),
    );
    let a = reg.records.iter().find(|t| t.id == "a").unwrap();
    assert_eq!(a.resurrected_at.as_deref(), Some("2025-01-01T00:00:00Z"));
    assert_eq!(a.resurrected_to.as_deref(), Some("new/home.rs"));
    let b = reg.records.iter().find(|t| t.id == "b").unwrap();
    assert!(b.resurrected_at.is_none());
}

#[test]
fn mark_resurrected_unknown_id_is_a_no_op() {
    let mut reg = TombstoneRegistry::new();
    reg.upsert(tomb("a", "2020-05-01T00:00:00Z"));
    reg.mark_resurrected(
        &"nobody".to_string(),
        "p".to_string(),
        "2025-01-01T00:00:00Z".to_string(),
    );
    assert_eq!(reg.records.len(), 1);
    assert!(reg.records[0].resurrected_at.is_none());
}

#[test]
fn mock_corpses_are_three_known_placeholders() {
    let mocks = get_mock_corpses();
    assert_eq!(mocks.len(), 3);
    assert_eq!(mocks[0].id, "regex-validator");
    assert_eq!(mocks[0].died_at, "2024-03-15T00:00:00Z");
    assert_eq!(mocks[0].name, "RegEx captcha parser");
    assert_eq!(mocks[0].language.as_deref(), Some("Rust"));
    assert_eq!(mocks[0].line_count, 256);
    assert_eq!(mocks[0].tags, vec!["rust".to_string(), "validator".to_string()]);
    assert_eq!(mocks[1].id, "vue2-admin");
    assert_eq!(mocks[1].cause_of_death, "Vue 3 was released");
    assert_eq!(mocks[1].line_count, 1542);
    assert_eq!(mocks[2].id, "jquery-branch");
    assert_eq!(mocks[2].original_path, "src/legacy/jquery-bridge.js");
    assert_eq!(mocks[2].line_count, 892);
    assert!(mocks.iter().all(|t| t.resurrected_at.is_none()));
    assert!(mocks.iter().all(|t| t.resurrected_to.is_none()));
}

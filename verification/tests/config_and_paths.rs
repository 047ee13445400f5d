use code_corpses::config::{Config, ConfigStore};
use code_corpses::paths::{get_asset_index_path, get_tombstone_registry_path};

#[test]
fn saving_then_loading_yields_the_config_field_for_field() {
    let mut store = ConfigStore::new();
    let config = Config {
        github_token: Some("token-abc".to_string()),
        target_org: "octo-org".to_string(),
        scan_interval: 900,
        auto_start: true,
    };
    store.save_config(&config);
    let loaded = store.load_config();
    assert_eq!(loaded.github_token, config.github_token);
    assert_eq!(loaded.target_org, config.target_org);
    assert_eq!(loaded.scan_interval, config.scan_interval);
    assert_eq!(loaded.auto_start, config.auto_start);
}

#[test]
fn first_load_creates_and_returns_the_defaults() {
    let mut store = ConfigStore::new();
    let loaded = store.load_config();
    assert_eq!(loaded.github_token, None);
    assert_eq!(loaded.target_org, "microsoft");
    assert_eq!(loaded.scan_interval, 3600);
    assert!(!loaded.auto_start);
    assert!(store.saved.is_some());
}

#[test]
fn updating_the_token_keeps_the_other_fields() {
    let mut store = ConfigStore::new();
    let config = Config {
        github_token: None,
        target_org: "octo-org".to_string(),
        scan_interval: 60,
        auto_start: true,
    };
    store.save_config(&config);
    store.update_github_token("token-abc".to_string());
    let loaded = store.load_config();
    assert_eq!(loaded.github_token.as_deref(), Some("token-abc"));
    assert_eq!(loaded.target_org, "octo-org");
    assert_eq!(loaded.scan_interval, 60);
    assert!(loaded.auto_start);
}

#[test]
fn updating_the_token_on_an_empty_store_starts_from_the_defaults() {
    let mut store = ConfigStore::new();
    store.update_github_token("token-abc".to_string());
    let loaded = store.load_config();
    assert_eq!(loaded.github_token.as_deref(), Some("token-abc"));
    assert_eq!(loaded.target_org, "microsoft");
    assert_eq!(loaded.scan_interval, 3600);
}

#[test]
fn store_paths_hang_off_the_given_base() {
    assert_eq!(
        get_asset_index_path("/work"),
        "/work/.cemetery/asset-index.json"
    );
    assert_eq!(
        get_tombstone_registry_path("."),
        "./.cemetery/tombstone-registry.json"
    );
}

//! Tests for the cache, debouncer, settings, state and command handlers.

use version_lens::badges::{Badge, BadgeStyle};
use version_lens::cache::FileCache;
use version_lens::commands::{CacheCommands, UiCommands};
use version_lens::debouncer::Debouncer;
use version_lens::decorations::{filter_badges_by_style, get_active_buffer_ids, DecorationManager};
use version_lens::settings::{ignore_list_from_text, Settings};
use version_lens::state::AppState;

#[test]
fn test_cache_path_parsing() {
    let cache = FileCache::new(3600);
    let path = cache.cache_path("npm@lodash");
    assert!(path.contains("npm"));
    assert!(path.contains("lodash.json"));
}

#[test]
fn test_cache_operations() {
    let mut cache = FileCache::new(3600);

    // Test set and get
    cache.set("test@package", "test_value").unwrap();
    assert_eq!(cache.get("test@package"), Some("test_value".to_string()));

    // Test is_valid
    assert!(cache.is_valid("test@package"));
    assert!(!cache.is_valid("nonexistent@package"));

    // Test clear
    cache.clear().unwrap();
    assert!(!cache.is_valid("test@package"));
}

#[test]
fn cache_round_trip_and_expiry() {
    let mut cache = FileCache::new(10);
    cache.set_at("npm@react", "18.2.0", 1000).unwrap();
    // read back before the TTL expires: the same value
    assert_eq!(cache.get_at("npm@react", 1005), Some("18.2.0".to_string()));
    assert_eq!(cache.get_at("npm@react", 1010), Some("18.2.0".to_string()));
    // read after expiry: absent, and the entry is removed
    assert_eq!(cache.get_at("npm@react", 1011), None);
    assert_eq!(cache.get_at("npm@react", 1000), None);
}

#[test]
fn cache_overwrite_takes_latest() {
    let mut cache = FileCache::new(100);
    cache.set_at("crates@serde", "1.0.0", 50).unwrap();
    cache.set_at("crates@serde", "1.0.1", 60).unwrap();
    assert_eq!(cache.get_at("crates@serde", 70), Some("1.0.1".to_string()));
}

#[test]
fn cache_path_without_registry() {
    let cache = FileCache::new(1);
    assert_eq!(cache.cache_path("plain"), "plain.json");
    assert_eq!(cache.cache_path("npm@lodash"), "npm/lodash.json");
}

#[test]
fn test_new_key_proceeds() {
    let mut debouncer = Debouncer::new(100);
    assert!(debouncer.should_proceed("file1"));
}

#[test]
fn test_same_key_debounced() {
    let mut debouncer = Debouncer::new(100);

    // First call proceeds
    assert!(debouncer.should_proceed("file1"));

    // Immediate second call should be debounced
    assert!(!debouncer.should_proceed("file1"));
}

#[test]
fn test_different_keys_independent() {
    let mut debouncer = Debouncer::new(100);

    assert!(debouncer.should_proceed("file1"));
    assert!(debouncer.should_proceed("file2"));
}

#[test]
fn test_reset() {
    let mut debouncer = Debouncer::new(100);

    assert!(debouncer.should_proceed("file1"));
    assert!(!debouncer.should_proceed("file1"));

    debouncer.reset("file1");

    // Should proceed again after reset
    assert!(debouncer.should_proceed("file1"));
}

#[test]
fn test_clear() {
    let mut debouncer = Debouncer::new(100);

    debouncer.should_proceed("file1");
    debouncer.should_proceed("file2");

    debouncer.clear();

    // All keys should proceed after clear
    assert!(debouncer.should_proceed("file1"));
    assert!(debouncer.should_proceed("file2"));
}

#[test]
fn test_remaining_time() {
    let debouncer = Debouncer::new(100);

    // Key doesn't exist yet
    assert!(debouncer.remaining_time("nonexistent").is_none());
}

#[test]
fn test_is_debounced() {
    let mut debouncer = Debouncer::new(100);

    // Key doesn't exist
    assert!(!debouncer.is_debounced("file1"));

    debouncer.should_proceed("file1");

    // Just added, should be debounced
    assert!(debouncer.is_debounced("file1"));
}

#[test]
fn debouncer_window_arithmetic() {
    let mut debouncer = Debouncer::new(100);
    assert!(debouncer.should_proceed_at("k", 1000));
    // inside the window: rejected, remaining time counts down
    assert!(!debouncer.should_proceed_at("k", 1050));
    assert_eq!(debouncer.remaining_time_at("k", 1050), Some(50));
    assert!(debouncer.is_debounced_at("k", 1099));
    // at the window's edge the key proceeds again
    assert!(!debouncer.is_debounced_at("k", 1100));
    assert!(debouncer.should_proceed_at("k", 1100));
}

#[test]
fn test_default_settings() {
    let settings = Settings::default();
    assert_eq!(settings.cache_ttl_hours, 24);
    assert!(settings.inline_enabled_default);
    assert!(settings.enabled_registries.contains(&"npm".to_string()));
    assert!(settings.ignore_list.is_empty());
}

#[test]
fn test_should_ignore_exact_match() {
    let mut settings = Settings::default();
    settings.ignore_list = vec!["lodash".to_string()];

    assert!(settings.should_ignore("lodash"));
    // lodash-es starts with lodash, so it should be ignored too
    assert!(settings.should_ignore("lodash-es"));
}

#[test]
fn test_should_ignore_prefix_match() {
    let mut settings = Settings::default();
    settings.ignore_list = vec!["@types/".to_string()];

    assert!(settings.should_ignore("@types/node"));
    assert!(!settings.should_ignore("lodash"));
}

#[test]
fn ignore_file_text_is_filtered() {
    let content = "\n# Example ignore file\nlodash\n@types/node\n";
    let list = ignore_list_from_text(content);
    assert_eq!(list, vec!["lodash".to_string(), "@types/node".to_string()]);
}

#[test]
fn test_default_inline_enabled() {
    let state = AppState::new();
    assert!(state.is_inline_enabled());
}

#[test]
fn test_toggle_inline() {
    let mut state = AppState::new();

    // Initially enabled
    assert!(state.is_inline_enabled());

    // Toggle to disable
    let new_state = state.toggle_inline();
    assert!(!new_state);
    assert!(!state.is_inline_enabled());

    // Toggle back to enable
    let new_state = state.toggle_inline();
    assert!(new_state);
    assert!(state.is_inline_enabled());
}

#[test]
fn test_toggle_inline_enabled() {
    let mut state = AppState::new();
    assert!(state.is_inline_enabled());

    let result = UiCommands::toggle_inline(&mut state);
    assert_eq!(result, "Inline badges disabled");
    assert!(!state.is_inline_enabled());
}

#[test]
fn test_toggle_inline_disabled() {
    let mut state = AppState::new();
    state.toggle_inline(); // Disable first

    let result = UiCommands::toggle_inline(&mut state);
    assert_eq!(result, "Inline badges enabled");
    assert!(state.is_inline_enabled());
}

#[test]
fn test_open_registry_npm() {
    let result = UiCommands::open_registry("lodash", "npm");
    assert!(result.is_ok());
    assert_eq!(result.unwrap(), "https://www.npmjs.com/package/lodash");
}

#[test]
fn test_open_registry_crates() {
    let result = UiCommands::open_registry("serde", "crates.io");
    assert!(result.is_ok());
    assert_eq!(result.unwrap(), "https://crates.io/crates/serde");
}

#[test]
fn test_open_registry_pypi() {
    let result = UiCommands::open_registry("requests", "pypi");
    assert!(result.is_ok());
    assert_eq!(result.unwrap(), "https://pypi.org/project/requests");
}

#[test]
fn test_open_registry_unknown() {
    let result = UiCommands::open_registry("some-package", "unknown-registry");
    assert!(result.is_err());
}

#[test]
fn clear_cache_command_empties_cache() {
    let mut cache = FileCache::new(3600);
    cache.set_at("npm@react", "18.2.0", 10).unwrap();
    let message = CacheCommands::clear_cache(&mut cache).unwrap();
    assert_eq!(message, "Cache cleared successfully");
    assert_eq!(cache.get_at("npm@react", 11), None);
}

#[test]
fn check_all_updates_acknowledges() {
    assert!(CacheCommands::check_all_updates().is_ok());
}

#[test]
fn debouncer_zero_window_always_proceeds() {
    let mut debouncer = Debouncer::new(0);
    assert!(debouncer.should_proceed_at("k", 5));
    assert!(debouncer.should_proceed_at("k", 5));
}

#[test]
fn cache_zero_ttl_expires_next_second() {
    let mut cache = FileCache::new(0);
    cache.set_at("k", "v", 7).unwrap();
    assert_eq!(cache.get_at("k", 7), Some("v".to_string()));
    assert_eq!(cache.get_at("k", 8), None);
}

#[test]
fn decoration_active_ids_lists_nonempty_docs() {
    let mut manager = DecorationManager::new();
    manager.update_badges(vec![Badge::up_to_date("a".to_string(), "1.0.0", "1.0.0", 1)], "one");
    manager.update_badges(vec![], "two");
    let ids = get_active_buffer_ids(&manager);
    assert_eq!(ids, vec!["one".to_string()]);
}

#[test]
fn filter_badges_keeps_matching_in_order() {
    let badges = vec![
        Badge::up_to_date("a".to_string(), "1.0.0", "1.0.0", 1),
        Badge::outdated("b".to_string(), "1.0.0", "1.1.0", 2),
        Badge::up_to_date("c".to_string(), "2.0.0", "2.0.0", 3),
    ];
    let kept = filter_badges_by_style(&badges, &BadgeStyle::UpToDate);
    assert_eq!(kept.len(), 2);
    assert_eq!(kept[0].package_name, "a");
    assert_eq!(kept[1].package_name, "c");
}

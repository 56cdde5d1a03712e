//! Tests for the orchestrator and the badge store.

use version_lens::badges::{Badge, BadgeStyle};
use version_lens::decorations::{create_badges_from_versions, DecorationManager};
use version_lens::version::VersionComparison;
use version_lens::watcher::{BufferWatcher, ChangeOutcome, ManifestKind};

#[test]
fn test_buffer_watcher_creation() {
    let watcher = BufferWatcher::new();
    assert!(watcher.is_package_file("package.json"));
    assert!(watcher.is_package_file("Cargo.toml"));
    assert!(!watcher.is_package_file("README.md"));
}

#[test]
fn test_is_package_file() {
    let watcher = BufferWatcher::new();

    assert!(watcher.is_package_file("package.json"));
    assert!(watcher.is_package_file("Cargo.toml"));
    assert!(watcher.is_package_file("go.mod"));
    assert!(watcher.is_package_file("pyproject.toml"));
    assert!(watcher.is_package_file("Gemfile"));
    assert!(watcher.is_package_file("pubspec.yaml"));

    assert!(!watcher.is_package_file("package-lock.json"));
    assert!(!watcher.is_package_file("Cargo.lock"));
    assert!(!watcher.is_package_file("random.txt"));
}

#[test]
fn test_clear_all() {
    let mut watcher = BufferWatcher::new();

    // Add some cache entries
    watcher.store_version("test", "1.0.0");

    // Clear all
    watcher.clear_all();

    // Cache should be empty
    assert!(watcher.get_cached_version("test").is_none());
}

#[test]
fn clear_all_twice_equals_once() {
    let mut watcher = BufferWatcher::new();
    watcher.store_version("react", "18.2.0");
    watcher.publish_badges(
        "a/package.json",
        vec![Badge::up_to_date("react".to_string(), "^18.0.0", "18.2.0", 3)],
    );
    watcher.clear_all();
    let count_once = watcher.badge_count("a/package.json");
    let cached_once = watcher.get_cached_version("react");
    watcher.clear_all();
    assert_eq!(watcher.badge_count("a/package.json"), count_once);
    assert_eq!(watcher.get_cached_version("react"), cached_once);
    assert_eq!(count_once, 0);
    assert!(cached_once.is_none());
}

#[test]
fn test_supported_file_types() {
    let watcher = BufferWatcher::new();
    let files = watcher.supported_file_types();

    assert!(files.contains(&"package.json"));
    assert!(files.contains(&"Cargo.toml"));
    assert!(files.contains(&"go.mod"));
}

#[test]
fn test_get_parser_for_file() {
    let watcher = BufferWatcher::new();

    let parser = watcher.get_parser_for_file("package.json");
    assert!(parser.is_some());

    let parser = watcher.get_parser_for_file("unknown.json");
    assert!(parser.is_none());
}

#[test]
fn parser_kind_dispatch() {
    let watcher = BufferWatcher::new();
    assert_eq!(watcher.get_parser_for_file("go.mod"), Some(ManifestKind::Go));
    assert_eq!(watcher.get_parser_for_file("pubspec.yml"), Some(ManifestKind::Pubspec));
}

#[test]
fn change_pass_parses_and_publishes() {
    let mut watcher = BufferWatcher::new();
    let content = r#"{"dependencies":{"react":"^18.0.0"}}"#;
    let outcome = watcher.prepare_change_at("proj/package.json", content, 1_000);
    let deps = match outcome {
        ChangeOutcome::Ready(deps) => deps,
        _ => panic!("Expected Ready"),
    };
    assert_eq!(deps.len(), 1);
    assert_eq!(deps[0].name, "react");
    assert_eq!(deps[0].version_specifier, "^18.0.0");

    // the host fetched 18.2.0; the watcher compares and builds the badge
    let mut badges = Vec::new();
    for dep in &deps {
        let badge = watcher.process_dependency(&dep.name, &dep.version_specifier, dep.line_number, "18.2.0");
        badges.push(badge);
    }
    watcher.publish_badges("proj/package.json", badges);
    assert!(watcher.has_active_badges("proj/package.json"));
    assert_eq!(watcher.badge_count("proj/package.json"), 1);
    assert_eq!(watcher.get_cached_version("react"), Some("18.2.0".to_string()));
}

#[test]
fn rapid_changes_publish_once() {
    let mut watcher = BufferWatcher::new();
    let content = r#"{"dependencies":{"react":"^18.0.0"}}"#;
    // first change proceeds and publishes
    let first = watcher.prepare_change_at("p/package.json", content, 1_000);
    let deps = match first {
        ChangeOutcome::Ready(deps) => deps,
        _ => panic!("Expected Ready"),
    };
    let badge = watcher.process_dependency(&deps[0].name, &deps[0].version_specifier, deps[0].line_number, "18.2.0");
    watcher.publish_badges("p/package.json", vec![badge]);
    assert_eq!(watcher.badge_count("p/package.json"), 1);
    // a second change 100 ms later is inside the 500 ms window: rejected,
    // nothing published again
    let second = watcher.prepare_change_at("p/package.json", content, 1_100);
    assert!(matches!(second, ChangeOutcome::Debounced));
    assert_eq!(watcher.badge_count("p/package.json"), 1);
}

#[test]
fn refresh_is_never_debounced() {
    let mut watcher = BufferWatcher::new();
    let content = "require golang.org/x/net v0.17.0\n";
    let first = watcher.prepare_change_at("m/go.mod", content, 1_000);
    assert!(matches!(first, ChangeOutcome::Ready(_)));
    // an ordinary change inside the window is rejected, a refresh is not
    assert!(matches!(watcher.prepare_change_at("m/go.mod", content, 1_001), ChangeOutcome::Debounced));
    assert!(matches!(watcher.refresh_buffer("m/go.mod", content, 1_002), ChangeOutcome::Ready(_)));
}

#[test]
fn unsupported_file_is_ignored() {
    let mut watcher = BufferWatcher::new();
    let outcome = watcher.prepare_change_at("notes/README.md", "hello", 1_000);
    assert!(matches!(outcome, ChangeOutcome::Ignored));
}

#[test]
fn malformed_manifest_keeps_prior_badges() {
    let mut watcher = BufferWatcher::new();
    watcher.publish_badges(
        "p/package.json",
        vec![Badge::up_to_date("react".to_string(), "^18.0.0", "18.2.0", 3)],
    );
    let outcome = watcher.prepare_change_at("p/package.json", "{ broken", 1_000);
    assert!(matches!(outcome, ChangeOutcome::ParseFailed(_)));
    // prior annotations remain displayed until a later successful pass
    assert_eq!(watcher.badge_count("p/package.json"), 1);
}

#[test]
fn clear_buffer_resets_debounce() {
    let mut watcher = BufferWatcher::new();
    let content = "gem 'rails', '~> 7.0'\n";
    assert!(matches!(watcher.prepare_change_at("r/Gemfile", content, 1_000), ChangeOutcome::Ready(_)));
    watcher.publish_badges("r/Gemfile", vec![]);
    watcher.clear_buffer("r/Gemfile");
    assert!(!watcher.has_active_badges("r/Gemfile"));
    // the next change is guaranteed to proceed even inside the window
    assert!(matches!(watcher.prepare_change_at("r/Gemfile", content, 1_001), ChangeOutcome::Ready(_)));
}

#[test]
fn comparison_error_still_renders_badge() {
    let watcher = BufferWatcher::new();
    let comparison = watcher.compare_versions("^1.0.0", "bogus");
    assert!(matches!(comparison, VersionComparison::Error(_)));
    let badge = watcher.create_badge_from_comparison("pkg", "bogus", 4, &comparison);
    assert_eq!(badge.style, BadgeStyle::Outdated);
    assert!(badge.text.starts_with("Error: "));
    assert_eq!(badge.line, 4);
    assert_eq!(badge.package_name, "pkg");
}

#[test]
fn test_decoration_manager() {
    let mut manager = DecorationManager::new();

    let badges = vec![
        Badge::up_to_date("lodash".to_string(), "4.17.21", "4.17.21", 5),
        Badge::outdated("express".to_string(), "4.18.0", "4.19.0", 10),
    ];

    manager.update_badges(badges, "buffer-1");

    assert!(manager.has_badges("buffer-1"));
    assert_eq!(manager.badge_count("buffer-1"), 2);

    manager.clear_badges("buffer-1");
    assert!(!manager.has_badges("buffer-1"));
}

#[test]
fn test_create_badges_from_versions() {
    let versions = vec![
        ("lodash".to_string(), "4.17.21".to_string(), "4.17.21".to_string(), 5),
        ("express".to_string(), "4.18.0".to_string(), "4.19.0".to_string(), 10),
        ("react".to_string(), "17.0.0".to_string(), "18.0.0".to_string(), 15),
    ];

    let badges = create_badges_from_versions(versions);

    assert_eq!(badges.len(), 3);
    assert_eq!(badges[0].style, BadgeStyle::UpToDate);
    assert_eq!(badges[1].style, BadgeStyle::Outdated);
    assert_eq!(badges[2].style, BadgeStyle::MajorDiff);
}

#[test]
fn badge_constructors_format_text() {
    let b = Badge::up_to_date("lodash".to_string(), "4.17.21", "4.17.21", 5);
    assert_eq!(b.text, "4.17.21 -> 4.17.21 (up to date)");
    let b = Badge::outdated("express".to_string(), "4.18.0", "4.19.0", 10);
    assert_eq!(b.text, "4.18.0 -> 4.19.0");
    let b = Badge::major_diff("react".to_string(), "17.0.0", "18.0.0", 15);
    assert_eq!(b.text, "17.0.0 -> 18.0.0 (major)");
}

#[test]
fn update_badges_replaces_not_merges() {
    let mut manager = DecorationManager::new();
    manager.update_badges(
        vec![
            Badge::up_to_date("a".to_string(), "1.0.0", "1.0.0", 1),
            Badge::up_to_date("b".to_string(), "2.0.0", "2.0.0", 2),
        ],
        "doc",
    );
    assert_eq!(manager.badge_count("doc"), 2);
    manager.update_badges(vec![Badge::up_to_date("c".to_string(), "3.0.0", "3.0.0", 3)], "doc");
    assert_eq!(manager.badge_count("doc"), 1);
    let badges = manager.get_badges("doc").unwrap();
    assert_eq!(badges[0].package_name, "c");
}

//! Tests for the version comparator and badge styling.

use version_lens::version::{VersionComparator, VersionComparison, VersionDiff};
use version_lens::badges::BadgeStyle;

#[test]
fn test_caret_version_up_to_date() {
    let comparator = VersionComparator::new();
    // ^1.2.0 allows 1.x.x updates, so 1.3.0 is up to date
    let result = comparator.compare("^1.2.0", "1.3.0");

    if let VersionComparison::UpToDate { .. } = result {
        assert!(true);
    } else {
        panic!("Expected UpToDate");
    }
}

#[test]
fn test_caret_version_outdated_minor() {
    let comparator = VersionComparator::new();
    let result = comparator.compare(">=1.3.0", "1.4.0");

    if let VersionComparison::UpToDate { .. } = result {
        assert!(true);
    } else {
        if let VersionComparison::Outdated { diff, .. } = result {
            assert_eq!(diff, VersionDiff::Minor);
        } else {
            panic!("Expected UpToDate or Outdated with Minor diff");
        }
    }
}

#[test]
fn test_caret_version_outdated_major() {
    let comparator = VersionComparator::new();
    // ^1.2.0 doesn't allow 2.x.x (major version change)
    let result = comparator.compare("^1.2.0", "2.0.0");

    if let VersionComparison::Outdated { diff, .. } = result {
        assert_eq!(diff, VersionDiff::Major);
    } else {
        panic!("Expected Outdated with Major diff");
    }
}

#[test]
fn test_tilde_version() {
    let comparator = VersionComparator::new();
    // ~1.2.0 allows 1.2.x updates
    let result = comparator.compare("~1.2.0", "1.2.5");

    if let VersionComparison::UpToDate { .. } = result {
        assert!(true);
    } else {
        panic!("Expected UpToDate");
    }
}

#[test]
fn test_exact_version() {
    let comparator = VersionComparator::new();
    let result = comparator.compare("1.2.3", "1.2.3");

    if let VersionComparison::UpToDate { .. } = result {
        assert!(true);
    } else {
        panic!("Expected UpToDate");
    }
}

#[test]
fn test_greater_than_or_equal() {
    let comparator = VersionComparator::new();
    let result = comparator.compare(">=1.0.0", "1.2.3");

    if let VersionComparison::UpToDate { .. } = result {
        assert!(true);
    } else {
        panic!("Expected UpToDate");
    }
}

#[test]
fn test_display_text() {
    let comparator = VersionComparator::new();

    // ^1.2.0 with 1.3.0 should be UpToDate
    let result = comparator.compare("^1.2.0", "1.3.0");
    assert_eq!(result.display_text(), "^1.2.0 → 1.3.0");

    // ^1.2.0 with 2.0.0 should be Outdated with Major
    let result = comparator.compare("^1.2.0", "2.0.0");
    assert_eq!(result.display_text(), "^1.2.0 → 2.0.0 (major)");
}

#[test]
fn tilde_rejects_minor_bump() {
    let comparator = VersionComparator::new();
    // ~1.2.0 pins major and minor, so 1.3.0 is outdated by a minor step
    let result = comparator.compare("~1.2.0", "1.3.0");
    if let VersionComparison::Outdated { diff, .. } = result {
        assert_eq!(diff, VersionDiff::Minor);
    } else {
        panic!("Expected Outdated with Minor diff");
    }
}

#[test]
fn caret_keeps_fields() {
    let comparator = VersionComparator::new();
    let result = comparator.compare("^1.2.0", "1.3.0");
    if let VersionComparison::UpToDate { current, latest } = result {
        assert_eq!(current, "^1.2.0");
        assert_eq!(latest, "1.3.0");
    } else {
        panic!("Expected UpToDate");
    }
}

#[test]
fn unparseable_latest_is_error() {
    let comparator = VersionComparator::new();
    let result = comparator.compare("^1.2.0", "not-a-version");
    match result {
        VersionComparison::Error(message) => {
            assert!(!message.is_empty());
        }
        _ => panic!("Expected Error"),
    }
    let result = comparator.compare("^1.2.0", "1.2");
    assert!(matches!(result, VersionComparison::Error(_)));
}

#[test]
fn wildcard_specifier_matches_release() {
    let comparator = VersionComparator::new();
    // an unrecognized specifier falls back to the wildcard requirement
    let result = comparator.compare("1.0", "9.9.9");
    assert!(matches!(result, VersionComparison::UpToDate { .. }));
}

#[test]
fn prerelease_latest_is_not_admitted() {
    let comparator = VersionComparator::new();
    // comparators without a pre-release never admit a pre-release version
    let result = comparator.compare("^1.2.0", "1.3.0-alpha.1");
    if let VersionComparison::Outdated { diff, .. } = result {
        assert_eq!(diff, VersionDiff::Minor);
    } else {
        panic!("Expected Outdated");
    }
}

#[test]
fn diff_label_values() {
    assert_eq!(VersionDiff::Major.label(), "major");
    assert_eq!(VersionDiff::Minor.label(), "minor");
    assert_eq!(VersionDiff::Patch.label(), "patch");
}

#[test]
fn test_major_diff() {
    let style = BadgeStyle::from_version_diff("1.0.0", "2.0.0");
    assert_eq!(style, BadgeStyle::MajorDiff);
}

#[test]
fn test_outdated() {
    let style = BadgeStyle::from_version_diff("1.2.3", "1.4.0");
    assert_eq!(style, BadgeStyle::Outdated);
}

#[test]
fn test_up_to_date() {
    let style = BadgeStyle::from_version_diff("1.2.3", "1.2.3");
    assert_eq!(style, BadgeStyle::UpToDate);
}

#[test]
fn test_caret_prefix() {
    let style = BadgeStyle::from_version_diff("^1.2.3", "1.2.3");
    assert_eq!(style, BadgeStyle::UpToDate);
}

#[test]
fn test_outdated_with_caret() {
    let style = BadgeStyle::from_version_diff("^1.2.3", "1.4.0");
    assert_eq!(style, BadgeStyle::Outdated);
}

#[test]
fn style_colors() {
    assert_eq!(BadgeStyle::UpToDate.color(), "#4ade80");
    assert_eq!(BadgeStyle::Outdated.color(), "#facc15");
    assert_eq!(BadgeStyle::MajorDiff.color(), "#f87171");
    assert_eq!(BadgeStyle::UpToDate.background_color(), "#22c55e33");
    assert_eq!(BadgeStyle::Outdated.background_color(), "#eab30833");
    assert_eq!(BadgeStyle::MajorDiff.background_color(), "#ef444433");
}

#[test]
fn downgrade_is_a_major_diff() {
    let comparator = VersionComparator::new();
    // a "latest" below the pinned base still differs by a major step
    let result = comparator.compare("2.0.0", "1.0.0");
    if let VersionComparison::Outdated { diff, .. } = result {
        assert_eq!(diff, VersionDiff::Major);
    } else {
        panic!("Expected Outdated with Major diff");
    }
    // and a differing minor below the base is a minor step
    let result = comparator.compare("1.5.0", "1.4.9");
    if let VersionComparison::Outdated { diff, .. } = result {
        assert_eq!(diff, VersionDiff::Minor);
    } else {
        panic!("Expected Outdated with Minor diff");
    }
}

//! Tests for the registry clients' URL building and body parsing.

use version_lens::registry::{
    lookup_url, version_from_lookup, CratesClient, GoClient, NpmClient, PubDevClient, PyPIClient,
    RubyGemsClient,
};
use version_lens::watcher::ManifestKind;

#[test]
fn npm_url_and_body() {
    let client = NpmClient::new();
    assert_eq!(client.request_url("react"), "https://registry.npmjs.org/react");

    let body = r#"{"dist-tags":{"latest":"18.2.0"}}"#;
    assert_eq!(client.version_from_body(body).unwrap(), "18.2.0");

    let err_body = r#"{"error":"Not found","reason":"deleted"}"#;
    let err = client.version_from_body(err_body).unwrap_err();
    assert_eq!(err, "npm error: Not found - deleted");

    let missing = r#"{"name":"react"}"#;
    assert_eq!(client.version_from_body(missing).unwrap_err(), "No latest version found");

    assert!(client.version_from_body("not json").unwrap_err().starts_with("Failed to parse JSON: "));
}

#[test]
fn crates_url_and_body() {
    let client = CratesClient::new();
    assert_eq!(client.request_url("serde"), "https://crates.io/api/v1/crates/serde");

    let body = r#"{"crate":{"max_version":"1.0.200"}}"#;
    assert_eq!(client.version_from_body(body).unwrap(), "1.0.200");

    let err_body = r#"{"errors":[{"detail":"crate not found"}]}"#;
    assert_eq!(client.version_from_body(err_body).unwrap_err(), "crates.io error: crate not found");

    let vague = r#"{"errors":"odd"}"#;
    assert_eq!(client.version_from_body(vague).unwrap_err(), "crates.io error: Unknown error");

    let missing = r#"{"crate":{}}"#;
    assert_eq!(client.version_from_body(missing).unwrap_err(), "No max_version found");
}

#[test]
fn pypi_url_and_body() {
    let client = PyPIClient::new();
    assert_eq!(client.request_url("requests"), "https://pypi.org/pypi/requests/json");

    let body = r#"{"info":{"version":"2.32.0"}}"#;
    assert_eq!(client.version_from_body(body).unwrap(), "2.32.0");

    let err_body = r#"{"error":"package missing"}"#;
    assert_eq!(client.version_from_body(err_body).unwrap_err(), "PyPI error: package missing");
}

#[test]
fn rubygems_url_and_body() {
    let client = RubyGemsClient::new();
    assert_eq!(client.request_url("rails"), "https://rubygems.org/api/v1/gems/rails.json");

    let body = r#"{"version":"7.1.0"}"#;
    assert_eq!(client.version_from_body(body).unwrap(), "7.1.0");

    let err_body = r#"{"error":"not found"}"#;
    assert_eq!(client.version_from_body(err_body).unwrap_err(), "RubyGems error: not found");
}

#[test]
fn pubdev_url_and_body() {
    let client = PubDevClient::new();
    assert_eq!(client.request_url("http"), "https://pub.dev/api/packages/http");

    let body = r#"{"latest":{"version":"1.2.0"}}"#;
    assert_eq!(client.version_from_body("http", body).unwrap(), "1.2.0");

    let err = client.version_from_body("nope", "Package not found").unwrap_err();
    assert_eq!(err, "pub.dev error: Package 'nope' not found");
}

#[test]
fn go_url_and_body() {
    let client = GoClient::new();
    assert_eq!(
        client.request_url("golang.org/x/text"),
        "https://proxy.golang.org/golang.org/x/text/@v/list"
    );
    // a version suffix on the module name is dropped
    assert_eq!(
        client.request_url("golang.org/x/text@v2"),
        "https://proxy.golang.org/golang.org/x/text/@v/list"
    );

    let body = "v0.13.0\nv0.14.0\n";
    assert_eq!(client.version_from_body(body).unwrap(), "v0.14.0");

    let with_mod = "v0.13.0\nv0.14.0.mod\n";
    assert_eq!(client.version_from_body(with_mod).unwrap(), "v0.14.0");

    assert_eq!(client.version_from_body("").unwrap_err(), "No versions found for module");
}

#[test]
fn ecosystem_dispatch_picks_the_right_client() {
    assert_eq!(lookup_url(ManifestKind::Npm, "react"), "https://registry.npmjs.org/react");
    assert_eq!(lookup_url(ManifestKind::Cargo, "serde"), "https://crates.io/api/v1/crates/serde");
    assert_eq!(lookup_url(ManifestKind::PyProject, "requests"), "https://pypi.org/pypi/requests/json");
    assert_eq!(lookup_url(ManifestKind::Gemfile, "rails"), "https://rubygems.org/api/v1/gems/rails.json");
    assert_eq!(lookup_url(ManifestKind::Pubspec, "http"), "https://pub.dev/api/packages/http");
    assert_eq!(lookup_url(ManifestKind::Go, "golang.org/x/text"), "https://proxy.golang.org/golang.org/x/text/@v/list");

    let crates_body = r#"{"crate":{"max_version":"1.0.200"}}"#;
    assert_eq!(version_from_lookup(ManifestKind::Cargo, "serde", crates_body).unwrap(), "1.0.200");
    let go_body = "v0.13.0\nv0.14.0\n";
    assert_eq!(version_from_lookup(ManifestKind::Go, "golang.org/x/text", go_body).unwrap(), "v0.14.0");
    let pubdev_err = version_from_lookup(ManifestKind::Pubspec, "nope", "Package not found").unwrap_err();
    assert_eq!(pubdev_err, "pub.dev error: Package 'nope' not found");
}

//! Tests for the six manifest parsers.

use version_lens::parsers::PackageParser;
use version_lens::parsers::cargo::CargoParser;
use version_lens::parsers::gemfile::GemfileParser;
use version_lens::parsers::go::GoParser;
use version_lens::parsers::npm::NpmParser;
use version_lens::parsers::pubspec::PubspecParser;
use version_lens::parsers::pyproject::PyProjectParser;

#[test]
fn test_npm_parser_supports_package_json() {
    let parser = NpmParser;
    assert!(parser.supports_file("package.json"));
    assert!(!parser.supports_file("package-lock.json"));
    assert!(!parser.supports_file("Cargo.toml"));
}

#[test]
fn test_npm_parser_parses_dependencies() {
    let parser = NpmParser;
    let content = r#"{
  "name": "test",
  "dependencies": {
    "react": "^18.0.0",
    "lodash": "4.17.21"
  },
  "devDependencies": {
    "jest": "^29.0.0"
  }
}"#;

    let deps = parser.parse(content).unwrap();
    assert_eq!(deps.len(), 3);

    let react = deps.iter().find(|d| d.name == "react").unwrap();
    assert_eq!(react.version_specifier, "^18.0.0");

    let jest = deps.iter().find(|d| d.name == "jest").unwrap();
    assert_eq!(jest.version_specifier, "^29.0.0");
}

#[test]
fn test_npm_parser_parses_peer_dependencies() {
    let parser = NpmParser;
    let content = r#"{
  "peerDependencies": {
    "react": "^18.0.0"
  }
}"#;

    let deps = parser.parse(content).unwrap();
    assert_eq!(deps.len(), 1);
    assert_eq!(deps[0].name, "react");
}

#[test]
fn test_npm_parser_handles_nested_version() {
    let parser = NpmParser;
    let content = r#"{
  "dependencies": {
    "some-package": {
      "version": "1.0.0",
      "registry": "https://registry.npmjs.org"
    }
  }
}"#;

    let deps = parser.parse(content).unwrap();
    assert_eq!(deps.len(), 1);
    assert_eq!(deps[0].name, "some-package");
    assert_eq!(deps[0].version_specifier, "1.0.0");
}

#[test]
fn npm_single_dependency_exact() {
    let parser = NpmParser;
    let deps = parser.parse(r#"{"dependencies":{"react":"^18.0.0"}}"#).unwrap();
    assert_eq!(deps.len(), 1);
    assert_eq!(deps[0].name, "react");
    assert_eq!(deps[0].version_specifier, "^18.0.0");
}

#[test]
fn npm_line_numbers_inside_section() {
    let parser = NpmParser;
    let content = "{\n  \"dependencies\": {\n    \"react\": \"^18.0.0\"\n  }\n}\n";
    let deps = parser.parse(content).unwrap();
    assert_eq!(deps.len(), 1);
    assert_eq!(deps[0].line_number, 3);
}

#[test]
fn npm_malformed_json_is_error() {
    let parser = NpmParser;
    assert!(parser.parse("{ not json").is_err());
}

#[test]
fn test_parse_cargo_toml() {
    let parser = CargoParser::new();
    let content = r#"
[package]
name = "test"
version = "0.1.0"

[dependencies]
serde = "1.0"
tokio = { version = "1.0", features = ["full"] }

[dev-dependencies]
mockall = "0.11"
"#;

    let result = parser.parse(content);
    assert!(result.is_ok());
    let deps = result.unwrap();
    assert!(deps.len() >= 3);

    // Check that we found serde
    assert!(deps.iter().any(|d| d.name == "serde"));
    assert!(deps.iter().any(|d| d.name == "tokio"));
    assert!(deps.iter().any(|d| d.name == "mockall"));
}

#[test]
fn cargo_test_supports_file() {
    let parser = CargoParser::new();
    assert!(parser.supports_file("Cargo.toml"));
    assert!(!parser.supports_file("Cargo.lock"));
    assert!(!parser.supports_file("go.mod"));
}

#[test]
fn cargo_table_value_and_lines() {
    let parser = CargoParser::new();
    let content = "[dependencies]\nserde = \"1.0\"\ntokio = { features = [\"full\"] }\n";
    let deps = parser.parse(content).unwrap();
    let serde_dep = deps.iter().find(|d| d.name == "serde").unwrap();
    assert_eq!(serde_dep.version_specifier, "1.0");
    assert_eq!(serde_dep.line_number, 2);
    // a table without a version field falls back to the wildcard
    let tokio_dep = deps.iter().find(|d| d.name == "tokio").unwrap();
    assert_eq!(tokio_dep.version_specifier, "*");
}

#[test]
fn cargo_malformed_toml_is_error() {
    let parser = CargoParser::new();
    assert!(parser.parse("[dependencies\nbroken").is_err());
}

#[test]
fn test_parse_go_mod() {
    let parser = GoParser::new();
    let content = r#"module example.com/myapp

go 1.21

require (
    github.com/some/pkg v1.2.3
    golang.org/x/text v0.14.0
)

require golang.org/x/net v0.17.0
"#;

    let result = parser.parse(content);
    assert!(result.is_ok());
    let deps = result.unwrap();

    assert!(deps.len() >= 3, "Expected >= 3 deps, got {}", deps.len());
    assert!(deps.iter().any(|d| d.name == "github.com/some/pkg"));
    assert!(deps.iter().any(|d| d.name == "golang.org/x/text"));
    assert!(deps.iter().any(|d| d.name == "golang.org/x/net"));
}

#[test]
fn go_test_supports_file() {
    let parser = GoParser::new();
    assert!(parser.supports_file("go.mod"));
    assert!(!parser.supports_file("Cargo.toml"));
}

#[test]
fn go_block_and_single_line_requires() {
    let parser = GoParser::new();
    let content = "module m\n\ngo 1.21\n\nrequire (\n    github.com/some/pkg v1.2.3\n)\n\nrequire golang.org/x/net v0.17.0\n";
    let deps = parser.parse(content).unwrap();
    // the go toolchain directive is excluded; both require forms are kept
    assert_eq!(deps.len(), 2);
    assert_eq!(deps[0].name, "github.com/some/pkg");
    assert_eq!(deps[0].version_specifier, "1.2.3");
    assert_eq!(deps[0].line_number, 6);
    assert_eq!(deps[1].name, "golang.org/x/net");
    assert_eq!(deps[1].version_specifier, "0.17.0");
}

#[test]
fn test_parse_gemfile() {
    let parser = GemfileParser::new();
    let content = r#"
source 'https://rubygems.org'

gem 'rails', '~> 7.0'
gem 'puma', '>= 5.0'
gem 'redis'
gem "sidekiq", "^6.5"
gem 'debug', '~> 1.8', platforms: :ruby

# This is a comment
# gem 'ignored'
"#;

    let result = parser.parse(content);
    assert!(result.is_ok());
    let deps = result.unwrap();

    assert!(deps.len() >= 5);
    assert!(deps.iter().any(|d| d.name == "rails"));
    assert!(deps.iter().any(|d| d.name == "puma"));
    assert!(deps.iter().any(|d| d.name == "redis"));
    assert!(deps.iter().any(|d| d.name == "sidekiq"));
    assert!(deps.iter().any(|d| d.name == "debug"));
}

#[test]
fn gemfile_test_supports_file() {
    let parser = GemfileParser::new();
    assert!(parser.supports_file("Gemfile"));
    assert!(!parser.supports_file("Gemfile.lock"));
}

#[test]
fn gemfile_versionless_gem_is_wildcard() {
    let parser = GemfileParser::new();
    let deps = parser.parse("gem 'redis'\n").unwrap();
    assert_eq!(deps.len(), 1);
    assert_eq!(deps[0].name, "redis");
    assert_eq!(deps[0].version_specifier, "*");
}

#[test]
fn gemfile_comments_are_skipped() {
    let parser = GemfileParser::new();
    let deps = parser.parse("# gem 'ignored', '1.0'\ngem 'rails', '~> 7.0'\n").unwrap();
    assert_eq!(deps.len(), 1);
    assert_eq!(deps[0].name, "rails");
    assert_eq!(deps[0].version_specifier, "~> 7.0");
    assert_eq!(deps[0].line_number, 2);
}

#[test]
fn test_parse_pubspec() {
    let parser = PubspecParser::new();
    let content = r#"
name: myapp
version: 1.0.0
description: A test app

dependencies:
  flutter:
    sdk: flutter
  http: ^1.0.0
  provider: any
  json_annotation: ^4.8.0
  equatable: ^2.0.5
  get_it: ^7.6.0

dev_dependencies:
  flutter_test:
    sdk: flutter
  flutter_lints: ^3.0.0
  build_runner: ^2.4.0
"#;

    let result = parser.parse(content);
    assert!(result.is_ok());
    let deps = result.unwrap();

    assert!(deps.len() >= 7, "Expected >= 7 deps, got {}", deps.len());
    assert!(deps.iter().any(|d| d.name == "http"));
    assert!(deps.iter().any(|d| d.name == "provider"));
    assert!(deps.iter().any(|d| d.name == "json_annotation"));
    assert!(deps.iter().any(|d| d.name == "equatable"));
    assert!(deps.iter().any(|d| d.name == "get_it"));
    assert!(deps.iter().any(|d| d.name == "flutter_lints"));
    assert!(deps.iter().any(|d| d.name == "build_runner"));
}

#[test]
fn pubspec_test_supports_file() {
    let parser = PubspecParser::new();
    assert!(parser.supports_file("pubspec.yaml"));
    assert!(!parser.supports_file("pubspec.lock"));
}

#[test]
fn pubspec_value_shapes() {
    let parser = PubspecParser::new();
    let content = "dependencies:\n  http: ^1.0.0\n  provider: any\n  local: ~2.3.4\n";
    let deps = parser.parse(content).unwrap();
    let http = deps.iter().find(|d| d.name == "http").unwrap();
    assert_eq!(http.version_specifier, "1.0.0");
    let provider = deps.iter().find(|d| d.name == "provider").unwrap();
    assert_eq!(provider.version_specifier, "*");
    let local = deps.iter().find(|d| d.name == "local").unwrap();
    assert_eq!(local.version_specifier, "2.3.4");
}

#[test]
fn test_parse_pyproject_toml() {
    let parser = PyProjectParser::new();
    let content = r#"
[project]
name = "myapp"
version = "0.1.0"
dependencies = [
    "requests>=2.28",
    "flask>=2.0",
]

[project.optional-dependencies]
dev = [
    "pytest>=7.0",
    "black>=23.0",
]

[build-system]
requires = ["setuptools>=61.0"]
"#;

    let result = parser.parse(content);
    assert!(result.is_ok());
    let deps = result.unwrap();

    assert!(deps.len() >= 4, "Expected >= 4 deps, got {}", deps.len());
    assert!(deps.iter().any(|d| d.name == "requests"));
    assert!(deps.iter().any(|d| d.name == "flask"));
    assert!(deps.iter().any(|d| d.name == "pytest"));
    assert!(deps.iter().any(|d| d.name == "black"));
}

#[test]
fn pyproject_test_supports_file() {
    let parser = PyProjectParser::new();
    assert!(parser.supports_file("pyproject.toml"));
    assert!(!parser.supports_file("Cargo.toml"));
}

#[test]
fn pyproject_entry_split_and_group_suffix() {
    let parser = PyProjectParser::new();
    let content = "[project]\ndependencies = [\"requests>=2.28\"]\n\n[project.optional-dependencies]\ndev = [\"pytest>=7.0\"]\n";
    let deps = parser.parse(content).unwrap();
    let requests = deps.iter().find(|d| d.name == "requests").unwrap();
    assert_eq!(requests.version_specifier, ">=2.28");
    let pytest = deps.iter().find(|d| d.name == "pytest").unwrap();
    assert_eq!(pytest.version_specifier, ">=7.0 [dev]");
}

#[test]
fn pyproject_poetry_first_writer_wins() {
    let parser = PyProjectParser::new();
    let content = "[project]\ndependencies = [\"requests>=2.28\"]\n\n[tool.poetry.dependencies]\nrequests = \"^2.0\"\nflask = \"^2.0\"\n";
    let deps = parser.parse(content).unwrap();
    // the PEP 621 entry was collected first, so the Poetry duplicate is dropped
    let requests: Vec<_> = deps.iter().filter(|d| d.name == "requests").collect();
    assert_eq!(requests.len(), 1);
    assert_eq!(requests[0].version_specifier, ">=2.28");
    assert!(deps.iter().any(|d| d.name == "flask"));
}

#[test]
fn empty_content_parses_empty() {
    assert!(GoParser::new().parse("").unwrap().is_empty());
    assert!(GemfileParser::new().parse("").unwrap().is_empty());
    assert!(PubspecParser::new().parse("").unwrap().is_empty());
    assert!(CargoParser::new().parse("").unwrap().is_empty());
    assert!(PyProjectParser::new().parse("").unwrap().is_empty());
    // an empty text is not a JSON document
    assert!(NpmParser.parse("").is_err());
}

#[test]
fn pyproject_root_table_is_a_later_source() {
    let parser = PyProjectParser::new();
    let content = "[project]\ndependencies = [\"requests>=2.28\"]\n\n[dependencies]\nrequests = \"^2.0\"\nflask = \"^2.0\"\n";
    let deps = parser.parse(content).unwrap();
    // the root-level table is scanned last: its duplicate of requests is
    // dropped, its fresh flask entry is kept
    let requests: Vec<_> = deps.iter().filter(|d| d.name == "requests").collect();
    assert_eq!(requests.len(), 1);
    assert_eq!(requests[0].version_specifier, ">=2.28");
    assert!(deps.iter().any(|d| d.name == "flask"));
}

#[test]
fn gemfile_duplicate_names_keep_first() {
    let parser = GemfileParser::new();
    let deps = parser.parse("gem 'a', '1.0'\ngem 'a', '2.0'\n").unwrap();
    // a name captured earlier in the scan is not added again
    assert_eq!(deps.len(), 1);
    assert_eq!(deps[0].name, "a");
    assert_eq!(deps[0].version_specifier, "1.0");
    assert_eq!(deps[0].line_number, 1);
}

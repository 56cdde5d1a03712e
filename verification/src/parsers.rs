//! Manifest parsers, one per package ecosystem.

pub mod types;
pub mod go;
pub mod pubspec;
pub mod gemfile;
pub mod cargo;
pub mod npm;
pub mod pyproject;

use vstd::prelude::*;

verus! {

/// Common capability of every manifest parser: extract the dependency
/// entries of a manifest text, and recognize the file names it handles.
pub trait PackageParser {
    fn parse(&self, content: &str) -> Result<Vec<types::Dependency>, types::ParseError>;

    fn supports_file(&self, filename: &str) -> bool;
}

} // verus!

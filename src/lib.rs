//! Dependency inference for JavaScript and TypeScript sources: collects the
//! module specifiers a file imports and resolves each one into candidate
//! workspace files and third-party packages.

mod text;
pub mod pattern;
pub mod path;
pub mod lexer;
pub mod collector;
pub mod resolve;
pub mod infer;
pub mod checks;

pub use checks::{assert_imports, assert_matches_with_star};
pub use collector::{collect, ImportCollector};
pub use infer::{
    get_dependencies, InferenceError, InferenceOutput, JavascriptImportInfo,
    JavascriptInferenceMetadata,
};
pub use pattern::{Pattern, StarMatch};
pub use resolve::{imports_from_patterns, Import, ImportPattern};

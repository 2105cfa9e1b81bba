//! Verified core of a linter and language server for Fleet GitOps YAML.
pub mod deprecations;
pub mod diagnostics;
pub mod field_docs;
pub mod fleet;
pub mod json_hover;
pub mod lint_error;
pub mod lsp;
pub mod paths;
pub mod self_reference;
pub mod text;
pub mod version;
pub mod version_gate;
pub mod workspace;

pub mod help_agents;

//! Workflow configuration: sources, interpolation, diagnostics and merging.

pub mod agent_types;
pub mod compile;
pub mod conversion;
pub mod enrich;
pub mod env_interp;
pub mod env_lint;
pub mod builtins;
pub mod models;
pub mod overlay;
pub mod parse;
pub mod prompt_files;
pub mod redaction;
pub mod removed;
pub mod source;
pub mod sources;
pub mod variables;
pub mod workflow_refs;
pub mod workflow_types;
pub mod yaml_comments;
pub mod yaml_diagnostic;
pub mod yaml_tree;
pub mod yaml_types;

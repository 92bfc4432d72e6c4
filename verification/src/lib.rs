//! Version bumping, changelog generation and platform release planning,
//! with the decisions of each step stated as contracts.

pub mod bump;
pub mod bump_flow;
pub mod bump_plan;
pub mod cargo_version;
pub mod changelog;
pub mod changelog_config;
pub mod cli;
pub mod config;
pub mod config_source;
pub mod config_value;
pub mod display;
pub mod exec;
pub mod extract;
pub mod gitmoji;
pub mod install;
pub mod json;
pub mod orchestrate;
pub mod order;
pub mod path_order;
pub mod pattern;
pub mod progress;
pub mod release;
pub mod shape;
pub mod text;
pub mod token;
pub mod token_blob;
pub mod token_file;
pub mod token_store;
pub mod version_text;

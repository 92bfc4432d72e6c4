//! The command-line layer: argument grammar and the decisions of each subcommand.

pub mod bump;
pub mod parse;
pub mod release;
pub mod schema;
pub mod token;

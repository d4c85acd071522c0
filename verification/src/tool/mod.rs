//! The tools that the agent can invoke.

pub mod bash;
pub mod compound;
pub mod output;
pub mod path;
pub mod read_file;
pub mod registry;
pub mod results;
pub mod rules;
pub mod schema;
pub mod words;
pub mod write_file;

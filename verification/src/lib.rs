//! A coding agent: the conversation loop between a user, a language model and
//! tools, the tools' own rules, and the codec of the model's wire protocol.
//!
//! Everything here is a function of plain values. Sockets, files, child
//! processes and channels are driven from outside.

pub mod agent;
pub mod ai;
pub mod cli;
pub mod dialogue;
pub mod json;
pub mod logger;
pub mod provider;
pub mod registry;
pub mod spelling;
pub mod text;
pub mod tool;

//! The language model: the conversation, the streamed reply, the wire protocol
//! and who is spoken to.

pub mod deepseek;
pub mod error;
pub mod message;
pub mod model;
pub mod protocol;
pub mod provider;
pub mod registry;
pub mod stream;
pub mod transport;
pub mod types;
pub mod usage;

//! The agent: the conversation between the user, the language model and the
//! tools.
//!
//! 1. The history and the user's message go to the language model.
//! 2. Text that comes back is handed on as it arrives.
//! 3. When the language model asks for tools, they run, their results join the
//!    history, and the next round begins.
//! 4. When the language model ends its turn, the run is over.

pub mod agent;
pub mod agent_loop;
pub mod approval;
pub mod config;
pub mod conversation;
pub mod event;
pub mod event_stream;
pub mod handle;
pub mod rounds;
pub mod run;

//! How an agent runs.

use vstd::prelude::*;

verus! {

/// How an agent runs.
#[derive(Debug, Clone, Copy)]
pub struct AgentConfig {
    /// How many times the language model may be asked in one run.
    pub max_tool_rounds: usize,
}

impl Default for AgentConfig {
    fn default() -> (r: Self)
        ensures
            r.max_tool_rounds == 25,
    {
        AgentConfig { max_tool_rounds: 25 }
    }
}

} // verus!

//! What the agent says of the role it runs in.
use vstd::prelude::*;

verus! {

/// The extension under which the agent reports its role.
pub const AGENT_MODE_EXT: &'static str = "agent-mode@piggy";

/// The agent's role.
#[derive(Clone, Copy, Debug, PartialEq, Eq, Structural)]
pub struct AgentMode {
    /// No keys of cards, upstreams only.
    pub proxy_only: bool,
    /// Keys of cards that are served now.
    pub native_keys: usize,
    /// Upstreams that are configured.
    pub upstreams: usize,
}

} // verus!

//! Agents: the named workers that panes are assigned to.

use vstd::prelude::*;

verus! {

/// The kind of program that runs as an agent.
#[derive(Clone, Copy, Debug, PartialEq, Eq, Structural)]
pub enum AgentType {
    Claude,
    Console,
}

/// What an agent is doing.
#[derive(Clone, Copy, Debug, PartialEq, Eq, Structural)]
pub enum AgentStatus {
    Idle,
    Busy,
    Stalled,
    Dead,
}

/// How well an agent responds.
#[derive(Clone, Copy, Debug, PartialEq, Eq, Structural)]
pub enum HealthState {
    Unknown,
    Healthy,
    Degraded,
    Unhealthy,
}

/// An agent as the target resolver is told of it.
#[derive(Debug)]
pub struct Agent {
    pub name: String,
    pub role: String,
    pub agent_type: AgentType,
    pub task: Option<String>,
    pub path: String,
    pub status: AgentStatus,
    pub status_notes: String,
    pub health: HealthState,
    pub last_heartbeat_ms: Option<u64>,
    pub session: Option<String>,
}

impl Agent {
    /// The name of the session that the agent is assigned to, if any.
    pub open spec fn session_name(&self) -> Option<Seq<char>> {
        match self.session {
            Some(session) => Some(session@),
            None => None,
        }
    }
}

} // verus!

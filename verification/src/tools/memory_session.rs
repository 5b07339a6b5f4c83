//! Parameters of the session tools.

use vstd::prelude::*;

verus! {

/// Parameters for the `memory_session_start` tool.
pub struct MemorySessionStartParams {
    /// Optional description of what you're working on
    pub description: Option<String>,
    /// Scope override (default: auto-detected from project)
    pub scope: Option<String>,
}

/// Parameters for the `memory_session_end` tool.
pub struct MemorySessionEndParams {
    /// Optional notes to add to the session summary
    pub notes: Option<String>,
}

/// Parameters for the `memory_session_summary` tool.
pub struct MemorySessionSummaryParams {
    /// Time filter: "today", "week", "all", or a specific session ID. Default: current/latest session.
    pub period: Option<String>,
}

} // verus!

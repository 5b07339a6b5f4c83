//! Parameters of the `memory_inspect` tool.

use vstd::prelude::*;

verus! {

/// Results returned when no limit is given.
pub fn default_limit() -> (res: u32)
    ensures
        res == 20,
{
    20
}

/// Parameters for the `memory_inspect` tool.
pub struct MemoryInspectParams {
    /// What to inspect: "memories", "stats", or omit for stats overview
    pub source: Option<String>,
    /// Get a specific memory by ID
    pub id: Option<String>,
    /// Filter by scope ("global", "project:name")
    pub scope: Option<String>,
    /// Filter by category
    pub category: Option<String>,
    /// Maximum results to return (default: 20)
    pub limit: u32,
}

} // verus!

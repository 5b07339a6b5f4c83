//! Parameters of the `memory_search` tool.

use vstd::prelude::*;

verus! {

/// Results returned when no limit is given.
pub fn default_limit() -> (res: u32)
    ensures
        res == 10,
{
    10
}

/// Parameters for the `memory_search` tool.
pub struct MemorySearchParams {
    /// Search query — natural language or keywords
    pub query: String,
    /// Maximum number of results to return
    pub limit: u32,
    /// Filter by category
    pub category: Option<String>,
}

} // verus!

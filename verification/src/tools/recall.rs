//! Parameters of the `recall` tool.

use vstd::prelude::*;

verus! {

/// Parameters for the `recall` tool.
pub struct RecallParams {
    /// Search query — natural language or keywords
    pub query: String,
    /// Maximum number of results to return
    pub limit: u32,
    /// Filter by category
    pub category: Option<String>,
}

/// Results returned when no limit is given.
pub fn default_limit() -> (res: u32)
    ensures
        res == 10,
{
    10
}

} // verus!

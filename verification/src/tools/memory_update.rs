//! Parameters of the `memory_update` tool.

use vstd::prelude::*;

verus! {

/// Parameters for the `memory_update` tool.
pub struct MemoryUpdateParams {
    /// ID of the memory to update
    pub id: String,
    /// New content (replaces existing)
    pub content: Option<String>,
    /// New category
    pub category: Option<String>,
    /// New tags
    pub tags: Option<Vec<String>>,
    /// New scope
    pub scope: Option<String>,
}

} // verus!

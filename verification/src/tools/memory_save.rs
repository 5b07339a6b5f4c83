//! Parameters of the `memory_save` tool.

use vstd::prelude::*;

verus! {

/// Parameters for the `memory_save` tool.
pub struct MemorySaveParams {
    /// What to remember — a decision, pattern, discovery, or convention
    pub content: String,
    /// Category: decision, pattern, discovery, convention, bugfix
    pub category: Option<String>,
    /// Related file paths for context
    pub files: Option<Vec<String>>,
    /// Tags for additional categorization
    pub tags: Option<Vec<String>>,
    /// Scope: "global" (cross-project) or "project" (current project only). Default: auto-detected.
    pub scope: Option<String>,
}

} // verus!

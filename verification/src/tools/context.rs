//! Parameters of the `context` tool.

use vstd::prelude::*;

verus! {

/// Results per section when no limit is given.
pub fn default_limit() -> (res: u32)
    ensures
        res == 5,
{
    5
}

/// Parameters for the `context` tool.
pub struct ContextParams {
    /// What kind of context: "architecture", "recent-changes", "file", or omit for general
    pub focus: Option<String>,
    /// Topic, file path, or symbol name to get context about
    pub target: Option<String>,
    /// Max results per section (default: 5)
    pub limit: u32,
}

} // verus!

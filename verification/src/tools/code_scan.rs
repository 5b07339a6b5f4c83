//! Parameters of the code scan.

use vstd::prelude::*;

verus! {

/// The number of git commits analysed when none is given.
pub fn default_max_commits() -> (res: u32)
    ensures
        res == 200,
{
    200
}

/// Parameters for the `code_scan` tool (internal, not exposed as MCP tool).
pub struct CodeScanParams {
    /// Directory path to scan (defaults to current working directory)
    pub path: Option<String>,
    /// File patterns to include (e.g., "*.rs", "src/**/*.ts")
    pub patterns: Option<Vec<String>>,
    /// Whether to include git history analysis
    pub include_git: bool,
    /// Maximum number of git commits to analyze (default: 200)
    pub max_commits: u32,
}

} // verus!

//! Parameters of the `memory_forget` tool.

use vstd::prelude::*;

verus! {

/// Parameters for the `memory_forget` tool.
pub struct MemoryForgetParams {
    /// ID of the memory to delete
    pub id: String,
}

} // verus!

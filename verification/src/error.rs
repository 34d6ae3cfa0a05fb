//! The error that the allocators report.

use vstd::prelude::*;

verus! {

/// Why an allocator refused a request.
#[derive(Clone, Copy, Debug, PartialEq, Eq)]
pub enum AllocError {
    /// The size or the alignment of the request is not acceptable.
    InvalidParam,
    /// There is not enough free memory left for the request.
    NoMemory,
}

} // verus!

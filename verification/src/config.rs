//! Fixed layout of a user address space.

use vstd::prelude::*;

verus! {

/// Size of one page of memory.
pub const PAGE_SIZE_4K: usize = 0x1000;

/// Lowest virtual address handed to a user process.
pub const USER_SPACE_BASE: usize = 0x1000;

/// Size of the virtual range reserved for one user process.
pub const USER_SPACE_SIZE: usize = 0x3fff_f000;

/// Upper bound of the user stack; the stack region ends here, at the
/// address space's own upper bound.
pub const USER_STACK_TOP: usize = 0x4000_0000;

/// Size of the user stack region.
pub const USER_STACK_SIZE: usize = 0x1000;

} // verus!

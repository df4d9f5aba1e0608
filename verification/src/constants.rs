//! Layout constants shared by every chunk.

use vstd::prelude::*;

verus! {

/// Alignment that every chunk's first byte and footer are placed on.
pub const CHUNK_ALIGN: usize = 16;

/// Number of bytes that the footer occupies at the high end of a chunk.
pub const FOOTER_SIZE: usize = 32;

/// Data capacity of the first chunk that an arena grows.
pub const FIRST_CHUNK_CAPACITY: usize = 480;

/// Address that the canonical empty chunk reports for itself and for its data.
pub const EMPTY_CHUNK_ADDRESS: usize = 16;

} // verus!

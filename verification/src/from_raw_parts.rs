//! The allocator, and its construction over an existing block of memory,
//! which raw transfer uses.

use vstd::prelude::*;
use crate::arena::{Arena, ArenaView};
use crate::constants::{CHUNK_ALIGN, FOOTER_SIZE};
use crate::footer::{apart_from_empty_chunk, valid_block, ChunkFooter, ChunkRef};
use crate::layout::Layout;

verus! {

/// An allocator that serves its requests from an [`Arena`].
pub struct Allocator {
    arena: Arena,
}

impl View for Allocator {
    type V = ArenaView;

    closed spec fn view(&self) -> ArenaView {
        self.arena@
    }
}

impl Allocator {
    /// Minimum size for memory chunk passed to [`Allocator::from_raw_parts`].
    pub const RAW_MIN_SIZE: usize = FOOTER_SIZE;

    /// Minimum alignment for memory chunk passed to [`Allocator::from_raw_parts`].
    pub const RAW_MIN_ALIGN: usize = CHUNK_ALIGN;

    /// What [`Allocator::from_raw_parts`] asks of its arguments: the block
    /// starts on `RAW_MIN_ALIGN`, its size is a multiple of `RAW_MIN_ALIGN`
    /// and at least `RAW_MIN_SIZE`, its alignment is at least
    /// `RAW_MIN_ALIGN`, and `size` bytes from `ptr` lie in one allocation,
    /// which is not where the canonical empty chunk stands.
    pub open spec fn valid_raw_parts(ptr: usize, layout: Layout) -> bool {
        &&& layout.wf()
        &&& apart_from_empty_chunk(ptr)
        &&& ptr % Self::RAW_MIN_ALIGN == 0
        &&& layout.spec_size() % Self::RAW_MIN_ALIGN == 0
        &&& layout.spec_size() >= Self::RAW_MIN_SIZE
        &&& layout.spec_align() >= Self::RAW_MIN_ALIGN
        &&& ptr + layout.spec_size() <= usize::MAX
    }

    /// The allocator that serves from `arena`.
    pub fn from_arena(arena: Arena) -> (allocator: Allocator)
        ensures
            allocator@ == arena@,
    {
        Allocator { arena }
    }

    /// Construct a static-sized [`Allocator`] from an existing memory allocation.
    ///
    /// The [`Allocator`] which is returned takes ownership of the memory
    /// allocation: the block is its sole chunk, wholly free, and is among
    /// what teardown gives back to be freed, with this layout.
    pub fn from_raw_parts(ptr: usize, layout: Layout) -> (allocator: Allocator)
        requires
            Self::valid_raw_parts(ptr, layout),
        ensures
            allocator@.wf(),
            allocator@.chunks =~= seq![ChunkFooter::spec_new(ptr, layout, ChunkRef::Empty)],
            !allocator@.can_grow,
            allocator@.policy_capacity == 0,
            allocator@.current_footer().start == ptr,
            allocator@.current_footer().spec_capacity() == layout.spec_size() - FOOTER_SIZE,
            allocator@.current_footer().spec_used_bytes() == 0,
            allocator@.current_footer().spec_block_size() == layout.spec_size(),
            allocator@.current_footer().alignment == layout.spec_align(),
    {
        let arena = Arena::from_raw_parts(ptr, layout);
        Self::from_arena(arena)
    }

    /// Tests at run time what [`Allocator::from_raw_parts`] asks of its
    /// arguments.
    pub fn accepts_raw_parts(ptr: usize, layout: &Layout) -> (b: bool)
        requires
            layout.wf(),
        ensures
            b == Self::valid_raw_parts(ptr, *layout),
    {
        crate::footer::is_valid_block(ptr, layout)
    }

    /// The arena that the allocator serves from.
    pub fn arena(&self) -> (arena: &Arena)
        ensures
            arena@ == self@,
    {
        &self.arena
    }

    /// Gives up the allocator for its arena.
    pub fn into_arena(self) -> (arena: Arena)
        ensures
            arena@ == self@,
    {
        self.arena
    }

    /// The minimum size holds a footer and is a multiple of the minimum
    /// alignment, so the smallest block that is accepted is a chunk with a
    /// footer and no room for data.
    pub proof fn lemma_raw_minimums_are_consistent()
        ensures
            Self::RAW_MIN_SIZE >= FOOTER_SIZE,
            Self::RAW_MIN_SIZE % Self::RAW_MIN_ALIGN == 0,
            Self::RAW_MIN_SIZE >= Self::RAW_MIN_ALIGN,
            forall|ptr: usize, layout: Layout|
                Self::valid_raw_parts(ptr, layout) == valid_block(ptr, layout),
    {
    }
}

} // verus!

//! The footer that ends every chunk, and the canonical empty chunk.

use vstd::prelude::*;
use crate::constants::{CHUNK_ALIGN, EMPTY_CHUNK_ADDRESS, FOOTER_SIZE};
use crate::layout::{lemma_pow2_small, Layout};

verus! {

/// Names a chunk: the canonical empty chunk, or a chunk of an arena by its
/// place in that arena's table. It owns nothing.
#[derive(Clone, Copy, Debug, PartialEq, Eq, Structural)]
pub enum ChunkRef {
    /// The canonical empty chunk, which is shared, holds no data and is never
    /// written to.
    Empty,
    /// The chunk at this place in the table of the arena that owns it.
    Index(usize),
}

/// Chunk footer.
///
/// A chunk is one block of memory: data from `start` upwards, then free
/// space, then the footer in the block's highest `FOOTER_SIZE` bytes.
/// Addresses are plain numbers here; the memory itself is the caller's.
#[derive(Clone, Copy, Debug, PartialEq, Eq, Structural)]
pub struct ChunkFooter {
    /// Address of the start of this chunk.
    pub start: usize,
    /// Bump allocation cursor, always in the range `start..=address`.
    /// Everything from the cursor up to the footer is in use.
    pub cursor: usize,
    /// Link to the previous chunk.
    ///
    /// The last link of a chain is the canonical empty chunk, whose own
    /// link names itself.
    pub previous_chunk: ChunkRef,
    /// Alignment this chunk was allocated with.
    pub alignment: usize,
    /// Address of the footer itself, where the chunk's data region ends.
    pub address: usize,
}

/// Whether a block that starts at `ptr` lies apart from the canonical empty
/// chunk: above the footer that the empty chunk reports for itself. No block
/// of memory holds the empty chunk.
pub open spec fn apart_from_empty_chunk(ptr: usize) -> bool {
    ptr >= EMPTY_CHUNK_ADDRESS + FOOTER_SIZE
}

/// Whether the block of `layout` at `ptr` can be made a chunk: it lies apart
/// from the canonical empty chunk, it is placed on `CHUNK_ALIGN`, its size
/// is a multiple of `CHUNK_ALIGN` and holds a footer, its alignment is at
/// least `CHUNK_ALIGN`, and it ends within the address space.
pub open spec fn valid_block(ptr: usize, layout: Layout) -> bool {
    &&& layout.wf()
    &&& apart_from_empty_chunk(ptr)
    &&& ptr % CHUNK_ALIGN == 0
    &&& layout.spec_size() % CHUNK_ALIGN == 0
    &&& layout.spec_size() >= FOOTER_SIZE
    &&& layout.spec_align() >= CHUNK_ALIGN
    &&& ptr + layout.spec_size() <= usize::MAX
}

/// Tests `valid_block` at run time.
pub fn is_valid_block(ptr: usize, layout: &Layout) -> (b: bool)
    requires
        layout.wf(),
    ensures
        b == valid_block(ptr, *layout),
{
    let size = layout.size();
    ptr >= EMPTY_CHUNK_ADDRESS + FOOTER_SIZE && ptr % CHUNK_ALIGN == 0 && size % CHUNK_ALIGN == 0
        && size >= FOOTER_SIZE
        && layout.align() >= CHUNK_ALIGN && size <= usize::MAX - ptr
}

impl ChunkFooter {
    /// Names the canonical empty chunk.
    pub const EMPTY: ChunkRef = ChunkRef::Empty;

    /// The invariant of a chunk: `start <= cursor <= address`, both ends on
    /// `CHUNK_ALIGN`, and the whole block, footer included, a block that an
    /// allocator can have handed out with `alignment`. Only the canonical
    /// empty chunk stands where it stands: every other chunk lies apart.
    pub open spec fn wf(&self) -> bool {
        &&& *self == Self::spec_empty() || apart_from_empty_chunk(self.start)
        &&& 0 < self.start <= self.cursor <= self.address
        &&& self.start % CHUNK_ALIGN == 0
        &&& self.address % CHUNK_ALIGN == 0
        &&& self.alignment >= CHUNK_ALIGN
        &&& self.address + FOOTER_SIZE <= usize::MAX
        &&& Layout::valid((self.address + FOOTER_SIZE - self.start) as usize, self.alignment)
    }

    /// Bytes of data that the chunk can hold: from `start` up to the footer.
    pub open spec fn spec_capacity(&self) -> int {
        self.address - self.start
    }

    /// Bytes in use: from the cursor up to the footer.
    pub open spec fn spec_used_bytes(&self) -> int {
        self.address - self.cursor
    }

    /// Bytes still free: from `start` up to the cursor.
    pub open spec fn spec_free_bytes(&self) -> int {
        self.cursor - self.start
    }

    /// Size of the chunk's whole block, footer included.
    pub open spec fn spec_block_size(&self) -> int {
        self.address + FOOTER_SIZE - self.start
    }

    /// The canonical empty chunk: no data region, linked to itself.
    pub open spec fn spec_empty() -> ChunkFooter {
        ChunkFooter {
            start: EMPTY_CHUNK_ADDRESS,
            cursor: EMPTY_CHUNK_ADDRESS,
            previous_chunk: ChunkRef::Empty,
            alignment: CHUNK_ALIGN,
            address: EMPTY_CHUNK_ADDRESS,
        }
    }

    /// The footer of a fresh chunk over the block of `layout` at `ptr`: the
    /// footer at the block's top, nothing in use.
    pub open spec fn spec_new(ptr: usize, layout: Layout, previous_chunk: ChunkRef) -> ChunkFooter {
        ChunkFooter {
            start: ptr,
            cursor: (ptr + layout.spec_size() - FOOTER_SIZE) as usize,
            previous_chunk,
            alignment: layout.spec_align(),
            address: (ptr + layout.spec_size() - FOOTER_SIZE) as usize,
        }
    }

    /// The canonical empty chunk.
    pub fn empty() -> (footer: ChunkFooter)
        ensures
            footer == Self::spec_empty(),
            footer.wf(),
    {
        proof {
            lemma_pow2_small(CHUNK_ALIGN as int);
        }
        ChunkFooter {
            start: EMPTY_CHUNK_ADDRESS,
            cursor: EMPTY_CHUNK_ADDRESS,
            previous_chunk: ChunkRef::Empty,
            alignment: CHUNK_ALIGN,
            address: EMPTY_CHUNK_ADDRESS,
        }
    }

    /// The footer of a fresh chunk over the block of `layout` at `ptr`.
    pub fn new(ptr: usize, layout: &Layout, previous_chunk: ChunkRef) -> (footer: ChunkFooter)
        requires
            valid_block(ptr, *layout),
        ensures
            footer == Self::spec_new(ptr, *layout, previous_chunk),
            footer.wf(),
            apart_from_empty_chunk(footer.start),
    {
        let address = ptr + (layout.size() - FOOTER_SIZE);
        ChunkFooter {
            start: ptr,
            cursor: address,
            previous_chunk,
            alignment: layout.align(),
            address,
        }
    }

    /// Get data capacity of chunk (including both used and unused regions).
    pub fn capacity(&self) -> (n: usize)
        requires
            self.wf(),
        ensures
            n == self.spec_capacity(),
    {
        self.address - self.start
    }

    /// Get number of bytes used to store data in this chunk.
    pub fn used_bytes(&self) -> (n: usize)
        requires
            self.wf(),
        ensures
            n == self.spec_used_bytes(),
    {
        self.address - self.cursor
    }

    /// Get number of bytes remaining which are free to store data in this chunk.
    pub fn free_bytes(&self) -> (n: usize)
        requires
            self.wf(),
        ensures
            n == self.spec_free_bytes(),
    {
        self.cursor - self.start
    }

    /// Get address of start of chunk's allocation, and its [`Layout`]: the
    /// size of data region and footer together, and the alignment that the
    /// chunk was allocated with.
    pub fn start_ptr_and_layout(&self) -> (r: (usize, Layout))
        requires
            self.wf(),
        ensures
            r.0 == self.start,
            r.1.wf(),
            r.1.spec_size() == self.spec_block_size(),
            r.1.spec_align() == self.alignment,
    {
        let size = self.address + FOOTER_SIZE - self.start;
        let layout = Layout::from_size_align_unchecked(size, self.alignment);
        (self.start, layout)
    }

    /// In a chunk, what is used and what is free make up the capacity.
    pub proof fn lemma_used_and_free_make_capacity(self)
        ensures
            self.spec_used_bytes() + self.spec_free_bytes() == self.spec_capacity(),
            self.wf() ==> 0 <= self.spec_used_bytes() <= self.spec_capacity(),
            self.wf() ==> 0 <= self.spec_free_bytes() <= self.spec_capacity(),
    {
    }

    /// The canonical empty chunk holds nothing, has used nothing and has
    /// nothing free; its link names itself.
    pub proof fn lemma_empty_chunk_is_empty()
        ensures
            Self::spec_empty().wf(),
            Self::spec_empty().spec_capacity() == 0,
            Self::spec_empty().spec_used_bytes() == 0,
            Self::spec_empty().spec_free_bytes() == 0,
            Self::spec_empty().previous_chunk == ChunkRef::Empty,
            Self::spec_empty().spec_block_size() == FOOTER_SIZE,
    {
        lemma_pow2_small(CHUNK_ALIGN as int);
    }

    /// A fresh chunk over a valid block is well formed and wholly free, and
    /// gives back the address and the layout that it was made over.
    pub proof fn lemma_new_chunk_round_trip(ptr: usize, layout: Layout, previous_chunk: ChunkRef)
        requires
            valid_block(ptr, layout),
        ensures
            ({
                let footer = Self::spec_new(ptr, layout, previous_chunk);
                &&& footer.wf()
                &&& footer.start == ptr
                &&& footer.spec_block_size() == layout.spec_size()
                &&& footer.alignment == layout.spec_align()
                &&& footer.spec_capacity() == layout.spec_size() - FOOTER_SIZE
                &&& footer.spec_used_bytes() == 0
                &&& footer.spec_free_bytes() == footer.spec_capacity()
                &&& footer.previous_chunk == previous_chunk
            }),
    {
    }

    /// What a well-formed chunk other than the empty chunk reports as its
    /// block can be made a chunk again, and that chunk is the same chunk,
    /// wholly free: a block handed out for transfer is taken back by the
    /// receiver as it was.
    pub proof fn lemma_block_makes_the_chunk_again(self, layout: Layout)
        requires
            self.wf(),
            apart_from_empty_chunk(self.start),
            layout.spec_size() == self.spec_block_size(),
            layout.spec_align() == self.alignment,
        ensures
            valid_block(self.start, layout),
            Self::spec_new(self.start, layout, self.previous_chunk) == (ChunkFooter {
                cursor: self.address,
                ..self
            }),
    {
    }

    /// Moving the cursor of a chunk within `start..=address` changes neither
    /// its capacity nor the block that it reports.
    pub proof fn lemma_cursor_keeps_block(self, cursor: usize)
        requires
            self.wf(),
            self.start <= cursor <= self.address,
        ensures
            ({
                let moved = ChunkFooter { cursor, ..self };
                &&& moved.wf()
                &&& moved.spec_capacity() == self.spec_capacity()
                &&& moved.spec_block_size() == self.spec_block_size()
                &&& moved.spec_used_bytes() + moved.spec_free_bytes() == self.spec_capacity()
            }),
    {
    }
}

} // verus!

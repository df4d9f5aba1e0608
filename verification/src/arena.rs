//! The chunk chain of an arena: the fast path that bumps the cursor of the
//! current chunk, the growth policy, and teardown.
//!
//! The arena keeps the books and decides; it does not touch memory. Where a
//! request needs a new chunk, the arena says which block to obtain, and the
//! caller hands the block's address back.

use vstd::prelude::*;
use vstd::arithmetic::div_mod::{
    lemma_div_is_ordered, lemma_fundamental_div_mod, lemma_mod_bound, lemma_mod_decreases,
    lemma_mod_multiples_basic,
};
use vstd::arithmetic::mul::{lemma_mul_inequality, lemma_mul_is_commutative};
use vstd::arithmetic::power2::{is_pow2, lemma2_to64, lemma_pow2_pos, lemma_pow2_unfold, pow2};
use crate::constants::{CHUNK_ALIGN, FIRST_CHUNK_CAPACITY, FOOTER_SIZE};
use crate::footer::{apart_from_empty_chunk, valid_block, ChunkFooter, ChunkRef};
use crate::growth::lemma_bump_accounts;
use crate::layout::{lemma_pow2_small, Layout};

verus! {

/// Whether `align` is an alignment that the arena serves: a power of two
/// that is at most `CHUNK_ALIGN`.
pub open spec fn valid_request_align(align: usize) -> bool {
    is_pow2(align as int) && align <= CHUNK_ALIGN
}

/// Tests `valid_request_align` at run time.
pub fn is_valid_request_align(align: usize) -> (b: bool)
    ensures
        b == valid_request_align(align),
{
    proof {
        if align <= 16 {
            lemma_pow2_small(align as int);
        }
    }
    align == 1 || align == 2 || align == 4 || align == 8 || align == 16
}

/// The address of a block of `size` bytes aligned on `align` that is bumped
/// off a cursor: the highest multiple of `align` that is at least `size`
/// bytes below the cursor.
pub open spec fn bump_address(cursor: int, size: int, align: int) -> int {
    (cursor - size) - (cursor - size) % align
}

/// `n` rounded up to a multiple of `CHUNK_ALIGN`.
pub open spec fn round_up_to_chunk_align(n: int) -> int {
    ((n + CHUNK_ALIGN - 1) / (CHUNK_ALIGN as int)) * CHUNK_ALIGN
}

/// The capacity that the growth policy gives the next chunk, after a chunk of
/// `policy_capacity` (zero where it has sized none yet): twice as much.
pub open spec fn next_policy_capacity(policy_capacity: int) -> int {
    if policy_capacity == 0 {
        FIRST_CHUNK_CAPACITY as int
    } else {
        2 * policy_capacity
    }
}

/// Sum of the bytes in use over `chunks`.
pub open spec fn total_used(chunks: Seq<ChunkFooter>) -> int
    decreases chunks.len(),
{
    if chunks.len() == 0 {
        0
    } else {
        total_used(chunks.drop_last()) + chunks.last().spec_used_bytes()
    }
}

/// The block that a chunk occupies, footer included: its address, its size
/// and its alignment.
pub open spec fn block_of(chunk: ChunkFooter) -> (usize, int, usize) {
    (chunk.start, chunk.spec_block_size(), chunk.alignment)
}

/// Whether the chunk at `i` was left for a request that it could not hold:
/// it has less free than its successor has in use.
pub open spec fn left_for_need(chunks: Seq<ChunkFooter>, i: int) -> bool {
    chunks[i].spec_free_bytes() < chunks[i + 1].spec_used_bytes()
}

/// What an arena is: its chunks from the oldest to the current one, whether
/// it may grow, and the capacity of the last chunk that the growth policy
/// sized.
pub struct ArenaView {
    pub chunks: Seq<ChunkFooter>,
    pub can_grow: bool,
    pub policy_capacity: usize,
}

impl ArenaView {
    /// The arena's current chunk: the last of the table, or the canonical
    /// empty chunk where the arena owns none.
    pub open spec fn current(self) -> ChunkRef {
        if self.chunks.len() == 0 {
            ChunkRef::Empty
        } else {
            ChunkRef::Index((self.chunks.len() - 1) as usize)
        }
    }

    /// The footer that `chunk` names.
    pub open spec fn footer(self, chunk: ChunkRef) -> ChunkFooter {
        match chunk {
            ChunkRef::Empty => ChunkFooter::spec_empty(),
            ChunkRef::Index(i) => self.chunks[i as int],
        }
    }

    /// The footer of the current chunk.
    pub open spec fn current_footer(self) -> ChunkFooter {
        self.footer(self.current())
    }

    /// The blocks that the arena owns, from the oldest chunk's to the
    /// current one's.
    pub open spec fn blocks(self) -> Seq<(usize, int, usize)> {
        self.chunks.map_values(|chunk: ChunkFooter| block_of(chunk))
    }

    /// The invariant of an arena. Every chunk is well formed, lies apart
    /// from the canonical empty chunk, and is linked to the one before it,
    /// the oldest to the canonical empty chunk. A chunk that is no longer
    /// current was left for a request that it could not hold. An arena that
    /// may not grow has exactly one chunk.
    pub open spec fn wf(self) -> bool {
        &&& forall|i: int| 0 <= i < self.chunks.len() ==> (#[trigger] self.chunks[i]).wf()
        &&& forall|i: int|
            0 <= i < self.chunks.len() ==> apart_from_empty_chunk((#[trigger] self.chunks[i]).start)
        &&& forall|i: int|
            0 <= i < self.chunks.len() ==> (#[trigger] self.chunks[i]).previous_chunk == (if i
                == 0 {
                ChunkRef::Empty
            } else {
                ChunkRef::Index((i - 1) as usize)
            })
        &&& forall|i: int|
            0 <= i < self.chunks.len() - 1 ==> #[trigger] left_for_need(self.chunks, i)
        &&& !self.can_grow ==> self.chunks.len() == 1
        &&& self.policy_capacity % CHUNK_ALIGN == 0
        &&& self.policy_capacity == 0 || self.policy_capacity >= FIRST_CHUNK_CAPACITY
    }

    /// Whether the fast path serves a request of `size` bytes: the current
    /// chunk is not the canonical empty chunk, which is never written to, and
    /// has that much free.
    pub open spec fn fits(self, size: usize) -> bool {
        self.chunks.len() > 0 && self.chunks.last().spec_free_bytes() >= size
    }

    /// The arena after the fast path has served `size` bytes on `align`: the
    /// cursor of the current chunk has come down to the block's address.
    pub open spec fn bumped(self, size: usize, align: usize) -> ArenaView {
        let current = self.chunks.last();
        ArenaView {
            chunks: self.chunks.update(
                self.chunks.len() - 1,
                ChunkFooter {
                    cursor: bump_address(current.cursor as int, size as int, align as int) as usize,
                    ..current
                },
            ),
            ..self
        }
    }

    /// Whether a request of `size` bytes is larger than the chunk that the
    /// policy would size next.
    pub open spec fn oversized(self, size: usize) -> bool {
        size > next_policy_capacity(self.policy_capacity as int)
    }

    /// The capacity of the chunk to grow for a request of `size` bytes that
    /// the current chunk cannot hold: what the policy gives, or, for an
    /// oversized request, the request alone, rounded up to `CHUNK_ALIGN`.
    pub open spec fn growth_capacity(self, size: usize) -> int {
        if self.oversized(size) {
            round_up_to_chunk_align(size as int)
        } else {
            next_policy_capacity(self.policy_capacity as int)
        }
    }

    /// Whether the arena can grow a chunk for `size` bytes: it may grow, and
    /// the chunk with its footer is a block that an allocator can hand out.
    pub open spec fn grows_for(self, size: usize) -> bool {
        self.can_grow && self.growth_capacity(size) + FOOTER_SIZE + CHUNK_ALIGN - 1 <= isize::MAX
    }

    /// The arena after it has grown a chunk over the block at `block` for a
    /// request of `size` bytes on `align`, and served the request from it.
    pub open spec fn grown(self, block: usize, size: usize, align: usize) -> ArenaView {
        let address = block + self.growth_capacity(size);
        ArenaView {
            chunks: self.chunks.push(
                ChunkFooter {
                    start: block,
                    cursor: bump_address(address, size as int, align as int) as usize,
                    previous_chunk: self.current(),
                    alignment: CHUNK_ALIGN,
                    address: address as usize,
                },
            ),
            can_grow: self.can_grow,
            policy_capacity: if self.oversized(size) {
                self.policy_capacity
            } else {
                self.growth_capacity(size) as usize
            },
        }
    }

    /// Whether every chunk was sized by the growth policy: the first has
    /// `FIRST_CHUNK_CAPACITY`, and each later one twice its predecessor's.
    pub open spec fn follows_policy(self) -> bool {
        &&& self.can_grow
        &&& forall|i: int|
            0 <= i < self.chunks.len() ==> (#[trigger] self.chunks[i]).spec_capacity()
                == FIRST_CHUNK_CAPACITY * pow2(i as nat)
        &&& self.policy_capacity == (if self.chunks.len() == 0 {
            0
        } else {
            self.chunks.last().spec_capacity()
        })
    }
}

/// What the arena answers to a request.
#[derive(Clone, Copy, Debug, PartialEq, Eq, Structural)]
pub enum AllocStep {
    /// The current chunk served the request; the block is at this address.
    Allocated(usize),
    /// The current chunk cannot hold the request. The caller obtains a block
    /// of this layout and hands its address to [`Arena::grow`].
    NeedsChunk(Layout),
    /// The request cannot be served: the arena may not grow, or the chunk
    /// would be larger than any block.
    Exhausted,
}

/// A chain of chunks, newest last, that serves requests by bumping the cursor
/// of the current chunk.
pub struct Arena {
    chunks: Vec<ChunkFooter>,
    can_grow: bool,
    policy_capacity: usize,
}

impl View for Arena {
    type V = ArenaView;

    closed spec fn view(&self) -> ArenaView {
        ArenaView {
            chunks: self.chunks@,
            can_grow: self.can_grow,
            policy_capacity: self.policy_capacity,
        }
    }
}

impl Arena {
    /// An arena that owns no chunk yet: its current chunk is the canonical
    /// empty chunk, and it may grow.
    pub fn new() -> (arena: Arena)
        ensures
            arena@.chunks =~= Seq::<ChunkFooter>::empty(),
            arena@.can_grow,
            arena@.policy_capacity == 0,
            arena@.wf(),
            arena@.follows_policy(),
    {
        Arena { chunks: Vec::new(), can_grow: true, policy_capacity: 0 }
    }

    /// A static-sized arena whose sole chunk is the block of `layout` at
    /// `ptr`, wholly free, its footer at the block's top. The arena owns the
    /// block from now on, and does not grow.
    pub fn from_raw_parts(ptr: usize, layout: Layout) -> (arena: Arena)
        requires
            valid_block(ptr, layout),
        ensures
            arena@.chunks =~= seq![ChunkFooter::spec_new(ptr, layout, ChunkRef::Empty)],
            !arena@.can_grow,
            arena@.policy_capacity == 0,
            arena@.wf(),
            arena@.current_footer().start == ptr,
            arena@.current_footer().spec_capacity() == layout.spec_size() - FOOTER_SIZE,
            arena@.current_footer().spec_used_bytes() == 0,
            arena@.current_footer().spec_block_size() == layout.spec_size(),
            arena@.current_footer().alignment == layout.spec_align(),
    {
        let footer = ChunkFooter::new(ptr, &layout, ChunkRef::Empty);
        let mut chunks: Vec<ChunkFooter> = Vec::new();
        chunks.push(footer);
        Arena { chunks, can_grow: false, policy_capacity: 0 }
    }

    /// Whether the arena may grow chunks.
    pub fn can_grow(&self) -> (b: bool)
        ensures
            b == self@.can_grow,
    {
        self.can_grow
    }

    /// Number of chunks that the arena owns.
    pub fn chunk_count(&self) -> (n: usize)
        ensures
            n == self@.chunks.len(),
    {
        self.chunks.len()
    }

    /// Names the current chunk.
    pub fn current(&self) -> (chunk: ChunkRef)
        ensures
            chunk == self@.current(),
    {
        let n = self.chunks.len();
        if n == 0 {
            ChunkRef::Empty
        } else {
            ChunkRef::Index(n - 1)
        }
    }

    /// The footer of the chunk that `chunk` names.
    pub fn footer(&self, chunk: ChunkRef) -> (footer: ChunkFooter)
        requires
            chunk matches ChunkRef::Index(i) ==> i < self@.chunks.len(),
        ensures
            footer == self@.footer(chunk),
    {
        match chunk {
            ChunkRef::Empty => ChunkFooter::empty(),
            ChunkRef::Index(i) => self.chunks[i],
        }
    }

    /// The footer of the current chunk; that of the canonical empty chunk
    /// where the arena owns none.
    pub fn current_chunk(&self) -> (footer: ChunkFooter)
        ensures
            footer == self@.current_footer(),
    {
        self.footer(self.current())
    }

    /// The fast path. Where the current chunk has `size` bytes free, moves
    /// its cursor down to the block's address and returns that address;
    /// otherwise changes nothing. The canonical empty chunk is never
    /// written to: it serves no request.
    pub fn try_alloc(&mut self, size: usize, align: usize) -> (r: Option<usize>)
        requires
            old(self)@.wf(),
            valid_request_align(align),
        ensures
            final(self)@.wf(),
            r.is_some() == old(self)@.fits(size),
            r is None ==> final(self)@ == old(self)@,
            old(self)@.follows_policy() ==> final(self)@.follows_policy(),
            r matches Some(address) ==> {
                let chunk = old(self)@.chunks.last();
                &&& final(self)@ == old(self)@.bumped(size, align)
                &&& address == bump_address(chunk.cursor as int, size as int, align as int)
                &&& address % align == 0
                &&& chunk.start <= address
                &&& address + size <= chunk.cursor
                &&& chunk.cursor - (address + size) < align
            },
    {
        let n = self.chunks.len();
        if n == 0 {
            return None;
        }
        let chunk = self.chunks[n - 1];
        assert(chunk.wf());
        if chunk.free_bytes() < size {
            return None;
        }
        proof {
            lemma_bump_address(chunk.start as int, chunk.cursor as int, size as int, align as int);
            lemma_bumped_is_wf(self@, size, align);
            lemma_bump_accounts(self@, size, align);
        }
        let address = bump(chunk.cursor, size, align);
        self.chunks.set(n - 1, ChunkFooter { cursor: address, ..chunk });
        assert(self@.chunks =~= old(self)@.bumped(size, align).chunks);
        Some(address)
    }

    /// The capacity that the growth policy gives the next chunk, where a
    /// `usize` holds it.
    fn next_capacity(&self) -> (r: Option<usize>)
        ensures
            r.is_some() == (next_policy_capacity(self@.policy_capacity as int) <= usize::MAX),
            r matches Some(n) ==> n == next_policy_capacity(self@.policy_capacity as int),
    {
        if self.policy_capacity == 0 {
            Some(FIRST_CHUNK_CAPACITY)
        } else {
            self.policy_capacity.checked_mul(2)
        }
    }

    /// The slow path's decision: the layout of the chunk to obtain for a
    /// request of `size` bytes that the current chunk cannot hold. The chunk
    /// has the capacity that the growth policy gives, twice that of the last
    /// chunk it sized. A request larger than that gets a chunk of its own,
    /// sized for it alone, which leaves the policy where it was.
    /// `None` where the arena may not grow or no block can be that large.
    pub fn growth_request(&self, size: usize) -> (r: Option<Layout>)
        requires
            self@.wf(),
        ensures
            r.is_some() == self@.grows_for(size),
            r matches Some(layout) ==> {
                &&& layout.wf()
                &&& layout.spec_size() == self@.growth_capacity(size) + FOOTER_SIZE
                &&& layout.spec_align() == CHUNK_ALIGN
            },
    {
        if !self.can_grow {
            return None;
        }
        let limit: usize = isize::MAX as usize - (CHUNK_ALIGN - 1) - FOOTER_SIZE;
        let capacity: usize = match self.next_capacity() {
            Some(next) if size <= next => next,
            Some(_) => {
                proof {
                    lemma_round_up(size as int);
                }
                if size > limit {
                    return None;
                }
                (size + (CHUNK_ALIGN - 1)) / CHUNK_ALIGN * CHUNK_ALIGN
            },
            None => {
                return None;
            },
        };
        if capacity > limit {
            return None;
        }
        proof {
            lemma_pow2_small(CHUNK_ALIGN as int);
        }
        Some(Layout::from_size_align_unchecked(capacity + FOOTER_SIZE, CHUNK_ALIGN))
    }

    /// The slow path's second half. Links a new chunk over the block at
    /// `block`, which the caller obtained with the layout that
    /// [`Arena::growth_request`] gave for `size`, makes it the current chunk,
    /// and serves the request from it.
    pub fn grow(&mut self, block: usize, size: usize, align: usize) -> (address: usize)
        requires
            old(self)@.wf(),
            valid_request_align(align),
            !old(self)@.fits(size),
            old(self)@.grows_for(size),
            apart_from_empty_chunk(block),
            block % CHUNK_ALIGN == 0,
            block + old(self)@.growth_capacity(size) + FOOTER_SIZE <= usize::MAX,
        ensures
            final(self)@.wf(),
            final(self)@ == old(self)@.grown(block, size, align),
            address == final(self)@.chunks.last().cursor,
            address % align == 0,
            block <= address,
            address + size <= block + old(self)@.growth_capacity(size),
            old(self)@.follows_policy() && !old(self)@.oversized(size)
                ==> final(self)@.follows_policy(),
    {
        let layout = self.growth_request(size).unwrap();
        let fresh = ChunkFooter::new(block, &layout, self.current());
        proof {
            lemma_round_up(size as int);
            lemma_bump_address(block as int, fresh.address as int, size as int, align as int);
            lemma_grown_is_wf(self@, block, size, align);
        }
        let address = bump(fresh.address, size, align);
        let oversized = match self.next_capacity() {
            Some(next) => size > next,
            None => false,
        };
        if !oversized {
            self.policy_capacity = fresh.address - fresh.start;
        }
        self.chunks.push(ChunkFooter { cursor: address, ..fresh });
        assert(self@.chunks =~= old(self)@.grown(block, size, align).chunks);
        address
    }

    /// One step of serving a request of `size` bytes on `align`: the fast
    /// path where the current chunk holds it, else the decision of the slow
    /// path, which changes nothing.
    pub fn request(&mut self, size: usize, align: usize) -> (step: AllocStep)
        requires
            old(self)@.wf(),
            valid_request_align(align),
        ensures
            final(self)@.wf(),
            old(self)@.follows_policy() ==> final(self)@.follows_policy(),
            old(self)@.fits(size) ==> step == AllocStep::Allocated(
                bump_address(old(self)@.chunks.last().cursor as int, size as int, align as int) as usize,
            ) && final(self)@ == old(self)@.bumped(size, align),
            !old(self)@.fits(size) ==> final(self)@ == old(self)@,
            !old(self)@.fits(size) && !old(self)@.grows_for(size) ==> step == AllocStep::Exhausted,
            !old(self)@.fits(size) && old(self)@.grows_for(size) ==> (step matches AllocStep::NeedsChunk(
                layout,
            ) && layout.wf() && layout.spec_size() == old(self)@.growth_capacity(size) + FOOTER_SIZE
                && layout.spec_align() == CHUNK_ALIGN),
    {
        match self.try_alloc(size, align) {
            Some(address) => AllocStep::Allocated(address),
            None => match self.growth_request(size) {
                Some(layout) => AllocStep::NeedsChunk(layout),
                None => AllocStep::Exhausted,
            },
        }
    }

    /// Teardown. Gives up the arena and returns, for every chunk that it
    /// owned, the address and the layout of its block, from the current chunk
    /// back along the links to the oldest. The canonical empty chunk, which
    /// ends the chain, is not among them: every block lies apart from it.
    pub fn release(self) -> (blocks: Vec<(usize, Layout)>)
        requires
            self@.wf(),
        ensures
            blocks@.len() == self@.blocks().len(),
            forall|j: int|
                0 <= j < blocks@.len() ==> {
                    let block = self@.blocks()[blocks@.len() - 1 - j];
                    &&& (#[trigger] blocks@[j]).0 == block.0
                    &&& blocks@[j].1.wf()
                    &&& blocks@[j].1.spec_size() == block.1
                    &&& blocks@[j].1.spec_align() == block.2
                },
            forall|j: int|
                0 <= j < blocks@.len() ==> apart_from_empty_chunk((#[trigger] blocks@[j]).0),
    {
        let mut blocks: Vec<(usize, Layout)> = Vec::new();
        let mut link = self.current();
        let count = self.chunks.len();
        let ghost n = count as int;
        let ghost mut left: int = n;
        loop
            invariant
                self@.wf(),
                n == self@.chunks.len(),
                n <= usize::MAX,
                0 <= left <= n,
                link == (if left == 0 {
                    ChunkRef::Empty
                } else {
                    ChunkRef::Index((left - 1) as usize)
                }),
                blocks@.len() == n - left,
                forall|j: int|
                    0 <= j < blocks@.len() ==> {
                        let chunk = self@.chunks[n - 1 - j];
                        &&& (#[trigger] blocks@[j]).0 == chunk.start
                        &&& blocks@[j].1.wf()
                        &&& blocks@[j].1.spec_size() == chunk.spec_block_size()
                        &&& blocks@[j].1.spec_align() == chunk.alignment
                        &&& apart_from_empty_chunk(blocks@[j].0)
                    },
            ensures
                left == 0,
            decreases left,
        {
            match link {
                ChunkRef::Empty => {
                    break ;
                },
                ChunkRef::Index(i) => {
                    let chunk = self.chunks[i];
                    assert(self@.chunks[i as int].wf());
                    assert(apart_from_empty_chunk(self@.chunks[i as int].start));
                    assert(self@.chunks[i as int].previous_chunk == (if i == 0 {
                        ChunkRef::Empty
                    } else {
                        ChunkRef::Index((i - 1) as usize)
                    }));
                    blocks.push(chunk.start_ptr_and_layout());
                    link = chunk.previous_chunk;
                    proof {
                        left = left - 1;
                    }
                },
            }
        }
        blocks
    }
}

/// Computes `bump_address`.
fn bump(cursor: usize, size: usize, align: usize) -> (address: usize)
    requires
        size <= cursor,
        align > 0,
    ensures
        address == bump_address(cursor as int, size as int, align as int),
{
    let below = cursor - size;
    proof {
        lemma_mod_bound(below as int, align as int);
        lemma_mod_decreases(below as nat, align as nat);
    }
    below - below % align
}

/// The fast path keeps the arena's invariant.
pub proof fn lemma_bumped_is_wf(arena: ArenaView, size: usize, align: usize)
    requires
        arena.wf(),
        valid_request_align(align),
        arena.fits(size),
    ensures
        arena.bumped(size, align).wf(),
{
    let n = arena.chunks.len() as int;
    let current = arena.chunks[n - 1];
    let after = arena.bumped(size, align);
    assert(current.wf());
    lemma_bump_address(current.start as int, current.cursor as int, size as int, align as int);
    assert(after.chunks[n - 1].wf());
    assert forall|i: int| 0 <= i < after.chunks.len() implies (#[trigger] after.chunks[i]).wf() by {
        if i < n - 1 {
            assert(arena.chunks[i].wf());
        }
    }
    assert forall|i: int| 0 <= i < after.chunks.len() implies apart_from_empty_chunk(
        (#[trigger] after.chunks[i]).start,
    ) by {
        assert(apart_from_empty_chunk(arena.chunks[i].start));
    }
    assert forall|i: int| 0 <= i < after.chunks.len() - 1 implies #[trigger] left_for_need(
        after.chunks,
        i,
    ) by {
        assert(left_for_need(arena.chunks, i));
    }
    assert forall|i: int| 0 <= i < after.chunks.len() implies (
    #[trigger] after.chunks[i]).previous_chunk == (if i == 0 {
        ChunkRef::Empty
    } else {
        ChunkRef::Index((i - 1) as usize)
    }) by {
        assert(arena.chunks[i].previous_chunk == (if i == 0 {
            ChunkRef::Empty
        } else {
            ChunkRef::Index((i - 1) as usize)
        }));
    }
}

/// The chunk that the arena grows is well formed and holds the request.
proof fn lemma_grown_chunk(arena: ArenaView, block: usize, size: usize, align: usize)
    requires
        arena.wf(),
        valid_request_align(align),
        arena.grows_for(size),
        apart_from_empty_chunk(block),
        block % CHUNK_ALIGN == 0,
        block + arena.growth_capacity(size) + FOOTER_SIZE <= usize::MAX,
    ensures
        arena.grown(block, size, align).chunks.last().wf(),
        arena.grown(block, size, align).chunks.last().spec_used_bytes() >= size,
        arena.growth_capacity(size) % (CHUNK_ALIGN as int) == 0,
        arena.growth_capacity(size) >= size,
        arena.growth_capacity(size) >= FIRST_CHUNK_CAPACITY,
{
    lemma_round_up(size as int);
    lemma_pow2_small(CHUNK_ALIGN as int);
    let capacity = arena.growth_capacity(size);
    lemma_bump_address(block as int, block + capacity, size as int, align as int);
}

/// Growing keeps the arena's invariant; and where every chunk so far was
/// sized by the policy and the request is not oversized, so is the new one.
pub proof fn lemma_grown_is_wf(arena: ArenaView, block: usize, size: usize, align: usize)
    requires
        arena.wf(),
        valid_request_align(align),
        !arena.fits(size),
        arena.grows_for(size),
        apart_from_empty_chunk(block),
        block % CHUNK_ALIGN == 0,
        block + arena.growth_capacity(size) + FOOTER_SIZE <= usize::MAX,
    ensures
        arena.grown(block, size, align).wf(),
        arena.follows_policy() && !arena.oversized(size) ==> arena.grown(
            block,
            size,
            align,
        ).follows_policy(),
{
    let n = arena.chunks.len() as int;
    let after = arena.grown(block, size, align);
    lemma_grown_chunk(arena, block, size, align);
    assert(after.chunks.len() == n + 1);
    assert(after.chunks.last() == after.chunks[n]);
    assert forall|i: int| 0 <= i < after.chunks.len() implies (#[trigger] after.chunks[i]).wf() by {
        if i < n {
            assert(arena.chunks[i].wf());
        }
    }
    assert forall|i: int| 0 <= i < after.chunks.len() implies apart_from_empty_chunk(
        (#[trigger] after.chunks[i]).start,
    ) by {
        if i < n {
            assert(apart_from_empty_chunk(arena.chunks[i].start));
        }
    }
    assert forall|i: int| 0 <= i < after.chunks.len() - 1 implies #[trigger] left_for_need(
        after.chunks,
        i,
    ) by {
        if i < n - 1 {
            assert(left_for_need(arena.chunks, i));
        }
    }
    assert forall|i: int| 0 <= i < after.chunks.len() implies (
    #[trigger] after.chunks[i]).previous_chunk == (if i == 0 {
        ChunkRef::Empty
    } else {
        ChunkRef::Index((i - 1) as usize)
    }) by {
        if i < n {
            assert(arena.chunks[i].previous_chunk == (if i == 0 {
                ChunkRef::Empty
            } else {
                ChunkRef::Index((i - 1) as usize)
            }));
        }
    }
    if arena.follows_policy() && !arena.oversized(size) {
        if n > 0 {
            lemma_pow2_unfold(n as nat);
            lemma_pow2_pos((n - 1) as nat);
            assert(arena.chunks[n - 1].spec_capacity() == FIRST_CHUNK_CAPACITY * pow2(
                (n - 1) as nat,
            ));
        } else {
            lemma2_to64();
        }
        assert(after.chunks[n].spec_capacity() == FIRST_CHUNK_CAPACITY * pow2(n as nat));
        assert forall|i: int| 0 <= i < after.chunks.len() implies (
        #[trigger] after.chunks[i]).spec_capacity() == FIRST_CHUNK_CAPACITY * pow2(i as nat) by {
            if i < n {
                assert(arena.chunks[i].spec_capacity() == FIRST_CHUNK_CAPACITY * pow2(i as nat));
            }
        }
    }
}

/// Rounding `x` down to a multiple of `align` does not pass below a multiple
/// of `align` that `x` is not below.
pub proof fn lemma_align_down(start: int, x: int, align: int)
    requires
        align > 0,
        start % align == 0,
        start <= x,
    ensures
        start <= x - x % align <= x,
        (x - x % align) % align == 0,
        0 <= x % align < align,
{
    lemma_fundamental_div_mod(x, align);
    lemma_fundamental_div_mod(start, align);
    lemma_div_is_ordered(start, x, align);
    lemma_mul_inequality(start / align, x / align, align);
    lemma_mul_is_commutative(start / align, align);
    lemma_mul_is_commutative(x / align, align);
    lemma_mod_multiples_basic(x / align, align);
    lemma_mod_bound(x, align);
}

/// A block bumped off a cursor for a served alignment lies between the start
/// of a chunk that has room for it and the cursor, on that alignment, with
/// less than the alignment lost above it.
pub proof fn lemma_bump_address(start: int, cursor: int, size: int, align: int)
    requires
        is_pow2(align),
        align <= CHUNK_ALIGN,
        start % (CHUNK_ALIGN as int) == 0,
        start + size <= cursor,
    ensures
        start <= bump_address(cursor, size, align) <= cursor - size,
        bump_address(cursor, size, align) % align == 0,
        cursor - size - bump_address(cursor, size, align) < align,
{
    lemma_pow2_small(align);
    assert(start % align == 0) by {
        if align == 1 {
        } else if align == 2 {
            assert(start % 2 == 0);
        } else if align == 4 {
            assert(start % 4 == 0);
        } else if align == 8 {
            assert(start % 8 == 0);
        }
    }
    lemma_align_down(start, cursor - size, align);
}

/// Rounding up to `CHUNK_ALIGN` gives the least multiple that is not below.
pub proof fn lemma_round_up(n: int)
    requires
        0 <= n,
    ensures
        n <= round_up_to_chunk_align(n) < n + CHUNK_ALIGN,
        round_up_to_chunk_align(n) % (CHUNK_ALIGN as int) == 0,
{
}

} // verus!

//! What holds of the bytes in use as an arena serves requests and grows.

use vstd::prelude::*;
use vstd::arithmetic::power2::{lemma2_to64, lemma_pow2_unfold, pow2};
use crate::arena::{
    bump_address, left_for_need, lemma_bump_address, lemma_round_up, total_used,
    valid_request_align, ArenaView,
};
use crate::constants::{CHUNK_ALIGN, FIRST_CHUNK_CAPACITY, FOOTER_SIZE};
use crate::footer::ChunkFooter;

verus! {

/// A chunk added to the table adds what it has in use.
pub proof fn lemma_total_used_push(chunks: Seq<ChunkFooter>, footer: ChunkFooter)
    ensures
        total_used(chunks.push(footer)) == total_used(chunks) + footer.spec_used_bytes(),
{
    assert(chunks.push(footer).drop_last() =~= chunks);
}

/// Replacing the last chunk of the table replaces what it has in use.
pub proof fn lemma_total_used_update_last(chunks: Seq<ChunkFooter>, footer: ChunkFooter)
    requires
        chunks.len() > 0,
    ensures
        total_used(chunks.update(chunks.len() - 1, footer)) == total_used(chunks)
            - chunks.last().spec_used_bytes() + footer.spec_used_bytes(),
{
    assert(chunks.update(chunks.len() - 1, footer).drop_last() =~= chunks.drop_last());
}

/// A request that the fast path serves adds to the bytes in use its size
/// and less than its alignment, and leaves every chunk the capacity and the
/// block it had.
pub proof fn lemma_bump_accounts(arena: ArenaView, size: usize, align: usize)
    requires
        arena.wf(),
        valid_request_align(align),
        arena.fits(size),
    ensures
        ({
            let after = arena.bumped(size, align);
            let taken = total_used(after.chunks) - total_used(arena.chunks);
            &&& size <= taken < size + align
            &&& after.chunks.len() == arena.chunks.len()
            &&& forall|i: int|
                0 <= i < arena.chunks.len() ==> (#[trigger] after.chunks[i]).spec_capacity()
                    == arena.chunks[i].spec_capacity()
            &&& arena.follows_policy() ==> after.follows_policy()
            &&& after.blocks() == arena.blocks()
        }),
{
    let current = arena.chunks.last();
    assert(current.wf());
    lemma_bump_address(current.start as int, current.cursor as int, size as int, align as int);
    let address = bump_address(current.cursor as int, size as int, align as int) as usize;
    lemma_total_used_update_last(arena.chunks, ChunkFooter { cursor: address, ..current });
    let after = arena.bumped(size, align);
    assert(after.blocks() =~= arena.blocks());
    if arena.follows_policy() {
        assert forall|i: int| 0 <= i < after.chunks.len() implies (
        #[trigger] after.chunks[i]).spec_capacity() == FIRST_CHUNK_CAPACITY * pow2(i as nat) by {
            assert(arena.chunks[i].spec_capacity() == FIRST_CHUNK_CAPACITY * pow2(i as nat));
        }
    }
}

/// A request that the arena grows for adds to the bytes in use its size and
/// less than its alignment, in one more chunk, whose block is the block that
/// was handed in, with the size and the alignment that were asked for. A
/// chunk for an oversized request holds the request and less than
/// `CHUNK_ALIGN` more, and leaves the growth policy where it was.
pub proof fn lemma_grow_accounts(arena: ArenaView, block: usize, size: usize, align: usize)
    requires
        arena.wf(),
        valid_request_align(align),
        arena.grows_for(size),
        block % CHUNK_ALIGN == 0,
        block + arena.growth_capacity(size) + FOOTER_SIZE <= usize::MAX,
    ensures
        ({
            let after = arena.grown(block, size, align);
            let taken = total_used(after.chunks) - total_used(arena.chunks);
            &&& size <= taken < size + align
            &&& after.chunks.len() == arena.chunks.len() + 1
            &&& after.chunks.last().spec_capacity() == arena.growth_capacity(size)
            &&& arena.oversized(size) ==> after.policy_capacity == arena.policy_capacity
            &&& arena.oversized(size) ==> size <= after.chunks.last().spec_capacity() < size
                + CHUNK_ALIGN
            &&& after.blocks() == arena.blocks().push(
                (block, arena.growth_capacity(size) + FOOTER_SIZE, CHUNK_ALIGN),
            )
        }),
{
    lemma_round_up(size as int);
    let capacity = arena.growth_capacity(size);
    lemma_bump_address(block as int, block + capacity, size as int, align as int);
    let after = arena.grown(block, size, align);
    lemma_total_used_push(arena.chunks, after.chunks.last());
    assert(after.chunks.drop_last() =~= arena.chunks);
    assert(after.blocks() =~= arena.blocks().push(
        (block, arena.growth_capacity(size) + FOOTER_SIZE, CHUNK_ALIGN),
    ));
}

/// Where every chunk but the last was left for a request that it could not
/// hold, and the capacities double from `FIRST_CHUNK_CAPACITY`, the bytes in
/// use outweigh the capacities of the chunks that were left.
proof fn lemma_doubling_is_paid_for(chunks: Seq<ChunkFooter>)
    requires
        chunks.len() >= 1,
        forall|i: int| 0 <= i < chunks.len() ==> (#[trigger] chunks[i]).wf(),
        forall|i: int| 0 <= i < chunks.len() - 1 ==> #[trigger] left_for_need(chunks, i),
        forall|i: int|
            0 <= i < chunks.len() ==> (#[trigger] chunks[i]).spec_capacity() == FIRST_CHUNK_CAPACITY
                * pow2(i as nat),
    ensures
        2 * total_used(chunks) >= FIRST_CHUNK_CAPACITY * (pow2((chunks.len() - 1) as nat) - 1) + (
        chunks.len() - 1) + chunks.last().spec_used_bytes(),
    decreases chunks.len(),
{
    let n = chunks.len() as int;
    let last = chunks.last();
    assert(chunks[n - 1].wf());
    if n == 1 {
        lemma2_to64();
        assert(chunks.drop_last().len() == 0);
        assert(total_used(chunks.drop_last()) == 0);
        assert(total_used(chunks) == last.spec_used_bytes());
    } else {
        let prefix = chunks.drop_last();
        assert forall|i: int| 0 <= i < prefix.len() implies (#[trigger] prefix[i]).wf() by {
            assert(chunks[i].wf());
        }
        assert forall|i: int| 0 <= i < prefix.len() - 1 implies #[trigger] left_for_need(
            prefix,
            i,
        ) by {
            assert(left_for_need(chunks, i));
        }
        assert forall|i: int| 0 <= i < prefix.len() implies (#[trigger] prefix[i]).spec_capacity()
            == FIRST_CHUNK_CAPACITY * pow2(i as nat) by {
            assert(chunks[i].spec_capacity() == FIRST_CHUNK_CAPACITY * pow2(i as nat));
        }
        lemma_doubling_is_paid_for(prefix);
        lemma_pow2_unfold((n - 1) as nat);
        let half = pow2((n - 2) as nat) as int;
        assert(pow2((n - 1) as nat) == 2 * half);
        assert(left_for_need(chunks, n - 2));
        assert(chunks[n - 2].spec_capacity() == FIRST_CHUNK_CAPACITY * pow2((n - 2) as nat));
        assert(prefix.last() == chunks[n - 2]);
        assert(total_used(chunks) == total_used(prefix) + last.spec_used_bytes());
        assert(chunks[n - 2].spec_used_bytes() + last.spec_used_bytes() >= FIRST_CHUNK_CAPACITY
            * half + 1);
        assert(2 * total_used(prefix) >= FIRST_CHUNK_CAPACITY * (half - 1) + (n - 2) + chunks[n
            - 2].spec_used_bytes());
        assert(FIRST_CHUNK_CAPACITY * (half - 1) + FIRST_CHUNK_CAPACITY * half
            == FIRST_CHUNK_CAPACITY * (2 * half - 1)) by (nonlinear_arith);
    }
}

/// Growth is logarithmic in the bytes handed out. An arena whose chunks were
/// all sized by the growth policy, `n` of them, has more than
/// `FIRST_CHUNK_CAPACITY * (2^(n-1) - 1) / 2` bytes in use: each chunk has
/// twice the capacity of the one before, and none was left before a request
/// came that it could not hold. So `n` is at most one more than the binary
/// logarithm of `1 + 2 * used / FIRST_CHUNK_CAPACITY`.
pub proof fn lemma_growth_is_logarithmic(arena: ArenaView)
    requires
        arena.wf(),
        arena.follows_policy(),
        arena.chunks.len() >= 1,
    ensures
        FIRST_CHUNK_CAPACITY * (pow2((arena.chunks.len() - 1) as nat) - 1) + (arena.chunks.len()
            - 1) <= 2 * total_used(arena.chunks),
        FIRST_CHUNK_CAPACITY * pow2((arena.chunks.len() - 1) as nat) <= 2 * total_used(
            arena.chunks,
        ) + FIRST_CHUNK_CAPACITY,
{
    lemma_doubling_is_paid_for(arena.chunks);
    assert(arena.chunks.last().wf());
    let p = pow2((arena.chunks.len() - 1) as nat) as int;
    assert(FIRST_CHUNK_CAPACITY * (p - 1) == FIRST_CHUNK_CAPACITY * p - FIRST_CHUNK_CAPACITY)
        by (nonlinear_arith);
}

} // verus!

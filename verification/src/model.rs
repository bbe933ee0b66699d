//! Mathematical model of the block ring.
//!
//! The exec types in [`crate::ring`] and [`crate::driver`] state their
//! contracts as equalities against the transition functions here, so every
//! operation is pinned to one abstract step.  The proof functions at the
//! bottom are the laws of the driver: they hold of the model alone, and
//! through the contracts of every execution.

use vstd::prelude::*;
use crate::BLOCK_CAPACITY;
use crate::SLOT_COUNT;

verus! {

/// One block as the contracts see it: its bytes and its occupancy marker.
#[verifier::ext_equal]
pub struct BlockView {
    pub data: Seq<u8>,
    pub filled: bool,
}

/// The ring as the contracts see it: the blocks and the two cursors.
#[verifier::ext_equal]
pub struct RingView {
    pub blocks: Seq<BlockView>,
    pub write_cursor: int,
    pub read_cursor: int,
}

/// Structural well-formedness: full slot count, cursors in range, every
/// block at its fixed capacity.
pub open spec fn ring_wf(s: RingView) -> bool {
    &&& s.blocks.len() == SLOT_COUNT
    &&& 0 <= s.write_cursor < SLOT_COUNT
    &&& 0 <= s.read_cursor < SLOT_COUNT
    &&& forall|i: int|
        0 <= i < s.blocks.len() ==> (#[trigger] s.blocks[i]).data.len() == BLOCK_CAPACITY
}

/// The cursor position after one circular step.
pub open spec fn next_index(i: int) -> int {
    if i + 1 == SLOT_COUNT {
        0
    } else {
        i + 1
    }
}

/// The freshly constructed ring: zeroed blocks, nothing filled, both
/// cursors on block 0 (which the hardware is armed at).
pub open spec fn ring_init() -> RingView {
    RingView {
        blocks: Seq::new(
            SLOT_COUNT as nat,
            |i: int|
                BlockView { data: Seq::new(BLOCK_CAPACITY as nat, |j: int| 0u8), filled: false },
        ),
        write_cursor: 0,
        read_cursor: 0,
    }
}

/// The DMA engine lands a transfer's bytes in the block under the write
/// cursor.  Only the data changes; the marker is untouched.
pub open spec fn fill_step(s: RingView, bytes: Seq<u8>) -> RingView {
    RingView {
        blocks: s.blocks.update(
            s.write_cursor,
            BlockView { data: bytes, filled: s.blocks[s.write_cursor].filled },
        ),
        write_cursor: s.write_cursor,
        read_cursor: s.read_cursor,
    }
}

/// A completed transfer marks the block under the write cursor filled.
pub open spec fn mark_step(s: RingView) -> RingView {
    RingView {
        blocks: s.blocks.update(
            s.write_cursor,
            BlockView { data: s.blocks[s.write_cursor].data, filled: true },
        ),
        write_cursor: s.write_cursor,
        read_cursor: s.read_cursor,
    }
}

/// The block the write cursor would move onto.
pub open spec fn advance_target(s: RingView) -> int {
    next_index(s.write_cursor)
}

/// Advancing is allowed only onto a block the reader has drained; a filled
/// target is an overrun.
pub open spec fn advance_ok(s: RingView) -> bool {
    !s.blocks[advance_target(s)].filled
}

/// Rotating the write cursor; on overrun the state is left untouched so the
/// caller can choose its policy.
pub open spec fn advance_step(s: RingView) -> RingView {
    if advance_ok(s) {
        RingView {
            blocks: s.blocks,
            write_cursor: advance_target(s),
            read_cursor: s.read_cursor,
        }
    } else {
        s
    }
}

/// A block is ready for the consumer when the one under the read cursor is
/// filled.
pub open spec fn take_ready(s: RingView) -> bool {
    s.blocks[s.read_cursor].filled
}

/// The bytes the consumer receives from a draw.
pub open spec fn taken_data(s: RingView) -> Seq<u8> {
    s.blocks[s.read_cursor].data
}

/// Draining the oldest block: clear its marker, step the read cursor.  With
/// nothing ready the state is left exactly as it was.
pub open spec fn take_step(s: RingView) -> RingView {
    if take_ready(s) {
        RingView {
            blocks: s.blocks.update(
                s.read_cursor,
                BlockView { data: s.blocks[s.read_cursor].data, filled: false },
            ),
            write_cursor: s.write_cursor,
            read_cursor: next_index(s.read_cursor),
        }
    } else {
        s
    }
}

/// How many circular steps lead from `from` to `to`.
pub open spec fn circular_distance(from: int, to: int) -> int {
    if to >= from {
        to - from
    } else {
        to + SLOT_COUNT - from
    }
}

/// The filled blocks are exactly the `n` oldest, counted circularly from
/// the read cursor: a contiguous run starting there.
pub open spec fn filled_run(s: RingView, n: int) -> bool {
    forall|i: int|
        0 <= i < SLOT_COUNT ==> ((#[trigger] s.blocks[i]).filled <==> circular_distance(
            s.read_cursor,
            i,
        ) < n)
}

/// The ring invariant: `n` filled blocks form a contiguous circular run
/// starting at the read cursor, and the write cursor stands either at the
/// run's end (armed and empty), on the run's newest member (a transfer just
/// completed there), or one step behind the read cursor (the just-completed
/// block was drained before the next start event was believed).
pub open spec fn coherent_with(s: RingView, n: int) -> bool {
    &&& 0 <= n <= SLOT_COUNT
    &&& filled_run(s, n)
    &&& {
        let d = circular_distance(s.read_cursor, s.write_cursor);
        ||| d == n
        ||| n > 0 && d == n - 1
        ||| n == 0 && d == SLOT_COUNT - 1
    }
}

/// Some run size witnesses the invariant.
pub open spec fn coherent(s: RingView) -> bool {
    exists|n: int| coherent_with(s, n)
}

/// The freshly built ring is coherent: nothing filled, both cursors on
/// block 0.
pub proof fn lemma_init_coherent()
    ensures
        coherent_with(ring_init(), 0),
        coherent(ring_init()),
{
    assert(filled_run(ring_init(), 0));
    assert(coherent_with(ring_init(), 0));
}

/// A transfer landing its bytes moves no marker and no cursor, so the
/// invariant survives with the same run.
pub proof fn lemma_fill_preserves_coherence(s: RingView, bytes: Seq<u8>, n: int)
    requires
        ring_wf(s),
        coherent_with(s, n),
    ensures
        coherent_with(fill_step(s, bytes), n),
{
    let f = fill_step(s, bytes);
    assert forall|i: int| 0 <= i < SLOT_COUNT implies ((#[trigger] f.blocks[i]).filled
        <==> circular_distance(f.read_cursor, i) < n) by {
        assert(f.blocks[i].filled == s.blocks[i].filled);
    }
}

/// An end event arrives only for the armed block at the run's end, and
/// extends the run by one: the invariant survives with one more filled.
pub proof fn lemma_mark_preserves_coherence(s: RingView, n: int)
    requires
        ring_wf(s),
        coherent_with(s, n),
        circular_distance(s.read_cursor, s.write_cursor) == n,
    ensures
        coherent_with(mark_step(s), n + 1),
{
    let m = mark_step(s);
    assert(n <= SLOT_COUNT - 1);
    assert forall|i: int| 0 <= i < SLOT_COUNT implies ((#[trigger] m.blocks[i]).filled
        <==> circular_distance(m.read_cursor, i) < n + 1) by {
        if i == s.write_cursor {
            assert(m.blocks[i].filled);
        } else {
            assert(circular_distance(s.read_cursor, i) != n);
            assert(m.blocks[i].filled == s.blocks[i].filled);
        }
    }
}

/// A start event arrives only once the previous end was retired (or its
/// block drained), and is refused exactly when every block is filled; when
/// it is allowed, the write cursor lands at the run's end and the invariant
/// survives with the same run.
pub proof fn lemma_advance_preserves_coherence(s: RingView, n: int)
    requires
        ring_wf(s),
        coherent_with(s, n),
        circular_distance(s.read_cursor, s.write_cursor) != n,
    ensures
        advance_ok(s) <==> n < SLOT_COUNT,
        n < SLOT_COUNT ==> coherent_with(advance_step(s), n),
        n == SLOT_COUNT ==> advance_step(s) == s,
{
    let t = advance_target(s);
    let d = circular_distance(s.read_cursor, s.write_cursor);
    if n == 0 {
        assert(d == SLOT_COUNT - 1);
        assert(circular_distance(s.read_cursor, t) == 0);
    } else {
        assert(d == n - 1);
        if d == SLOT_COUNT - 1 {
            assert(circular_distance(s.read_cursor, t) == 0);
        } else {
            assert(circular_distance(s.read_cursor, t) == d + 1);
        }
    }
}

/// A drain takes the run's oldest block or reports that nothing is ready;
/// either way the invariant survives, with the run one shorter.
pub proof fn lemma_take_preserves_coherence(s: RingView, n: int)
    requires
        ring_wf(s),
        coherent_with(s, n),
    ensures
        take_ready(s) <==> n > 0,
        n > 0 ==> coherent_with(take_step(s), n - 1),
        n == 0 ==> take_step(s) == s,
{
    assert(circular_distance(s.read_cursor, s.read_cursor) == 0);
    if n > 0 {
        let t = take_step(s);
        assert(take_ready(s));
        assert forall|i: int| 0 <= i < SLOT_COUNT implies ((#[trigger] t.blocks[i]).filled
            <==> circular_distance(t.read_cursor, i) < n - 1) by {
            if i == s.read_cursor {
                assert(!t.blocks[i].filled);
                assert(circular_distance(t.read_cursor, i) == SLOT_COUNT - 1);
            } else {
                assert(t.blocks[i].filled == s.blocks[i].filled);
                assert(circular_distance(t.read_cursor, i) == circular_distance(
                    s.read_cursor,
                    i,
                ) - 1);
            }
        }
    }
}

/// The ring after `n` completed transfers with no intervening drain: each
/// transfer is its end event (mark) followed by the start of the next
/// (advance).
pub open spec fn after_transfers(n: nat) -> RingView
    decreases n,
{
    if n == 0 {
        ring_init()
    } else {
        advance_step(mark_step(after_transfers((n - 1) as nat)))
    }
}

/// Shape of the ring after `n` undrained completed transfers: the first `n`
/// blocks are filled, the write cursor sits on block `n`, the read cursor
/// has not moved.
pub proof fn lemma_after_transfers_shape(n: nat)
    requires
        n < SLOT_COUNT,
    ensures
        ring_wf(after_transfers(n)),
        after_transfers(n).read_cursor == 0,
        after_transfers(n).write_cursor == n,
        forall|i: int|
            0 <= i < SLOT_COUNT ==> ((#[trigger] after_transfers(n).blocks[i]).filled <==> i < n),
        coherent_with(after_transfers(n), n as int),
    decreases n,
{
    if n == 0 {
        assert(ring_wf(ring_init()));
        assert(filled_run(after_transfers(0), 0));
    } else {
        lemma_after_transfers_shape((n - 1) as nat);
        let prev = after_transfers((n - 1) as nat);
        let marked = mark_step(prev);
        assert(!marked.blocks[advance_target(marked)].filled);
    }
}

/// Law: the ring offers exactly `SLOT_COUNT - 1` blocks of headroom while
/// one block is always armed.  After that many completed transfers with no
/// drain, rotating the write cursor must report an overrun — whether or not
/// one more transfer has completed in the meantime — and the overrun leaves
/// the ring untouched.
pub proof fn lemma_overrun_after_headroom_exhausted()
    ensures
        !advance_ok(after_transfers((SLOT_COUNT - 1) as nat)),
        !advance_ok(mark_step(after_transfers((SLOT_COUNT - 1) as nat))),
        advance_step(after_transfers((SLOT_COUNT - 1) as nat)) == after_transfers(
            (SLOT_COUNT - 1) as nat,
        ),
{
    lemma_after_transfers_shape((SLOT_COUNT - 1) as nat);
}

/// Law: one completed transfer, then one draw.  The consumer receives
/// exactly the bytes the transfer delivered, and the drained block's marker
/// is clear immediately afterwards.
pub proof fn lemma_single_transfer_poll(bytes: Seq<u8>)
    requires
        bytes.len() == BLOCK_CAPACITY,
    ensures
        ({
            let s = advance_step(mark_step(fill_step(ring_init(), bytes)));
            &&& take_ready(s)
            &&& taken_data(s) == bytes
            &&& !take_step(s).blocks[0].filled
            &&& take_step(s).read_cursor == 1
        }),
{
}

/// Law: a draw with nothing ready reports so and moves nothing, so polling
/// again and again leaves the ring exactly as it stands.
pub proof fn lemma_poll_without_data_is_idempotent(s: RingView)
    requires
        !take_ready(s),
    ensures
        take_step(s) == s,
{
}

/// Law: an end event followed by the start of the next transfer marks the
/// previous write target before the cursor moves.  From the initial state,
/// block 0 is filled by the end event while the cursor still points at it;
/// the start event then moves the cursor to block 1 and leaves block 0
/// filled with its bytes undisturbed.
pub proof fn lemma_end_marks_before_start_advances(bytes: Seq<u8>)
    requires
        bytes.len() == BLOCK_CAPACITY,
    ensures
        ({
            let ended = mark_step(fill_step(ring_init(), bytes));
            let started = advance_step(ended);
            &&& ended.write_cursor == 0
            &&& ended.blocks[0].filled
            &&& started.write_cursor == 1
            &&& started.read_cursor == 0
            &&& started.blocks[0].filled
            &&& started.blocks[0].data == bytes
        }),
{
}

} // verus!

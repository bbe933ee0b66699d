//! The fixed arena of blocks and the circular cursors over it.
//!
//! Every operation's contract is an equality against one transition
//! function of [`crate::model`], so the exec ring moves in lockstep with
//! the abstract one the laws are proved about.

use vstd::prelude::*;
use crate::BLOCK_CAPACITY;
use crate::SLOT_COUNT;
use crate::model::BlockView;
use crate::model::RingView;
use crate::model::advance_ok;
use crate::model::advance_step;
use crate::model::advance_target;
use crate::model::fill_step;
use crate::model::mark_step;
use crate::model::next_index;
use crate::model::ring_init;
use crate::model::ring_wf;
use crate::model::take_ready;
use crate::model::take_step;
use crate::model::taken_data;
use crate::text::DecodeError;
use crate::text::Text;
use crate::text::is_valid_utf8;

verus! {

/// The write cursor was asked to move onto a block the reader has not
/// drained yet.  The ring reports it and stays put; the caller decides
/// between aborting and counting the loss.
#[derive(Debug, Clone, Copy, PartialEq, Eq, Structural)]
pub struct OverrunError;

/// One fixed-capacity byte buffer plus its occupancy marker.  All blocks
/// are allocated once when the ring is built and live for the life of the
/// driver; only the marker toggles.
pub struct Block {
    data: Vec<u8>,
    filled: bool,
}

impl View for Block {
    type V = BlockView;

    closed spec fn view(&self) -> BlockView {
        BlockView { data: self.data@, filled: self.filled }
    }
}

impl Block {
    /// The block holds exactly its fixed capacity of bytes.
    pub open spec fn wf(&self) -> bool {
        self@.data.len() == BLOCK_CAPACITY
    }

    /// A zeroed, unfilled block.
    pub fn new() -> (r: Block)
        ensures
            r.wf(),
            r@ == (BlockView { data: Seq::new(BLOCK_CAPACITY as nat, |j: int| 0u8), filled: false }),
    {
        let mut data: Vec<u8> = Vec::new();
        let mut j: usize = 0;
        while j < BLOCK_CAPACITY
            invariant
                j <= BLOCK_CAPACITY,
                data@.len() == j,
                forall|k: int| 0 <= k < j ==> data@[k] == 0u8,
            decreases BLOCK_CAPACITY - j,
        {
            data.push(0u8);
            j = j + 1;
        }
        let r = Block { data, filled: false };
        proof {
            assert(r@.data =~= Seq::new(BLOCK_CAPACITY as nat, |j: int| 0u8));
        }
        r
    }

    /// Observes the occupancy marker.
    pub fn is_filled(&self) -> (r: bool)
        ensures
            r == self@.filled,
    {
        self.filled
    }

    /// Decodes the whole block as text.  Succeeds exactly when all of its
    /// bytes — trailing padding included — are well-formed UTF-8, and then
    /// returns them unchanged.
    pub fn as_str(&self) -> (r: Result<Text, DecodeError>)
        ensures
            r is Ok <==> is_valid_utf8(self@.data),
            r matches Ok(t) ==> t@ == self@.data && t.wf(),
            r matches Err(e) ==> e == DecodeError::InvalidEncoding,
    {
        let mut copy: Vec<u8> = Vec::new();
        let mut j: usize = 0;
        let n = self.data.len();
        while j < n
            invariant
                j <= n,
                n == self.data@.len(),
                copy@ == self.data@.subrange(0, j as int),
            decreases n - j,
        {
            copy.push(self.data[j]);
            proof {
                assert(copy@ =~= self.data@.subrange(0, j + 1));
            }
            j = j + 1;
        }
        proof {
            assert(copy@ =~= self@.data);
        }
        Text::from_bytes(copy)
    }
}

/// The ring: a fixed sequence of blocks addressed circularly by the write
/// cursor (where the DMA engine lands bytes) and the read cursor (the
/// oldest block awaiting consumption).
pub struct Ring {
    blocks: Vec<Block>,
    write_cursor: usize,
    read_cursor: usize,
}

impl View for Ring {
    type V = RingView;

    closed spec fn view(&self) -> RingView {
        RingView {
            blocks: Seq::new(self.blocks@.len(), |i: int| self.blocks@[i]@),
            write_cursor: self.write_cursor as int,
            read_cursor: self.read_cursor as int,
        }
    }
}

impl Ring {
    /// See [`ring_wf`].
    pub open spec fn wf(&self) -> bool {
        ring_wf(self@)
    }

    /// Builds the ring in its initial state: all blocks zeroed and empty,
    /// both cursors on block 0.
    pub fn new() -> (r: Ring)
        ensures
            r.wf(),
            r@ == ring_init(),
    {
        let mut blocks: Vec<Block> = Vec::new();
        let mut k: usize = 0;
        while k < SLOT_COUNT
            invariant
                k <= SLOT_COUNT,
                blocks@.len() == k,
                forall|i: int|
                    0 <= i < k ==> (#[trigger] blocks@[i])@ == ring_init().blocks[i],
            decreases SLOT_COUNT - k,
        {
            let b = Block::new();
            proof {
                assert(b@ =~~= ring_init().blocks[k as int]);
            }
            blocks.push(b);
            k = k + 1;
        }
        let r = Ring { blocks, write_cursor: 0, read_cursor: 0 };
        proof {
            assert(r@ =~~= ring_init());
        }
        r
    }

    /// The index the DMA engine must be pointed at next, with the byte
    /// count it may write there.
    pub fn current_write_target(&self) -> (r: (usize, usize))
        requires
            self.wf(),
        ensures
            r.0 as int == self@.write_cursor,
            r.1 == BLOCK_CAPACITY,
    {
        (self.write_cursor, BLOCK_CAPACITY)
    }

    /// The DMA engine's write of one transfer into the block under the
    /// write cursor.
    pub fn fill_current_write(&mut self, bytes: &Vec<u8>)
        requires
            old(self).wf(),
            bytes@.len() == BLOCK_CAPACITY,
        ensures
            final(self).wf(),
            final(self)@ == fill_step(old(self)@, bytes@),
    {
        let mut data: Vec<u8> = Vec::new();
        let mut j: usize = 0;
        let n = bytes.len();
        while j < n
            invariant
                j <= n,
                n == bytes@.len(),
                data@ == bytes@.subrange(0, j as int),
            decreases n - j,
        {
            data.push(bytes[j]);
            proof {
                assert(data@ =~= bytes@.subrange(0, j + 1));
            }
            j = j + 1;
        }
        proof {
            assert(data@ =~= bytes@);
        }
        let wc = self.write_cursor;
        self.blocks[wc].data = data;
        proof {
            assert(self@ =~~= fill_step(old(self)@, bytes@));
        }
    }

    /// Marks the block under the write cursor filled: a transfer into it
    /// has completed and it now awaits consumption.
    pub fn mark_current_write_filled(&mut self)
        requires
            old(self).wf(),
        ensures
            final(self).wf(),
            final(self)@ == mark_step(old(self)@),
    {
        let wc = self.write_cursor;
        self.blocks[wc].filled = true;
        proof {
            assert(self@ =~~= mark_step(old(self)@));
        }
    }

    /// Rotates the write cursor one block onward so the next transfer can
    /// be armed there.  Refuses with [`OverrunError`], touching nothing,
    /// when the target block still awaits consumption: arming it anyway
    /// would let the hardware overwrite undrained data.
    pub fn advance_write(&mut self) -> (r: Result<(), OverrunError>)
        requires
            old(self).wf(),
        ensures
            final(self).wf(),
            final(self)@ == advance_step(old(self)@),
            r is Ok <==> advance_ok(old(self)@),
    {
        let t = if self.write_cursor + 1 == SLOT_COUNT {
            0
        } else {
            self.write_cursor + 1
        };
        proof {
            assert(t as int == advance_target(self@));
        }
        if self.blocks[t].filled {
            Err(OverrunError)
        } else {
            self.write_cursor = t;
            proof {
                assert(self@ =~~= advance_step(old(self)@));
            }
            Ok(())
        }
    }

    /// The sole consumption primitive: if the block under the read cursor
    /// is filled, clears its marker, advances the cursor, and returns a
    /// copy of the block; otherwise reports that nothing is ready and
    /// leaves the ring untouched.
    pub fn take_oldest(&mut self) -> (r: Option<Block>)
        requires
            old(self).wf(),
        ensures
            final(self).wf(),
            final(self)@ == take_step(old(self)@),
            r is Some <==> take_ready(old(self)@),
            r matches Some(b) ==> b@.data == taken_data(old(self)@) && !b@.filled && b.wf(),
    {
        let rc = self.read_cursor;
        if !self.blocks[rc].filled {
            return None;
        }
        let mut data: Vec<u8> = Vec::new();
        let mut j: usize = 0;
        let n = self.blocks[rc].data.len();
        while j < n
            invariant
                rc < self.blocks@.len(),
                j <= n,
                n == self.blocks@[rc as int].data@.len(),
                data@ == self.blocks@[rc as int].data@.subrange(0, j as int),
            decreases n - j,
        {
            let byte = self.blocks[rc].data[j];
            data.push(byte);
            proof {
                assert(data@ =~= self.blocks@[rc as int].data@.subrange(0, j + 1));
            }
            j = j + 1;
        }
        proof {
            assert(data@ =~= taken_data(old(self)@));
        }
        self.blocks[rc].filled = false;
        self.read_cursor = if rc + 1 == SLOT_COUNT {
            0
        } else {
            rc + 1
        };
        proof {
            assert(self.read_cursor as int == next_index(old(self)@.read_cursor));
            assert(self@ =~~= take_step(old(self)@));
        }
        Some(Block { data, filled: false })
    }
}

} // verus!

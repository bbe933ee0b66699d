//! The receive driver: the state the interrupt handler and the foreground
//! consumer share, and the decisions made for each hardware event.
//!
//! The hardware side — register writes, the DMA pointer, flushing, the
//! interrupt controller — stays with the caller.  The driver owns the ring,
//! turns each of the three event kinds into the right ring operation, and
//! tells the caller which action to perform: which block to arm next, or
//! that the receiver must be flushed.  Callers must hold exclusive access
//! to the one live driver (a critical section) around every call here, so
//! interrupt-context and foreground mutations never interleave.

use vstd::prelude::*;
use crate::BLOCK_CAPACITY;
use crate::model::RingView;
use crate::model::advance_ok;
use crate::model::advance_step;
use crate::model::advance_target;
use crate::model::fill_step;
use crate::model::mark_step;
use crate::model::ring_init;
use crate::model::ring_wf;
use crate::model::take_ready;
use crate::model::take_step;
use crate::model::taken_data;
use crate::ring::OverrunError;
use crate::ring::Ring;
use crate::text::DecodeError;
use crate::text::Text;
use crate::text::is_valid_utf8;

verus! {

/// What one interrupt invocation decided, in the fixed priority order:
/// a transfer end is retired before a transfer start is believed, and a
/// line error is looked at only when neither is pending.
#[derive(Debug, Clone, Copy, PartialEq, Eq, Structural)]
pub enum Dispatched {
    /// An end-of-transfer event was handled: the armed block is now filled.
    TransferEnded,
    /// A start-of-transfer event was handled: the caller must point the
    /// DMA engine at the block with this index.
    TransferStarted(usize),
    /// A start-of-transfer event found its target block undrained; the
    /// ring was left untouched.
    Overrun,
    /// A line error was handled: the caller must flush and resynchronise
    /// the receiver.  No block state is touched — the error is a line
    /// fault, not a verdict on the armed block's bytes.
    LineError,
    /// No event was pending.
    NoEvent,
}

/// The one live receive driver: the ring, behind the narrow three-event
/// interface of the interrupt handler plus the foreground drain.
pub struct Driver {
    ring: Ring,
}

impl View for Driver {
    type V = RingView;

    closed spec fn view(&self) -> RingView {
        self.ring@
    }
}

impl Driver {
    /// See [`ring_wf`].
    pub open spec fn wf(&self) -> bool {
        ring_wf(self@)
    }

    /// The driver right after one-time initialization: a fresh ring with
    /// block 0 armed.  The caller performs the hardware side exactly once —
    /// pins, baud rate, the restart shortcut, the three interrupt sources —
    /// and points the DMA engine at [`Self::current_write_target`].
    pub fn new() -> (r: Driver)
        ensures
            r.wf(),
            r@ == ring_init(),
    {
        Driver { ring: Ring::new() }
    }

    /// The block index the DMA engine must write to, and how many bytes it
    /// may put there.
    pub fn current_write_target(&self) -> (r: (usize, usize))
        requires
            self.wf(),
        ensures
            r.0 as int == self@.write_cursor,
            r.1 == BLOCK_CAPACITY,
    {
        self.ring.current_write_target()
    }

    /// The DMA engine's write: one transfer's bytes land in the armed
    /// block.  Stands in for the hardware's direct memory write.
    pub fn fill_current(&mut self, bytes: &Vec<u8>)
        requires
            old(self).wf(),
            bytes@.len() == BLOCK_CAPACITY,
        ensures
            final(self).wf(),
            final(self)@ == fill_step(old(self)@, bytes@),
    {
        self.ring.fill_current_write(bytes)
    }

    /// Hardware signalled that the transfer into the armed block has
    /// completed: the block is marked filled and awaits the consumer.
    pub fn on_transfer_ended(&mut self)
        requires
            old(self).wf(),
        ensures
            final(self).wf(),
            final(self)@ == mark_step(old(self)@),
    {
        self.ring.mark_current_write_filled()
    }

    /// Hardware signalled that it has begun writing into the armed block:
    /// the write cursor rotates onward and the caller must repoint the DMA
    /// engine at the returned block index — before the hardware is armed
    /// there, never after.  On overrun nothing moves; the caller chooses
    /// between aborting and recording the loss.
    pub fn on_transfer_started(&mut self) -> (r: Result<usize, OverrunError>)
        requires
            old(self).wf(),
        ensures
            final(self).wf(),
            final(self)@ == advance_step(old(self)@),
            r is Ok <==> advance_ok(old(self)@),
            r matches Ok(idx) ==> idx as int == advance_target(old(self)@),
    {
        match self.ring.advance_write() {
            Ok(()) => Ok(self.ring.current_write_target().0),
            Err(e) => Err(e),
        }
    }

    /// Hardware signalled a line error (framing, parity).  No block state
    /// changes; the caller must issue the flush-and-resynchronise command
    /// to the receiver.
    pub fn on_error(&self) -> (r: Dispatched)
        ensures
            r == Dispatched::LineError,
    {
        Dispatched::LineError
    }

    /// One interrupt invocation: given the three sticky event flags, handles
    /// exactly the highest-priority pending one — end of transfer before
    /// start of transfer before line error — and reports what it did, so the
    /// caller can clear exactly that flag and perform the returned action.
    pub fn dispatch(&mut self, transfer_ended: bool, transfer_started: bool, error: bool) -> (r:
        Dispatched)
        requires
            old(self).wf(),
        ensures
            final(self).wf(),
            transfer_ended ==> r == Dispatched::TransferEnded
                && final(self)@ == mark_step(old(self)@),
            !transfer_ended && transfer_started && advance_ok(old(self)@) ==> (r matches
                Dispatched::TransferStarted(idx) && idx as int == advance_target(old(self)@))
                && final(self)@ == advance_step(old(self)@),
            !transfer_ended && transfer_started && !advance_ok(old(self)@) ==> r
                == Dispatched::Overrun && final(self)@ == old(self)@,
            !transfer_ended && !transfer_started && error ==> r == Dispatched::LineError
                && final(self)@ == old(self)@,
            !transfer_ended && !transfer_started && !error ==> r == Dispatched::NoEvent
                && final(self)@ == old(self)@,
    {
        if transfer_ended {
            self.on_transfer_ended();
            Dispatched::TransferEnded
        } else if transfer_started {
            match self.on_transfer_started() {
                Ok(idx) => Dispatched::TransferStarted(idx),
                Err(OverrunError) => Dispatched::Overrun,
            }
        } else if error {
            self.on_error()
        } else {
            Dispatched::NoEvent
        }
    }

    /// The foreground drain: if the oldest block is filled, frees it for
    /// reuse and returns its decode — the text exactly when all its bytes
    /// are well-formed UTF-8 — and otherwise reports that nothing is ready,
    /// leaving the ring untouched.
    pub fn poll_next(&mut self) -> (r: Option<Result<Text, DecodeError>>)
        requires
            old(self).wf(),
        ensures
            final(self).wf(),
            final(self)@ == take_step(old(self)@),
            r is Some <==> take_ready(old(self)@),
            r matches Some(Ok(t)) ==> t@ == taken_data(old(self)@) && t.wf(),
            take_ready(old(self)@) ==> ((r matches Some(inner) && inner is Ok) <==> is_valid_utf8(
                taken_data(old(self)@),
            )),
            r matches Some(Err(e)) ==> e == DecodeError::InvalidEncoding,
    {
        match self.ring.take_oldest() {
            Some(b) => Some(b.as_str()),
            None => None,
        }
    }
}

} // verus!

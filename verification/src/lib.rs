//! Double-buffered serial receive core.
//!
//! A hardware DMA engine drops incoming serial bytes into fixed-size blocks
//! while an interrupt handler rotates a small ring of such blocks and a
//! foreground consumer drains completed blocks as text.  This crate holds the
//! verified heart of that driver: the block ring with its two cursors, the
//! event dispatch decisions of the interrupt handler, and the strict UTF-8
//! decode of drained blocks.  The hardware itself (registers, DMA pointers,
//! the interrupt controller) stays outside; callers feed the three event
//! kinds in and perform the returned actions.

use vstd::prelude::*;

pub mod driver;
pub mod model;
pub mod ring;
pub mod text;

verus! {

/// Capacity in bytes of one block: every DMA transfer delivers exactly this
/// many bytes, and decode validates exactly this many bytes.
pub const BLOCK_CAPACITY: usize = 5;

/// Number of blocks in the ring.  Must be at least 2 so that one block can
/// drain while another is being filled.
pub const SLOT_COUNT: usize = 3;

} // verus!

//! A non-blocking, DMA-driven SPI master and the ownership hand-off
//! primitive that its queue entries are built on.
//!
//! - [`future_box`]: control blocks and the exclusive and pending handles
//!   that pass a payload between the kernel and userspace.
//! - [`queue`]: the bounded queues, kept in `heapless::Deque`.
//! - [`dma`]: clock banding, buffer placement checks, and how blocking
//!   transfers are cut into engine-sized pieces.
//! - [`spim`]: the queue and state machine that decides which transfer
//!   goes on the wire next.
use vstd::prelude::*;

pub mod future_box;
pub mod queue;
pub mod dma;
pub mod spim;

verus! {

} // verus!

//! Communication primitives for processes that share memory.
//!
//! The heart of the crate is a single-producer single-consumer ring buffer
//! over a fixed byte layout: one machine word of shared occupancy count on
//! its own cache line, followed by a densely packed array of fixed-size
//! elements.  The `ringbuf` module holds the protocol itself; `mem` wraps
//! the sealing of anonymous memory files, and `sharedring` holds the
//! sizing and signalling rules used when a ring is handed to another
//! process.

use vstd::prelude::*;

pub mod mem;

pub mod ringbuf;

pub mod sharedring;

verus! {

/// Crate-wide error: either a failure of the ring protocol itself, or a
/// failure reported by the kernel primitives underneath it.
#[derive(Debug)]
pub enum Error {
    /// A failure while creating or sealing a memory file.
    Memfd(memfd::Error),
    /// A failure of descriptor, mapping or signal input/output.
    Io(std::io::Error),
    /// A failure of the ring protocol.
    Ringbuf(ringbuf::Error),
}

} // verus!

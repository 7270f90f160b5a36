//! Sizing, validation and signalling rules for rings shared with an
//! untrusted peer process.
//!
//! A shared ring travels between processes as a capacity plus three
//! descriptors: the memory file and two event counters, one to wake a
//! blocked consumer (the empty signal) and one to wake a blocked producer
//! (the full signal).  This module holds the rules both sides must agree
//! on: how the storage size is derived from the capacity, what an attach
//! must validate, when to block, and what to write to a counter.

use vstd::prelude::*;

verus! {

use vstd::layout::size_of;
use crate::ringbuf::{Error, Status, spec_bufsize, CACHE_LINE_SIZE};

/// The 8-byte token written to an event counter to wake the peer.  Any
/// non-zero value works; the counter accumulates tokens and hands the sum
/// to the next blocking read.
pub const SIGNAL_TOKEN: u64 = 1;

/// Bytes of backing storage for a ring of `capacity` elements of type
/// `T`: the header plus the element array, rounded up to a multiple of
/// the page size so the mapping covers whole pages.
pub fn round_to_page_size<T>(capacity: usize, page_size: usize) -> (r: usize)
    requires
        page_size > 0,
        spec_bufsize(size_of::<T>(), capacity as nat) + page_size <= usize::MAX,
    ensures
        ({
            let b = spec_bufsize(size_of::<T>(), capacity as nat);
            &&& b <= r < b + page_size
            &&& r as int % page_size as int == 0
        }),
{
    let bytes = crate::ringbuf::channel_bufsize::<T>(capacity);
    let m = bytes % page_size;
    if m == 0 {
        bytes
    } else {
        proof {
            vstd::arithmetic::div_mod::lemma_fundamental_div_mod(
                bytes as int,
                page_size as int,
            );
            let q = bytes as int / page_size as int;
            assert((bytes + (page_size - m)) as int == (q + 1) * page_size) by (nonlinear_arith)
                requires
                    bytes as int == page_size * q + m as int,
            ;
            vstd::arithmetic::div_mod::lemma_mod_multiples_basic(q + 1, page_size as int);
        }
        bytes + (page_size - m)
    }
}

/// Attach-time validation: the mapped region must hold at least the bytes
/// the agreed capacity requires.
pub fn open_check(mapped_len: usize, needed: usize) -> (r: Result<(), Error>)
    ensures
        r == if mapped_len < needed {
            Err::<(), Error>(Error::BufTooSmall)
        } else {
            Ok::<(), Error>(())
        },
{
    if mapped_len < needed {
        Err(Error::BufTooSmall)
    } else {
        Ok(())
    }
}

/// One step of a blocking wait: with items available the wait is over and
/// the caller is handed the status; with none, the caller should block on
/// its wake-up counter and ask again.  The token a read returns carries no
/// information — the ring itself is the source of truth.
pub fn block_check(available: usize) -> (r: Option<Status>)
    ensures
        r == if available > 0 {
            Some((Status { remaining: available, signal: false }))
        } else {
            None::<Status>
        },
{
    if available > 0 {
        Some(Status { remaining: available, signal: false })
    } else {
        None
    }
}

} // verus!

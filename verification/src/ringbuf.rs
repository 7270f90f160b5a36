//! A lock-free single-producer single-consumer ring buffer protocol.
//!
//! The shared layout is one machine-word occupancy count on its own cache
//! line, followed by a densely packed array of elements.  Each side keeps a
//! private index; the count is the only shared mutable word.  This module
//! verifies the protocol itself over owned storage, where one value plays
//! both roles: the window computation, the index and count updates, and
//! the status returned by each operation.  The same steps are exposed as
//! free functions — [`load_count`], [`send_window`], [`advance_index`] and
//! their receive-side duals — for a ring whose storage is a raw shared
//! mapping rather than owned memory.

use vstd::prelude::*;

verus! {

use vstd::layout::size_of;

/// Errors of the ring buffer protocol.
#[derive(Clone, Copy, Debug, PartialEq, Eq, Structural)]
pub enum Error {
    /// The buffer is shorter than the header plus one element.
    BufTooSmall,
    /// The buffer length would overflow signed pointer arithmetic.
    BufTooBig,
    /// The count or data offsets do not meet alignment requirements.
    BufUnaligned,
    /// The shared count was outside `[0, capacity]`.
    BufCorrupt,
    /// A callback returned more items than its readable window held.
    CallbackReadTooMuch,
    /// A callback returned more items than its writable window held.
    CallbackWroteTooMuch,
}

/// Result of a send or receive operation.
#[derive(Clone, Copy, Debug, PartialEq, Eq, Structural)]
pub struct Status {
    /// Number of remaining items that can be immediately read/written.
    pub remaining: usize,
    /// True if the remote side should be signalled to wake up.
    pub signal: bool,
}

/// The header before the element array: one cache line holding the count.
pub const CACHE_LINE_SIZE: usize = 64;

/// The byte length needed for a ring of `capacity` elements of `elem_size`
/// bytes each.
pub open spec fn spec_bufsize(elem_size: nat, capacity: nat) -> nat {
    capacity * elem_size + CACHE_LINE_SIZE as nat
}

/// The element capacity of a buffer of `length` bytes.
pub open spec fn spec_capacity_of(elem_size: nat, length: nat) -> nat
    recommends
        elem_size > 0,
        length >= CACHE_LINE_SIZE,
{
    (length - CACHE_LINE_SIZE) as nat / elem_size
}

/// Use this utility function to figure out how big a buffer to allocate for
/// a ring of `capacity` elements of type `T`.
pub fn channel_bufsize<T>(capacity: usize) -> (r: usize)
    requires
        capacity * size_of::<T>() + CACHE_LINE_SIZE <= usize::MAX,
    ensures
        r == spec_bufsize(size_of::<T>(), capacity as nat),
{
    capacity * core::mem::size_of::<T>() + CACHE_LINE_SIZE
}

/// Layout acceptance: decides whether a buffer of `length` bytes can hold a
/// ring of elements of `elem_size` bytes, and if so, how many elements.
///
/// A buffer shorter than the header plus one element is refused as
/// `BufTooSmall`; one whose length does not fit signed pointer arithmetic is
/// refused as `BufTooBig`.
pub fn attach_check(length: usize, elem_size: usize) -> (r: Result<usize, Error>)
    requires
        elem_size > 0,
    ensures
        match r {
            Ok(cap) => {
                &&& CACHE_LINE_SIZE + elem_size <= length
                &&& length < isize::MAX as usize
                &&& cap == spec_capacity_of(elem_size as nat, length as nat)
                &&& cap >= 1
            },
            Err(e) => match e {
                Error::BufTooSmall => length < CACHE_LINE_SIZE + elem_size,
                Error::BufTooBig => {
                    &&& length >= CACHE_LINE_SIZE + elem_size
                    &&& length >= isize::MAX as usize
                },
                _ => false,
            },
        },
{
    if length < CACHE_LINE_SIZE || length - CACHE_LINE_SIZE < elem_size {
        return Err(Error::BufTooSmall);
    }
    if length >= (isize::MAX as usize) {
        return Err(Error::BufTooBig);
    }
    let cap = (length - CACHE_LINE_SIZE) / elem_size;
    proof {
        vstd::arithmetic::div_mod::lemma_div_non_zero((length - CACHE_LINE_SIZE) as int, elem_size as int);
    }
    Ok(cap)
}

/// Validation of a count loaded from the shared word: a value above the
/// element capacity can only come from a misbehaving peer or a torn
/// write, and is refused as `BufCorrupt`.
pub fn load_count(count: usize, length: usize) -> (r: Result<usize, Error>)
    ensures
        count <= length ==> r == Ok::<usize, Error>(count),
        count > length ==> r == Err::<usize, Error>(Error::BufCorrupt),
{
    if count > length {
        Err(Error::BufCorrupt)
    } else {
        Ok(count)
    }
}

/// Validation of a layout offset: the shared count and the data array
/// must each sit at an address their type can live at.
pub fn alignment_check(addr: usize, align: usize) -> (r: Result<(), Error>)
    requires
        align > 0,
    ensures
        r == if addr % align == 0 {
            Ok::<(), Error>(())
        } else {
            Err::<(), Error>(Error::BufUnaligned)
        },
{
    if addr % align == 0 {
        Ok(())
    } else {
        Err(Error::BufUnaligned)
    }
}

/// The length of the producer's contiguous writable window in a ring of
/// `length` slots holding `count` elements, producer at `index`.
pub fn send_window(index: usize, count: usize, length: usize) -> (w: usize)
    requires
        index < length,
        count <= length,
    ensures
        w == spec_send_window(length as nat, count as nat, index as nat),
{
    let a = length - index;
    let b = length - count;
    if a <= b {
        a
    } else {
        b
    }
}

/// The length of the consumer's contiguous readable window in a ring of
/// `length` slots holding `count` elements, consumer at `index`.
pub fn recv_window(index: usize, count: usize, length: usize) -> (w: usize)
    requires
        index < length,
        count <= length,
    ensures
        w == spec_recv_window(length as nat, count as nat, index as nat),
{
    let c = length - index;
    if count <= c {
        count
    } else {
        c
    }
}

/// A private index advanced by `n` slots, wrapping at the capacity.  A
/// single operation advances by at most one contiguous window, so the
/// index wraps at most to zero.
pub fn advance_index(index: usize, n: usize, length: usize) -> (r: usize)
    requires
        index < length,
        index + n <= length,
    ensures
        r == if index + n < length {
            index + n as int
        } else {
            0
        },
{
    let t = index + n;
    if t < length {
        t
    } else {
        0
    }
}

/// Refuse a send callback's reply that exceeds its window.
pub fn send_commit_check(n: usize, window: usize) -> (r: Result<(), Error>)
    ensures
        r == if n > window {
            Err::<(), Error>(Error::CallbackWroteTooMuch)
        } else {
            Ok::<(), Error>(())
        },
{
    if n > window {
        Err(Error::CallbackWroteTooMuch)
    } else {
        Ok(())
    }
}

/// Refuse a receive callback's reply that exceeds its window.
pub fn recv_commit_check(n: usize, window: usize) -> (r: Result<(), Error>)
    ensures
        r == if n > window {
            Err::<(), Error>(Error::CallbackReadTooMuch)
        } else {
            Ok::<(), Error>(())
        },
{
    if n > window {
        Err(Error::CallbackReadTooMuch)
    } else {
        Ok(())
    }
}

/// The status a send returns after committing `n` elements to a ring of
/// `length` slots that held `count_before`: how many more can be written
/// at once, and whether the ring just went from empty to non-empty.
pub fn send_status(count_before: usize, n: usize, length: usize) -> (st: Status)
    requires
        count_before + n <= length,
    ensures
        st.remaining == length - count_before - n,
        st.signal == (count_before == 0 && n > 0),
{
    Status { remaining: length - count_before - n, signal: count_before == 0 && n > 0 }
}

/// The status a receive returns after dropping `n` elements from a ring
/// of `length` slots that held `count_before`: how many more can be read
/// at once, and whether the ring just went from full to non-full.
pub fn recv_status(count_before: usize, n: usize, length: usize) -> (st: Status)
    requires
        n <= count_before,
    ensures
        st.remaining == count_before - n,
        st.signal == (count_before >= length && n > 0),
{
    Status { remaining: count_before - n, signal: count_before >= length && n > 0 }
}

/// First in, first out, nothing lost and nothing duplicated: a receive
/// hands over the first `n` queued elements and a matching drop keeps
/// exactly the rest, so together they account for the whole queue.
pub proof fn lemma_fifo_partition<T>(q: Seq<T>, n: int)
    requires
        0 <= n <= q.len(),
    ensures
        q.take(n) + q.skip(n) == q,
{
    assert(q.take(n) + q.skip(n) =~= q);
}

/// Round trip: elements appended to a queue and read back after the
/// elements before them are drained come back exactly as they were
/// written.
pub proof fn lemma_round_trip<T>(q: Seq<T>, v: Seq<T>)
    ensures
        (q + v).skip(q.len() as int) == v,
        (q + v).take(q.len() as int) == q,
{
    assert((q + v).skip(q.len() as int) =~= v);
    assert((q + v).take(q.len() as int) =~= q);
}

/// Minimum of two mathematical integers.
pub open spec fn spec_min(a: int, b: int) -> int {
    if a <= b {
        a
    } else {
        b
    }
}

/// Length of the contiguous writable window of a ring with `cap` slots,
/// `count` of them filled, whose producer stands at `pidx`.
pub open spec fn spec_send_window(cap: nat, count: nat, pidx: nat) -> int
    recommends
        count <= cap,
        pidx < cap,
{
    spec_min(cap - pidx, cap - count)
}

/// Length of the contiguous readable window of a ring with `cap` slots,
/// `count` of them filled, whose consumer stands at `cidx`.
pub open spec fn spec_recv_window(cap: nat, count: nat, cidx: nat) -> int
    recommends
        count <= cap,
        cidx < cap,
{
    spec_min(count as int, cap - cidx)
}

/// A single-producer single-consumer ring buffer over owned storage.
///
/// The abstract value (the view) is the sequence of queued elements, oldest
/// first.  The producer owns `send_index`, the consumer owns `recv_index`,
/// and `count` is the occupancy word that the two sides share in the
/// cross-process layout.
pub struct RingBuffer<T> {
    data: Vec<T>,
    count: usize,
    send_index: usize,
    recv_index: usize,
}

impl<T> View for RingBuffer<T> {
    type V = Seq<T>;

    closed spec fn view(&self) -> Seq<T> {
        Seq::new(self.count as nat, |i: int| self.data@[self.slot(i)])
    }
}

impl<T> RingBuffer<T> {
    /// The storage position of the `i`-th queued element.
    closed spec fn slot(&self, i: int) -> int {
        if self.recv_index + i < self.data@.len() {
            self.recv_index + i
        } else {
            self.recv_index + i - self.data@.len()
        }
    }

    /// Number of element slots in the ring.
    pub closed spec fn capacity(&self) -> nat {
        self.data@.len()
    }

    /// Where the producer's next contiguous window begins.
    pub closed spec fn producer_index(&self) -> nat {
        self.send_index as nat
    }

    /// Where the consumer's next contiguous window begins.
    pub closed spec fn consumer_index(&self) -> nat {
        self.recv_index as nat
    }

    /// Well-formedness: the occupancy stays within `[0, capacity]`, both
    /// private indices stay within the storage, and the producer index is
    /// the consumer index advanced by the occupancy, modulo the capacity.
    pub closed spec fn wf(&self) -> bool {
        let l = self.data@.len() as int;
        let r = self.recv_index as int;
        let c = self.count as int;
        let s = self.send_index as int;
        &&& 1 <= l
        &&& l < isize::MAX as int
        &&& c <= l
        &&& s < l
        &&& r < l
        &&& s == if r + c < l {
            r + c
        } else {
            r + c - l
        }
    }

    /// The ring's occupancy is its view's length, and never exceeds the
    /// capacity.
    pub proof fn lemma_occupancy(&self)
        requires
            self.wf(),
        ensures
            self@.len() <= self.capacity(),
    {
    }
}

impl<T: Copy> RingBuffer<T> {
    /// A fresh ring of `cap` slots, `count` of them filled with `fill`.
    fn ring_with(cap: usize, fill: T, count: usize) -> (rb: Self)
        requires
            1 <= cap < isize::MAX as usize,
            count <= cap,
        ensures
            rb.wf(),
            rb.capacity() == cap,
            rb@ == Seq::new(count as nat, |i: int| fill),
            rb.consumer_index() == 0,
            rb.producer_index() == if count < cap {
                count as int
            } else {
                0
            },
    {
        let mut data: Vec<T> = Vec::new();
        let mut i: usize = 0;
        while i < cap
            invariant
                i <= cap,
                data@.len() == i,
                forall|k: int| 0 <= k < i ==> data@[k] == fill,
            decreases cap - i,
        {
            data.push(fill);
            i += 1;
        }
        let send_index = if count < cap {
            count
        } else {
            0
        };
        let rb = RingBuffer { data, count, send_index, recv_index: 0 };
        proof {
            assert(rb@ =~= Seq::new(count as nat, |i: int| fill));
        }
        rb
    }

    /// Attach a ring over a buffer of `length` bytes whose shared count
    /// reads `count`, modelling each already-queued element as `fill`.
    ///
    /// The layout is accepted as in [`attach_check`]; on top of that, a
    /// stored count larger than the capacity is refused as `BufCorrupt`.
    pub fn attach(length: usize, fill: T, count: usize) -> (r: Result<Self, Error>)
        requires
            0 < size_of::<T>(),
        ensures
            match r {
                Ok(rb) => {
                    &&& CACHE_LINE_SIZE + size_of::<T>() <= length
                    &&& length < isize::MAX as usize
                    &&& rb.wf()
                    &&& rb.capacity() == spec_capacity_of(size_of::<T>(), length as nat)
                    &&& count <= rb.capacity()
                    &&& rb@ == Seq::new(count as nat, |i: int| fill)
                    &&& rb.consumer_index() == 0
                },
                Err(e) => match e {
                    Error::BufTooSmall => length < CACHE_LINE_SIZE + size_of::<T>(),
                    Error::BufTooBig => {
                        &&& length >= CACHE_LINE_SIZE + size_of::<T>()
                        &&& length >= isize::MAX as usize
                    },
                    Error::BufCorrupt => {
                        &&& CACHE_LINE_SIZE + size_of::<T>() <= length
                        &&& length < isize::MAX as usize
                        &&& count > spec_capacity_of(size_of::<T>(), length as nat)
                    },
                    _ => false,
                },
            },
    {
        let cap = match attach_check(length, core::mem::size_of::<T>()) {
            Ok(cap) => cap,
            Err(e) => {
                return Err(e);
            },
        };
        if count > cap {
            return Err(Error::BufCorrupt);
        }
        Ok(Self::ring_with(cap, fill, count))
    }

    /// Initializes an empty ring buffer over a buffer of `length` bytes.
    pub fn channel(length: usize, fill: T) -> (rb: Self)
        requires
            0 < size_of::<T>(),
            CACHE_LINE_SIZE + size_of::<T>() <= length,
            length < isize::MAX as usize,
        ensures
            rb.wf(),
            rb@ == Seq::<T>::empty(),
            rb.capacity() == spec_capacity_of(size_of::<T>(), length as nat),
            rb.consumer_index() == 0,
            rb.producer_index() == 0,
    {
        let cap = (length - CACHE_LINE_SIZE) / core::mem::size_of::<T>();
        proof {
            vstd::arithmetic::div_mod::lemma_div_non_zero(
                (length - CACHE_LINE_SIZE) as int,
                size_of::<T>() as int,
            );
            assert(Seq::new(0nat, |i: int| fill) =~= Seq::<T>::empty());
        }
        Self::ring_with(cap, fill, 0)
    }

    /// Returns the number of items that can be read.
    pub fn read_count(&self) -> (r: Result<usize, Error>)
        requires
            self.wf(),
        ensures
            r == Ok::<usize, Error>(self@.len() as usize),
    {
        Ok(self.count)
    }

    /// Append the elements of `v` to the queue; they must fit in the
    /// producer's contiguous window.
    fn write_slots(&mut self, v: &Vec<T>)
        requires
            old(self).wf(),
            v@.len() <= spec_send_window(
                old(self).capacity(),
                old(self)@.len(),
                old(self).producer_index(),
            ),
        ensures
            final(self).wf(),
            final(self).capacity() == old(self).capacity(),
            final(self).consumer_index() == old(self).consumer_index(),
            final(self)@ == old(self)@ + v@,
            final(self).producer_index() == if old(self).producer_index() + v@.len()
                < old(self).capacity() {
                old(self).producer_index() + v@.len() as int
            } else {
                old(self).producer_index() + v@.len() - old(self).capacity()
            },
    {
        let n = v.len();
        let s = self.send_index;
        let mut j: usize = 0;
        while j < n
            invariant
                old(self).wf(),
                j <= n,
                n == v@.len(),
                s == old(self).send_index,
                n <= spec_send_window(
                    old(self).capacity(),
                    old(self)@.len(),
                    old(self).producer_index(),
                ),
                self.count == old(self).count,
                self.send_index == old(self).send_index,
                self.recv_index == old(self).recv_index,
                self.data@.len() == old(self).data@.len(),
                forall|k: int|
                    0 <= k < self.data@.len() && !(s <= k < s + j) ==> self.data@[k] == old(
                        self,
                    ).data@[k],
                forall|k: int| 0 <= k < j ==> self.data@[s + k] == v@[k],
            decreases n - j,
        {
            let idx = s + j;
            self.data.set(idx, v[j]);
            j += 1;
        }
        self.count = self.count + n;
        self.send_index = if s + n < self.data.len() {
            s + n
        } else {
            s + n - self.data.len()
        };
        proof {
            assert(final(self)@ =~= old(self)@ + v@);
        }
    }

    /// Copy out the consumer's contiguous window: the longest readable
    /// prefix of the queue that does not wrap.
    fn peek_window(&self) -> (win: Vec<T>)
        requires
            self.wf(),
        ensures
            win@ == self@.take(
                spec_recv_window(self.capacity(), self@.len(), self.consumer_index()),
            ),
    {
        let r = self.recv_index;
        let l = self.data.len();
        let w = if self.count <= l - r {
            self.count
        } else {
            l - r
        };
        let mut win: Vec<T> = Vec::new();
        let mut j: usize = 0;
        while j < w
            invariant
                self.wf(),
                j <= w,
                r == self.recv_index,
                l == self.data@.len(),
                w == spec_recv_window(self.capacity(), self@.len(), self.consumer_index()),
                win@.len() == j,
                forall|k: int| 0 <= k < j ==> win@[k] == self@[k],
            decreases w - j,
        {
            win.push(self.data[r + j]);
            j += 1;
        }
        proof {
            assert(win@ =~= self@.take(
                spec_recv_window(self.capacity(), self@.len(), self.consumer_index()),
            ));
        }
        win
    }

    /// Drop the first `n` elements of the queue; they must lie in the
    /// consumer's contiguous window.
    fn drop_slots(&mut self, n: usize)
        requires
            old(self).wf(),
            n <= spec_recv_window(
                old(self).capacity(),
                old(self)@.len(),
                old(self).consumer_index(),
            ),
        ensures
            final(self).wf(),
            final(self).capacity() == old(self).capacity(),
            final(self).producer_index() == old(self).producer_index(),
            final(self)@ == old(self)@.skip(n as int),
            final(self).consumer_index() == if old(self).consumer_index() + n < old(
                self,
            ).capacity() {
                old(self).consumer_index() + n as int
            } else {
                old(self).consumer_index() + n - old(self).capacity()
            },
    {
        let l = self.data.len();
        self.count = self.count - n;
        self.recv_index = if self.recv_index + n < l {
            self.recv_index + n
        } else {
            self.recv_index + n - l
        };
        proof {
            assert(final(self)@ =~= old(self)@.skip(n as int));
        }
    }

    /// Lowest level send.
    ///
    /// The callback receives the length of the producer's contiguous
    /// writable window and returns the elements actually written, at most
    /// that many.  If the ring is full the callback is not invoked and
    /// nothing changes.  A callback that returns more elements than its
    /// window fails the send with `CallbackWroteTooMuch` and leaves the
    /// ring unchanged.  The status signals exactly when the ring went from
    /// empty to non-empty.  Since this is a ring buffer, there may be room
    /// for more elements even if the window is filled completely; the
    /// status's `remaining` field says how many.
    pub fn send<F: FnOnce(usize) -> Vec<T>>(&mut self, f: F) -> (r: Result<Status, Error>)
        requires
            old(self).wf(),
            spec_send_window(
                old(self).capacity(),
                old(self)@.len(),
                old(self).producer_index(),
            ) > 0 ==> call_requires(
                f,
                (
                    spec_send_window(
                        old(self).capacity(),
                        old(self)@.len(),
                        old(self).producer_index(),
                    ) as usize,
                ),
            ),
        ensures
            final(self).wf(),
            final(self).capacity() == old(self).capacity(),
            final(self).consumer_index() == old(self).consumer_index(),
            ({
                let w = spec_send_window(
                    old(self).capacity(),
                    old(self)@.len(),
                    old(self).producer_index(),
                );
                match r {
                    Ok(st) => {
                        &&& (w == 0 ==> {
                            &&& *final(self) == *old(self)
                            &&& st.remaining == old(self).capacity() - old(self)@.len()
                            &&& st.signal == false
                        })
                        &&& (w > 0 ==> exists|v: Vec<T>|
                            {
                                &&& #[trigger] call_ensures(f, (w as usize,), v)
                                &&& v@.len() <= w
                                &&& final(self)@ == old(self)@ + v@
                                &&& final(self).producer_index() == if old(
                                    self,
                                ).producer_index() + v@.len() < old(self).capacity() {
                                    old(self).producer_index() + v@.len() as int
                                } else {
                                    old(self).producer_index() + v@.len() - old(self).capacity()
                                }
                                &&& st.remaining == old(self).capacity() - old(self)@.len()
                                    - v@.len()
                                &&& st.signal == (old(self)@.len() == 0 && v@.len() > 0)
                            })
                    },
                    Err(e) => {
                        &&& e == Error::CallbackWroteTooMuch
                        &&& *final(self) == *old(self)
                        &&& exists|v: Vec<T>|
                            #[trigger] call_ensures(f, (w as usize,), v) && v@.len() > w
                    },
                }
            }),
    {
        let l = self.data.len();
        let cb = self.count;
        let a = l - self.send_index;
        let b = l - cb;
        let w = if a <= b {
            a
        } else {
            b
        };
        if w == 0 {
            return Ok(Status { remaining: l - cb, signal: false });
        }
        let v = f(w);
        if v.len() > w {
            return Err(Error::CallbackWroteTooMuch);
        }
        let n = v.len();
        self.write_slots(&v);
        Ok(Status { remaining: l - cb - n, signal: cb == 0 && n > 0 })
    }

    /// Lowest level receive.
    ///
    /// The callback receives a copy of the consumer's contiguous readable
    /// window and returns how many of those elements to drop from the
    /// ring; returning fewer than it saw peeks at the rest.  If the ring
    /// is empty the callback is not invoked and nothing changes.  A
    /// callback that returns more than its window held fails the receive
    /// with `CallbackReadTooMuch` and leaves the ring unchanged.  The
    /// status signals exactly when the ring went from full to non-full.
    pub fn recv<F: FnOnce(Vec<T>) -> usize>(&mut self, f: F) -> (r: Result<Status, Error>)
        requires
            old(self).wf(),
            spec_recv_window(
                old(self).capacity(),
                old(self)@.len(),
                old(self).consumer_index(),
            ) > 0 ==> forall|v: Vec<T>|
                v@ == old(self)@.take(
                    spec_recv_window(
                        old(self).capacity(),
                        old(self)@.len(),
                        old(self).consumer_index(),
                    ),
                ) ==> call_requires(f, (v,)),
        ensures
            final(self).wf(),
            final(self).capacity() == old(self).capacity(),
            final(self).producer_index() == old(self).producer_index(),
            ({
                let w = spec_recv_window(
                    old(self).capacity(),
                    old(self)@.len(),
                    old(self).consumer_index(),
                );
                match r {
                    Ok(st) => {
                        &&& (w == 0 ==> {
                            &&& *final(self) == *old(self)
                            &&& st == (Status { remaining: 0, signal: false })
                        })
                        &&& (w > 0 ==> exists|v: Vec<T>, n: usize|
                            {
                                &&& v@ == old(self)@.take(w)
                                &&& #[trigger] call_ensures(f, (v,), n)
                                &&& n <= w
                                &&& final(self)@ == old(self)@.skip(n as int)
                                &&& final(self).consumer_index() == if old(
                                    self,
                                ).consumer_index() + n < old(self).capacity() {
                                    old(self).consumer_index() + n as int
                                } else {
                                    old(self).consumer_index() + n - old(self).capacity()
                                }
                                &&& st.remaining == old(self)@.len() - n
                                &&& st.signal == (old(self)@.len() == old(self).capacity() && n
                                    > 0)
                            })
                    },
                    Err(e) => {
                        &&& e == Error::CallbackReadTooMuch
                        &&& *final(self) == *old(self)
                        &&& exists|v: Vec<T>, n: usize|
                            {
                                &&& v@ == old(self)@.take(w)
                                &&& #[trigger] call_ensures(f, (v,), n)
                                &&& n > w
                            }
                    },
                }
            }),
    {
        let l = self.data.len();
        let cb = self.count;
        let c = l - self.recv_index;
        let w = if cb <= c {
            cb
        } else {
            c
        };
        if w == 0 {
            return Ok(Status { remaining: 0, signal: false });
        }
        let win = self.peek_window();
        let n = f(win);
        if n > w {
            return Err(Error::CallbackReadTooMuch);
        }
        self.drop_slots(n);
        Ok(Status { remaining: cb - n, signal: cb >= l && n > 0 })
    }

    /// Bulk send: invokes the producer callback up to `count` times, one
    /// element per call, filling window after window until the ring is
    /// full or `count` elements have been written.
    ///
    /// Returns the status of the last underlying send, so the signal is
    /// that send's edge transition.
    pub fn send_foreach<F: FnMut() -> T>(&mut self, count: usize, f: F) -> (st: Status)
        requires
            old(self).wf(),
            call_requires(f, ()),
        ensures
            final(self).wf(),
            final(self).capacity() == old(self).capacity(),
            final(self).consumer_index() == old(self).consumer_index(),
            ({
                let k = spec_min(count as int, old(self).capacity() - old(self)@.len());
                &&& final(self)@.len() == old(self)@.len() + k
                &&& final(self)@.take(old(self)@.len() as int) == old(self)@
                &&& forall|i: int|
                    old(self)@.len() <= i < final(self)@.len() ==> call_ensures(
                        f,
                        (),
                        #[trigger] final(self)@[i],
                    )
                &&& final(self).producer_index() == if old(self).producer_index() + k < old(
                    self,
                ).capacity() {
                    old(self).producer_index() + k
                } else {
                    old(self).producer_index() + k - old(self).capacity()
                }
                &&& st.remaining == old(self).capacity() - old(self)@.len() - k
                &&& st.signal == (old(self)@.len() == 0 && k > 0 && k <= old(self).capacity()
                    - old(self).producer_index())
            }),
    {
        let mut g = f;
        let mut left = count;
        loop
            invariant
                old(self).wf(),
                self.wf(),
                g == f,
                call_requires(f, ()),
                self.capacity() == old(self).capacity(),
                self.consumer_index() == old(self).consumer_index(),
                left <= count,
                self@.len() == old(self)@.len() + (count - left),
                self@.take(old(self)@.len() as int) == old(self)@,
                forall|i: int|
                    old(self)@.len() <= i < self@.len() ==> call_ensures(
                        f,
                        (),
                        #[trigger] self@[i],
                    ),
                self.producer_index() == if old(self).producer_index() + (count - left) < old(
                    self,
                ).capacity() {
                    old(self).producer_index() + (count - left)
                } else {
                    old(self).producer_index() + (count - left) - old(self).capacity()
                },
                left < count ==> left > 0,
                left < count ==> self@.len() < self.capacity(),
                old(self)@.len() == 0 && left < count ==> count - left >= old(self).capacity()
                    - old(self).producer_index(),
            decreases left,
        {
            let l = self.data.len();
            let cb = self.count;
            let a = l - self.send_index;
            let b = l - cb;
            let w = if a <= b {
                a
            } else {
                b
            };
            let m = if w <= left {
                w
            } else {
                left
            };
            let mut buf: Vec<T> = Vec::new();
            let mut j: usize = 0;
            while j < m
                invariant
                    j <= m,
                    buf@.len() == j,
                    g == f,
                    call_requires(f, ()),
                    forall|i: int| 0 <= i < j ==> call_ensures(f, (), #[trigger] buf@[i]),
                decreases m - j,
            {
                let item = g();
                buf.push(item);
                j += 1;
            }
            self.write_slots(&buf);
            left = left - m;
            let st = Status { remaining: l - cb - m, signal: cb == 0 && m > 0 };
            if st.remaining == 0 || left == 0 {
                proof {
                    assert(self@.take(old(self)@.len() as int) =~= old(self)@);
                }
                return st;
            }
            proof {
                assert(self@.take(old(self)@.len() as int) =~= old(self)@);
            }
        }
    }

    /// Bulk receive: invokes the consumer callback on up to `count`
    /// elements, one per call and in queue order, draining window after
    /// window until the ring is empty or `count` elements have been
    /// consumed.
    ///
    /// Returns the status of the last underlying receive, so the signal is
    /// that receive's edge transition.
    pub fn recv_foreach<F: FnMut(T)>(&mut self, count: usize, f: F) -> (st: Status)
        requires
            old(self).wf(),
            forall|i: int|
                0 <= i < old(self)@.len() ==> call_requires(f, (old(self)@[i],)),
        ensures
            final(self).wf(),
            final(self).capacity() == old(self).capacity(),
            final(self).producer_index() == old(self).producer_index(),
            ({
                let k = spec_min(count as int, old(self)@.len() as int);
                &&& final(self)@ == old(self)@.skip(k)
                &&& forall|i: int|
                    0 <= i < k ==> call_ensures(f, (#[trigger] old(self)@[i],), ())
                &&& final(self).consumer_index() == if old(self).consumer_index() + k < old(
                    self,
                ).capacity() {
                    old(self).consumer_index() + k
                } else {
                    old(self).consumer_index() + k - old(self).capacity()
                }
                &&& st.remaining == old(self)@.len() - k
                &&& st.signal == (old(self)@.len() == old(self).capacity() && k > 0 && k <= old(
                    self,
                ).capacity() - old(self).consumer_index())
            }),
    {
        let mut g = f;
        let mut left = count;
        loop
            invariant
                old(self).wf(),
                self.wf(),
                g == f,
                self.capacity() == old(self).capacity(),
                self.producer_index() == old(self).producer_index(),
                left <= count,
                self@ == old(self)@.skip(count - left),
                count - left <= old(self)@.len(),
                forall|i: int|
                    0 <= i < old(self)@.len() ==> call_requires(f, (old(self)@[i],)),
                forall|i: int|
                    0 <= i < count - left ==> call_ensures(f, (#[trigger] old(self)@[i],), ()),
                self.consumer_index() == if old(self).consumer_index() + (count - left) < old(
                    self,
                ).capacity() {
                    old(self).consumer_index() + (count - left)
                } else {
                    old(self).consumer_index() + (count - left) - old(self).capacity()
                },
                left < count ==> left > 0,
                left < count ==> self@.len() > 0,
                old(self)@.len() == old(self).capacity() && left < count ==> count - left >= old(
                    self,
                ).capacity() - old(self).consumer_index(),
            decreases left,
        {
            let l = self.data.len();
            let cb = self.count;
            let c = l - self.recv_index;
            let w = if cb <= c {
                cb
            } else {
                c
            };
            let m = if w <= left {
                w
            } else {
                left
            };
            let win = self.peek_window();
            let ghost done = count - left;
            proof {
                assert(forall|i: int|
                    0 <= i < win@.len() ==> win@[i] == old(self)@[done + i]);
            }
            let mut j: usize = 0;
            while j < m
                invariant
                    j <= m,
                    m <= win@.len(),
                    g == f,
                    done + win@.len() <= old(self)@.len(),
                    0 <= done,
                    forall|i: int| 0 <= i < win@.len() ==> win@[i] == old(self)@[done + i],
                    forall|i: int|
                        0 <= i < old(self)@.len() ==> call_requires(f, (old(self)@[i],)),
                    forall|i: int|
                        0 <= i < done + j ==> call_ensures(f, (#[trigger] old(self)@[i],), ()),
                decreases m - j,
            {
                proof {
                    assert(win@[j as int] == old(self)@[done + j]);
                }
                g(win[j]);
                j += 1;
            }
            self.drop_slots(m);
            left = left - m;
            let st = Status { remaining: cb - m, signal: cb >= l && m > 0 };
            if st.remaining == 0 || left == 0 {
                proof {
                    assert(self@ =~= old(self)@.skip(count - left));
                }
                return st;
            }
            proof {
                assert(self@ =~= old(self)@.skip(count - left));
            }
        }
    }

    /// Returns the number of items that can be written before the ring is
    /// full.
    pub fn write_count(&self) -> (r: Result<usize, Error>)
        requires
            self.wf(),
        ensures
            r == Ok::<usize, Error>((self.capacity() - self@.len()) as usize),
    {
        Ok(self.data.len() - self.count)
    }
}

} // verus!

use shmem_ipc::ringbuf::{
    advance_index, alignment_check, attach_check, channel_bufsize, load_count, recv_commit_check,
    recv_status, recv_window, send_commit_check, send_status, send_window, Error, RingBuffer,
};

#[test]
fn simple_test() {
    let mut rb: RingBuffer<u16> = RingBuffer::channel(100, 10);
    // is it empty?
    rb.recv(|_| panic!()).unwrap();
    rb.send(|l| {
        assert!(l > 0);
        vec![5u16]
    })
    .unwrap();
    rb.recv(|d| {
        assert_eq!(d.len(), 1);
        assert_eq!(d[0], 5);
        0
    })
    .unwrap();
    rb.recv(|d| {
        assert_eq!(d.len(), 1);
        assert_eq!(d[0], 5);
        1
    })
    .unwrap();
    rb.recv(|_| panic!()).unwrap();

    let mut i = 6;
    rb.send_foreach(2, || {
        i += 1;
        i
    });
    rb.recv(|d| {
        assert_eq!(d.len(), 2);
        assert_eq!(&d[..], &[7, 8]);
        2
    })
    .unwrap();
}

#[test]
fn full_buf_test() {
    assert_eq!(channel_bufsize::<u16>(3), 64 + 3 * 2);
    let mut rb: RingBuffer<u16> = RingBuffer::channel(channel_bufsize::<u16>(3), 66);
    rb.send(|l| {
        assert_eq!(l, 3);
        vec![5u16, 8]
    })
    .unwrap();
    let mut called = false;
    rb.send_foreach(2, || {
        assert_eq!(called, false);
        called = true;
        10
    });
    rb.send(|_| panic!()).unwrap();
    rb.recv(|d| {
        assert_eq!(d.len(), 3);
        0
    })
    .unwrap();
    rb.send(|_| panic!()).unwrap();
    rb.recv(|d| {
        assert_eq!(d.len(), 3);
        assert_eq!(&d[..], &[5, 8, 10]);
        1
    })
    .unwrap();
    rb.send(|l| {
        assert_eq!(l, 1);
        vec![1u16]
    })
    .unwrap();
    rb.send(|_| panic!()).unwrap();
    rb.recv(|d| {
        assert_eq!(d.len(), 2);
        assert_eq!(&d[..], &[8, 10]);
        2
    })
    .unwrap();
    let mut called = false;
    rb.recv_foreach(56, |d| {
        assert_eq!(called, false);
        called = true;
        assert_eq!(d, 1);
    });
}

#[test]
fn attach_rejects_bad_layouts() {
    // shorter than one cache line plus one element
    assert!(matches!(attach_check(65, 2), Err(Error::BufTooSmall)));
    assert!(matches!(attach_check(0, 2), Err(Error::BufTooSmall)));
    // longer than signed pointer arithmetic allows
    assert!(matches!(attach_check(isize::MAX as usize, 2), Err(Error::BufTooBig)));
    assert!(matches!(attach_check(usize::MAX, 2), Err(Error::BufTooBig)));
    // the smallest acceptable buffer holds exactly one element
    assert_eq!(attach_check(66, 2).unwrap(), 1);
    assert_eq!(attach_check(100, 2).unwrap(), 18);
    let r: Result<RingBuffer<u16>, Error> = RingBuffer::attach(65, 0, 0);
    assert!(matches!(r, Err(Error::BufTooSmall)));
    let r: Result<RingBuffer<u16>, Error> = RingBuffer::attach(isize::MAX as usize, 0, 0);
    assert!(matches!(r, Err(Error::BufTooBig)));
}

#[test]
fn attach_rejects_corrupt_count() {
    // a peer scribbled 0xFF over the shared count: it reads above the
    // capacity and the attach is refused
    let r: Result<RingBuffer<u16>, Error> = RingBuffer::attach(70, 0, usize::MAX);
    assert!(matches!(r, Err(Error::BufCorrupt)));
    let r: Result<RingBuffer<u16>, Error> = RingBuffer::attach(70, 0, 4);
    assert!(matches!(r, Err(Error::BufCorrupt)));
    // the capacity itself is still fine: the ring attaches full
    let mut rb: RingBuffer<u16> = RingBuffer::attach(70, 9, 3).unwrap();
    rb.send(|_| panic!()).unwrap();
    let st = rb
        .recv(|d| {
            assert_eq!(&d[..], &[9, 9, 9]);
            3
        })
        .unwrap();
    assert_eq!(st.remaining, 0);
    assert!(st.signal);
}

#[test]
fn callback_over_read_and_over_write() {
    let mut rb: RingBuffer<u16> = RingBuffer::channel(70, 0);
    // a send callback that writes past its window poisons nothing
    let r = rb.send(|l| vec![1u16; l + 1]);
    assert!(matches!(r, Err(Error::CallbackWroteTooMuch)));
    rb.recv(|_| panic!()).unwrap();
    rb.send(|_| vec![4u16, 5]).unwrap();
    // a recv callback that claims more than it saw fails and drops nothing
    let r = rb.recv(|d| d.len() + 1);
    assert!(matches!(r, Err(Error::CallbackReadTooMuch)));
    let st = rb
        .recv(|d| {
            assert_eq!(&d[..], &[4, 5]);
            d.len()
        })
        .unwrap();
    assert_eq!(st.remaining, 0);
}

#[test]
fn foreach_round_trip_with_wrap() {
    let mut rb: RingBuffer<u64> = RingBuffer::channel(channel_bufsize::<u64>(3), 0);
    let mut sent = Vec::new();
    let mut got = Vec::new();
    let mut next: u64 = 0;
    // ten records through a ring of three slots: several full wraps
    while sent.len() < 10 {
        let st = rb.send_foreach(2, || {
            next += 1;
            sent.push(next);
            next
        });
        assert!(st.remaining <= 3);
        rb.recv_foreach(2, |v| got.push(v));
    }
    rb.recv_foreach(10, |v| got.push(v));
    assert_eq!(sent, got);
    assert_eq!(got, (1..=next).collect::<Vec<u64>>());
}

#[test]
fn send_signals_on_empty_edge_only() {
    let mut rb: RingBuffer<u16> = RingBuffer::channel(70, 0);
    let st = rb.send(|_| vec![1u16]).unwrap();
    assert!(st.signal);
    assert_eq!(st.remaining, 2);
    // the ring is already non-empty: no second wake-up
    let st = rb.send(|_| vec![2u16]).unwrap();
    assert!(!st.signal);
    assert_eq!(st.remaining, 1);
    // a send that commits nothing does not signal either
    let mut rb2: RingBuffer<u16> = RingBuffer::channel(70, 0);
    let st = rb2.send(|_| vec![]).unwrap();
    assert!(!st.signal);
}

#[test]
fn recv_signals_on_full_edge_only() {
    let mut rb: RingBuffer<u16> = RingBuffer::channel(70, 0);
    rb.send(|_| vec![1u16, 2, 3]).unwrap();
    let st = rb.recv(|_| 1).unwrap();
    assert!(st.signal);
    assert_eq!(st.remaining, 2);
    let st = rb.recv(|_| 1).unwrap();
    assert!(!st.signal);
    assert_eq!(st.remaining, 1);
}

#[test]
fn counts_track_occupancy() {
    let mut rb: RingBuffer<u16> = RingBuffer::channel(70, 0);
    assert_eq!(rb.read_count().unwrap(), 0);
    assert_eq!(rb.write_count().unwrap(), 3);
    rb.send(|_| vec![7u16, 8]).unwrap();
    assert_eq!(rb.read_count().unwrap(), 2);
    assert_eq!(rb.write_count().unwrap(), 1);
}

#[test]
fn protocol_steps() {
    // the pure steps that drive a ring over a shared mapping
    assert_eq!(load_count(3, 3).unwrap(), 3);
    assert!(matches!(load_count(4, 3), Err(Error::BufCorrupt)));
    assert_eq!(send_window(0, 0, 3), 3);
    assert_eq!(send_window(2, 1, 3), 1);
    assert_eq!(send_window(0, 3, 3), 0);
    assert_eq!(recv_window(0, 0, 3), 0);
    assert_eq!(recv_window(1, 3, 3), 2);
    assert_eq!(recv_window(2, 2, 3), 1);
    assert_eq!(advance_index(1, 2, 3), 0);
    assert_eq!(advance_index(1, 1, 3), 2);
    assert!(send_commit_check(2, 2).is_ok());
    assert!(matches!(send_commit_check(3, 2), Err(Error::CallbackWroteTooMuch)));
    assert!(matches!(recv_commit_check(3, 2), Err(Error::CallbackReadTooMuch)));
    let st = send_status(0, 2, 3);
    assert_eq!(st.remaining, 1);
    assert!(st.signal);
    let st = send_status(1, 1, 3);
    assert!(!st.signal);
    let st = recv_status(3, 2, 3);
    assert_eq!(st.remaining, 1);
    assert!(st.signal);
    let st = recv_status(2, 2, 3);
    assert!(!st.signal);
    assert!(alignment_check(64, 8).is_ok());
    assert!(matches!(alignment_check(65, 8), Err(Error::BufUnaligned)));
}

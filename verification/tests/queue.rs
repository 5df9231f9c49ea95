use std::num::NonZeroUsize;
use std::sync::Mutex;

use bytes::Bytes;
use rayon::iter::{IntoParallelIterator, ParallelIterator};
use tokio_io_utility::{Buffers, MpScBytesQueue};

fn assert_empty(buffers: Buffers<'_>) {
    assert!(buffers.is_empty());
    assert!(buffers.get_io_slices().is_empty());
}

#[test]
fn test_seq() {
    let bytes = Bytes::from_static(b"Hello, world!");

    let mut queue = MpScBytesQueue::new(NonZeroUsize::new(10).unwrap().get());

    for _ in 0..20 {
        // Test extend
        assert_empty(queue.try_get_buffers().unwrap());

        for i in 0..5 {
            println!("Pushing (success) {}", i);
            queue.extend([bytes.clone(), bytes.clone()]);

            assert_eq!(
                queue.try_get_buffers().unwrap().get_io_slices().len(),
                (i + 1) * 2
            );
        }

        println!("Test try_get_buffers");

        let bytes_slice_inserted = 10;

        {
            let mut buffers = queue.try_get_buffers().unwrap();
            assert_eq!(buffers.get_io_slices().len(), bytes_slice_inserted);
            for io_slice in buffers.get_io_slices() {
                assert_eq!(&*io_slice, &*bytes);
            }

            assert!(!buffers.advance(
                NonZeroUsize::new(bytes_slice_inserted * bytes.len())
                    .unwrap()
                    .get()
            ));
            assert!(!buffers.advance(NonZeroUsize::new(100).unwrap().get()));
        }

        // Test push
        assert_empty(queue.try_get_buffers().unwrap());

        for i in 0..10 {
            println!("Pushing (success) {}", i);
            queue.push(bytes.clone());

            assert_eq!(
                queue.try_get_buffers().unwrap().get_io_slices().len(),
                i + 1
            );
        }

        println!("Test try_get_buffers");

        let bytes_slice_inserted = 10;

        let mut buffers = queue.try_get_buffers().unwrap();
        assert_eq!(buffers.get_io_slices().len(), bytes_slice_inserted);
        for io_slice in buffers.get_io_slices() {
            assert_eq!(&*io_slice, &*bytes);
        }

        assert!(!buffers.advance(
            NonZeroUsize::new(bytes_slice_inserted * bytes.len())
                .unwrap()
                .get()
        ));
        assert!(!buffers.advance(NonZeroUsize::new(100).unwrap().get()));
    }
}

#[test]
fn test_par() {
    static BYTES0: Bytes = Bytes::from_static(b"012344578");
    static BYTES1: Bytes = Bytes::from_static(b"2134i9054");

    let queue = Mutex::new(MpScBytesQueue::new(NonZeroUsize::new(1000).unwrap().get()));

    rayon::scope(|s| {
        (0..1000).into_par_iter().for_each(|_| {
            s.spawn(|_| {
                queue
                    .lock()
                    .unwrap()
                    .extend([BYTES0.clone(), BYTES1.clone()]);
            });
        });

        let mut slices_processed = 0;
        loop {
            let mut guard = queue.lock().unwrap();
            if let Some(mut buffers) = guard.try_get_buffers() {
                if buffers.is_empty() {
                    continue;
                }

                let io_slices_len = {
                    let io_slices = buffers.get_io_slices();

                    // verify the content
                    let mut it = io_slices.iter();
                    while let Some(io_slice0) = it.next() {
                        assert_eq!(&**io_slice0, &*BYTES0);
                        assert_eq!(&**it.next().unwrap(), &*BYTES1);
                    }
                    io_slices.len()
                };

                // advance
                buffers.advance(NonZeroUsize::new(io_slices_len * BYTES0.len()).unwrap().get());
                slices_processed += io_slices_len;

                if slices_processed == 2000 {
                    break;
                }
            }
        }
    });
}

#[test]
fn test_drain_bytes() {
    static BYTES0: Bytes = Bytes::from_static(b"012344578");
    static BYTES1: Bytes = Bytes::from_static(b"2134i9054");

    let mut queue = MpScBytesQueue::new(NonZeroUsize::new(1000).unwrap().get());

    for _ in 0..20 {
        // Test extend
        assert_empty(queue.try_get_buffers().unwrap());

        for i in 0..5 {
            println!("Pushing (success) {}", i);
            queue.extend([BYTES0.clone(), BYTES1.clone()]);

            assert_eq!(
                queue.try_get_buffers().unwrap().get_io_slices().len(),
                (i + 1) * 2
            );
        }

        println!("Test try_get_buffers");

        let mut drain = queue.try_get_buffers().unwrap().drain_bytes();
        let mut i = 0;
        while let Some(bytes) = drain.next() {
            if i % 2 == 0 {
                assert_eq!(bytes, BYTES0);
            } else {
                assert_eq!(bytes, BYTES1);
            }
            i += 1;
        }
        assert_eq!(i, 10);
    }
}

#[test]
fn push_skips_empty_bytes_and_keeps_order() {
    let mut queue = MpScBytesQueue::new(4);
    queue.push(Bytes::from_static(b"ab"));
    queue.push(Bytes::new());
    queue.extend([Bytes::from_static(b"c"), Bytes::new(), Bytes::from_static(b"def")]);
    queue.extend_from_iter(vec![Bytes::new(), Bytes::from_static(b"g")]);
    {
        let mut pusher = queue.get_pusher();
        pusher.push(Bytes::from_static(b"hi"));
        pusher.extend_from_exact_size_iter(vec![Bytes::from_static(b"j")]);
    }
    let mut drain = queue.try_get_buffers().unwrap().drain_bytes();
    assert_eq!(drain.size_hint(), (6, Some(6)));
    let mut all = Vec::new();
    while let Some(b) = drain.next() {
        assert!(!b.is_empty());
        all.push(b);
    }
    assert_eq!(all, vec![
        Bytes::from_static(b"ab"),
        Bytes::from_static(b"c"),
        Bytes::from_static(b"def"),
        Bytes::from_static(b"g"),
        Bytes::from_static(b"hi"),
        Bytes::from_static(b"j"),
    ]);
}

#[test]
fn buffers_window_is_bounded_by_the_slot_count() {
    let mut queue = MpScBytesQueue::new(2);
    queue.extend([
        Bytes::from_static(b"abc"),
        Bytes::from_static(b"de"),
        Bytes::from_static(b"f"),
    ]);
    let buffers = queue.try_get_buffers().unwrap();
    let slices = buffers.get_io_slices();
    assert_eq!(slices.len(), 2);
    assert_eq!(&*slices[0], b"abc");
    assert_eq!(&*slices[1], b"de");
}

#[test]
fn advance_trims_the_partly_written_buffer() {
    let mut queue = MpScBytesQueue::new(8);
    queue.extend([
        Bytes::from_static(b"abc"),
        Bytes::from_static(b"de"),
        Bytes::from_static(b"f"),
    ]);
    {
        let mut buffers = queue.get_buffers_blocked();
        // Three bytes end the first buffer exactly: the second is untouched.
        assert!(buffers.advance(3));
        assert_eq!(buffers.io_slice_start, 1);
        let slices = buffers.get_io_slices();
        assert_eq!(slices.len(), 2);
        assert_eq!(&*slices[0], b"de");
        // One more byte falls inside "de".
        assert!(buffers.advance(1));
        let slices = buffers.get_io_slices();
        assert_eq!(&*slices[0], b"e");
        assert_eq!(&*slices[1], b"f");
        // Writing past the end finishes the window.
        assert!(!buffers.advance(10));
        assert!(buffers.is_empty());
    }
    assert!(queue.try_get_buffers().unwrap().is_empty());
}

#[test]
fn advance_keeps_buffers_past_the_window() {
    let mut queue = MpScBytesQueue::new(1);
    queue.extend([Bytes::from_static(b"abc"), Bytes::from_static(b"de")]);
    {
        let mut buffers = queue.try_get_buffers().unwrap();
        assert!(!buffers.advance(5));
    }
    let buffers = queue.try_get_buffers().unwrap();
    let slices = buffers.get_io_slices();
    assert_eq!(slices.len(), 1);
    assert_eq!(&*slices[0], b"de");
}

#[test]
fn new_queue_has_room_for_its_slot_count() {
    let queue = MpScBytesQueue::new(10);
    assert!(queue.capacity() >= 10);
}

#[test]
fn front_bytes_and_len_follow_the_queue() {
    let mut queue = MpScBytesQueue::new(4);
    queue.extend([Bytes::from_static(b"ab"), Bytes::new(), Bytes::from_static(b"c")]);
    assert_eq!(queue.len(), 2);
    assert_eq!(queue.front_bytes(1), vec![Bytes::from_static(b"ab")]);
    assert_eq!(queue.front_bytes(2), vec![Bytes::from_static(b"ab"), Bytes::from_static(b"c")]);
}

#[test]
fn drain_collects_every_buffer_in_push_order() {
    let mut queue = MpScBytesQueue::new(1);
    queue.extend([
        Bytes::from_static(b"abc"),
        Bytes::from_static(b"de"),
        Bytes::from_static(b"f"),
    ]);
    {
        let mut buffers = queue.try_get_buffers().unwrap();
        // Only "abc" is in the window; two of its bytes are written.
        assert!(buffers.advance(2));
        let all = buffers.drain_bytes().collect();
        assert_eq!(all, vec![
            Bytes::from_static(b"c"),
            Bytes::from_static(b"de"),
            Bytes::from_static(b"f"),
        ]);
    }
    assert_eq!(queue.len(), 0);
}

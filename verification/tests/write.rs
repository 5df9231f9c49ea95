use std::io::IoSlice;
use std::num::NonZeroUsize;

use bytes::{Bytes, BytesMut};
use tokio_io_utility::{
    advance_io_slices, advance_written_bytes, retain_unwritten_bytes, write_bytes_io_slices,
    ReusableIoSlices, WriteProgress,
};

/// Takes at most `limit` bytes of the offered slices, like a rate-limited
/// writer.
fn take_bytes(out: &mut Vec<u8>, bufs: &[IoSlice<'_>], limit: usize) -> usize {
    let mut cnt = 0;
    for s in bufs {
        if cnt >= limit {
            break;
        }
        let n = s.len().min(limit - cnt);
        out.extend_from_slice(&s[..n]);
        cnt += n;
    }
    cnt
}

/// Writes all of `bufs` as `write_vectored_all` does, through a writer that
/// takes at most `limit` bytes per write.
fn write_all_slices(out: &mut Vec<u8>, bufs: &mut [IoSlice<'_>], limit: usize) -> Result<(), ()> {
    if bufs.is_empty() {
        return Ok(());
    }
    let mut start = 0;
    loop {
        let n = take_bytes(out, &bufs[start..], limit);
        match advance_io_slices(bufs, start, n) {
            WriteProgress::Done => return Ok(()),
            WriteProgress::WriteZero => return Err(()),
            WriteProgress::Remaining(k) => start = k,
        }
    }
}

fn to_bytes(v: &[u32]) -> Vec<u8> {
    v.iter().flat_map(|x| x.to_ne_bytes()).collect()
}

#[test]
fn async_write_utility_test() {
    let buffer0: Vec<u32> = (0..1024).collect();
    let buffer1: Vec<u32> = (1024..2048).collect();
    let b0 = to_bytes(&buffer0);
    let b1 = to_bytes(&buffer1);

    let mut out = Vec::new();
    for _ in 0..2 {
        write_all_slices(&mut out, &mut [IoSlice::new(&b0), IoSlice::new(&b1)], 4 * 128 + 3)
            .unwrap();
    }

    for round in 0..2 {
        let mut n = 0u32;
        for x in out[round * 2048 * 4..(round + 1) * 2048 * 4].chunks(4) {
            assert_eq!(x, n.to_ne_bytes());
            n += 1;
        }
        assert_eq!(n, 2048);
    }
}

#[test]
fn advance_io_slices_zero_is_write_zero() {
    let data = b"abc";
    let mut bufs = [IoSlice::new(data)];
    assert_eq!(advance_io_slices(&mut bufs, 0, 0), WriteProgress::WriteZero);
    assert_eq!(&*bufs[0], b"abc");
}

#[test]
fn advance_io_slices_trims_and_skips() {
    let (a, b, c) = (b"abc".to_vec(), b"de".to_vec(), b"fgh".to_vec());
    let mut bufs = [IoSlice::new(&a), IoSlice::new(&b), IoSlice::new(&c)];
    // Stops exactly at the end of the first slice.
    assert_eq!(advance_io_slices(&mut bufs, 0, 3), WriteProgress::Remaining(1));
    assert_eq!(&*bufs[1], b"de");
    // Ends inside the third slice.
    assert_eq!(advance_io_slices(&mut bufs, 1, 3), WriteProgress::Remaining(2));
    assert_eq!(&*bufs[2], b"gh");
    assert_eq!(advance_io_slices(&mut bufs, 2, 2), WriteProgress::Done);
}

#[test]
fn advance_io_slices_stops_before_a_trailing_empty_slice() {
    let a = b"ab".to_vec();
    let mut bufs = [IoSlice::new(&a), IoSlice::new(&[])];
    assert_eq!(advance_io_slices(&mut bufs, 0, 2), WriteProgress::Remaining(1));
}

/// Writes all of `buffer` as `write_all_bytes` does, through a writer that
/// takes at most `limit` bytes per write.
fn write_all_bytes(
    out: &mut Vec<u8>,
    buffer: &mut Vec<Bytes>,
    slots: &ReusableIoSlices,
    limit: usize,
) -> Result<(), ()> {
    if buffer.is_empty() {
        return Ok(());
    }
    let mut start = 0;
    let res = loop {
        let slices = write_bytes_io_slices(buffer, start, slots);
        let n = take_bytes(out, &slices, limit);
        drop(slices);
        match advance_written_bytes(buffer, start, n) {
            WriteProgress::Done => {
                start = buffer.len();
                break Ok(());
            }
            WriteProgress::WriteZero => break Err(()),
            WriteProgress::Remaining(k) => start = k,
        }
    };
    retain_unwritten_bytes(buffer, start);
    res
}

#[test]
fn write_bytes_test() {
    let bytes: BytesMut = (0..255).collect();
    let bytes = bytes.freeze();

    let iter = std::iter::once(bytes).cycle().take(20);

    let expected_bytes: Vec<u8> = iter.clone().flatten().collect();

    let reusable_io_slices = ReusableIoSlices::new(NonZeroUsize::new(3).unwrap().get());

    for limit in [255 / 2, 255, 255 + 255 / 2, 255 + 5] {
        let mut out = Vec::new();
        let mut buffer: Vec<Bytes> = iter.clone().collect();
        write_all_bytes(&mut out, &mut buffer, &reusable_io_slices, limit).unwrap();
        assert_eq!(out, expected_bytes);
        assert!(buffer.is_empty());
    }
}

#[test]
fn write_bytes_keeps_what_was_not_written() {
    let slots = ReusableIoSlices::new(2);
    let mut buffer = vec![
        Bytes::from_static(b"abc"),
        Bytes::from_static(b"de"),
        Bytes::from_static(b"f"),
    ];
    let slices = write_bytes_io_slices(&buffer, 0, &slots);
    assert_eq!(slices.len(), 2);
    drop(slices);
    assert_eq!(advance_written_bytes(&mut buffer, 0, 4), WriteProgress::Remaining(1));
    assert_eq!(buffer[1], Bytes::from_static(b"e"));
    assert_eq!(advance_written_bytes(&mut buffer, 1, 0), WriteProgress::WriteZero);
    retain_unwritten_bytes(&mut buffer, 1);
    assert_eq!(buffer, vec![Bytes::from_static(b"e"), Bytes::from_static(b"f")]);
}

#[test]
fn write_bytes_passes_over_empty_bytes() {
    let slots = ReusableIoSlices::new(4);
    let mut buffer = vec![
        Bytes::from_static(b"ab"),
        Bytes::new(),
        Bytes::from_static(b"cd"),
    ];
    // Two bytes end the first buffer; the empty one after it goes too.
    assert_eq!(advance_written_bytes(&mut buffer, 0, 2), WriteProgress::Remaining(2));
    assert_eq!(buffer[2], Bytes::from_static(b"cd"));
    let mut out = Vec::new();
    let mut all = vec![Bytes::from_static(b"xy"), Bytes::new(), Bytes::from_static(b"z")];
    write_all_bytes(&mut out, &mut all, &slots, 1).unwrap();
    assert_eq!(out, b"xyz".to_vec());
}

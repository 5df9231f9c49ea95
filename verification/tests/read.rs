use bytes::{BufMut, BytesMut};
use tokio_io_utility::{
    read_exact_to_bytes, read_exact_to_vec, read_to_bytes_rng, read_to_bytes_until_end,
    read_to_container_rng, read_to_vec, read_to_vec_rng, resolve_range, spare_capacity,
    spare_within, Bound, Container, RangeError, ReadStep,
    ReadToContainerRngFuture,
};

/// A reader that hands out its bytes at most `chunk` at a time.
#[derive(Debug)]
struct Source {
    data: Vec<u8>,
    pos: usize,
    chunk: usize,
}

impl Source {
    fn new(data: Vec<u8>, chunk: usize) -> Self {
        Source { data, pos: 0, chunk }
    }

    fn read(&mut self, max: usize) -> Vec<u8> {
        let n = max.min(self.chunk).min(self.data.len() - self.pos);
        let out = self.data[self.pos..self.pos + n].to_vec();
        self.pos += n;
        out
    }
}

#[derive(Debug, PartialEq)]
enum Outcome {
    Completed,
    UnexpectedEof,
}

/// Drives a read as its future would: read, hand the bytes over, repeat.
fn drive<C: Container>(f: &mut ReadToContainerRngFuture<'_, C, Source>) -> Outcome {
    loop {
        let len = match f.read_len() {
            None => return Outcome::Completed,
            Some(len) => len,
        };
        let filled = f.reader.read(len);
        match f.complete_read(&filled) {
            ReadStep::Done => return Outcome::Completed,
            ReadStep::ReadMore => {}
            ReadStep::UnexpectedEof => return Outcome::UnexpectedEof,
        }
    }
}

fn numbers() -> Vec<u8> {
    (1..=255).collect()
}

#[test]
fn test_read_to_vec() {
    let mut r = Source::new(numbers(), 7);
    let mut buffer = Vec::with_capacity(255);

    let mut f = read_to_vec(&mut r, &mut buffer);
    assert_eq!(drive(&mut f.0 .0 .0), Outcome::Completed);

    assert_eq!(buffer.len(), 255);
    for (i, each) in buffer.iter().enumerate() {
        assert_eq!(*each as usize, i + 1);
    }
}

#[test]
fn test_read_exact_to_vec() {
    let mut r = Source::new(numbers(), 13);
    let mut buffer = vec![0];

    let mut f = read_exact_to_vec(&mut r, &mut buffer, 255);
    assert_eq!(drive(&mut f.0 .0), Outcome::Completed);

    for (i, each) in buffer.iter().enumerate() {
        assert_eq!(*each as usize, i);
    }
}

#[test]
fn async_read_utility_test_read_exact_to_bytes() {
    let mut r = Source::new(numbers(), 100);
    let mut buffer = BytesMut::new();
    buffer.put_u8(0);

    let mut f = read_exact_to_bytes(&mut r, &mut buffer, 255);
    assert_eq!(drive(&mut f.0 .0), Outcome::Completed);

    for (i, each) in buffer.iter().enumerate() {
        assert_eq!(*each as usize, i);
    }
}

#[test]
fn bytes_impl_test_read_exact_to_bytes() {
    let mut r = Source::new(numbers(), 1);
    let mut buffer = BytesMut::new();
    buffer.put_u8(0);

    let mut f = read_exact_to_bytes(&mut r, &mut buffer, 255);
    assert_eq!(drive(&mut f.0 .0), Outcome::Completed);

    for (i, each) in buffer.iter().enumerate() {
        assert_eq!(*each as usize, i);
    }
}

#[test]
fn read_to_bytes_rng_reads_within_its_range() {
    let mut r = Source::new(numbers(), 100);
    let mut buffer = BytesMut::new();
    buffer.put_u8(0);

    let mut f = read_to_bytes_rng(&mut r, &mut buffer, Bound::Included(3), Bound::Included(5))
        .unwrap();
    assert_eq!((f.0.min, f.0.max), (3, 5));
    assert_eq!(drive(&mut f.0), Outcome::Completed);
    assert_eq!(&buffer[..], &[0, 1, 2, 3, 4, 5]);
}

#[test]
fn test_read_to_bytes_until_end() {
    let mut r = Source::new(numbers(), 17);
    let mut buffer = BytesMut::new();
    buffer.put_u8(0);

    let mut f = read_to_bytes_until_end(&mut r, &mut buffer);
    let n = loop {
        let len = f.read_len();
        let filled = f.reader.read(len);
        if let Some(n) = f.complete_read(&filled) {
            break n;
        }
    };
    assert_eq!(n, 255);

    for (i, each) in buffer.iter().enumerate() {
        assert_eq!(*each as usize, i);
    }
}

#[test]
fn eof_before_the_minimum_is_an_error() {
    let mut r = Source::new(vec![1, 2, 3], 2);
    let mut buffer = Vec::new();
    let mut f = read_exact_to_vec(&mut r, &mut buffer, 5);
    assert_eq!(drive(&mut f.0 .0), Outcome::UnexpectedEof);
    assert_eq!(buffer, vec![1, 2, 3]);
}

#[test]
fn range_reads_stop_once_the_minimum_is_reached() {
    let mut r = Source::new(numbers(), 4);
    let mut buffer = vec![9];
    let mut f = read_to_vec_rng(&mut r, &mut buffer, Bound::Included(3), Bound::Excluded(10))
        .unwrap();
    assert_eq!((f.0.min, f.0.max), (3, 9));
    assert_eq!(drive(&mut f.0), Outcome::Completed);
    // One read of 4 bytes reached the minimum of 3.
    assert_eq!(buffer, vec![9, 1, 2, 3, 4]);
}

#[test]
fn range_reads_never_pass_the_maximum() {
    let mut r = Source::new(numbers(), 100);
    let mut buffer = Vec::new();
    let mut f = read_to_vec_rng(&mut r, &mut buffer, Bound::Excluded(1), Bound::Included(6))
        .unwrap();
    assert_eq!((f.0.min, f.0.max), (2, 6));
    assert_eq!(drive(&mut f.0), Outcome::Completed);
    assert_eq!(buffer, vec![1, 2, 3, 4, 5, 6]);
}

#[test]
fn empty_range_completes_at_once() {
    let mut r = Source::new(numbers(), 100);
    let mut buffer = Vec::new();
    let mut f = read_to_vec_rng(&mut r, &mut buffer, Bound::Unbounded, Bound::Included(0)).unwrap();
    assert_eq!(f.0.read_len(), None);
    assert_eq!(drive(&mut f.0), Outcome::Completed);
    assert!(buffer.is_empty());
}

#[test]
fn inverted_range_is_refused() {
    // An unbounded end stands for the capacity: a minimum above it is refused.
    let mut r = Source::new(numbers(), 100);
    let mut buffer: Vec<u8> = Vec::with_capacity(4);
    let cap = buffer.capacity();
    assert_eq!(
        read_to_container_rng(&mut r, &mut buffer, Bound::Included(cap + 1), Bound::Unbounded)
            .unwrap_err(),
        RangeError::MinAboveMax { min: cap + 1, max: cap }
    );
    assert!(buffer.is_empty());
}

#[test]
fn reads_append_in_the_order_they_come() {
    let mut r = Source::new(numbers(), 3);
    let mut buffer = vec![7, 8];
    let mut f = read_to_vec_rng(&mut r, &mut buffer, Bound::Included(10), Bound::Included(10))
        .unwrap();
    let mut reads = Vec::new();
    loop {
        let len = f.0.read_len().unwrap();
        let filled = f.0.reader.read(len);
        reads.push(filled.len());
        if f.0.complete_read(&filled) == ReadStep::Done {
            break;
        }
    }
    assert_eq!((f.0.min, f.0.max), (0, 0));
    assert_eq!(reads, vec![3, 3, 3, 1]);
    assert_eq!(buffer, vec![7, 8, 1, 2, 3, 4, 5, 6, 7, 8, 9, 10]);
}

#[test]
fn unbounded_end_reads_up_to_the_capacity() {
    let mut r = Source::new(numbers(), 100);
    let mut buffer: Vec<u8> = Vec::with_capacity(8);
    let cap = buffer.capacity();
    let mut f =
        read_to_container_rng(&mut r, &mut buffer, Bound::Unbounded, Bound::Unbounded).unwrap();
    assert_eq!((f.min, f.max), (0, cap));
    assert_eq!(drive(&mut f), Outcome::Completed);
    assert!(!buffer.is_empty());
    assert!(buffer.len() <= cap);
}

#[test]
fn vec_container_hands_out_all_it_is_asked() {
    let mut v: Vec<u8> = vec![1];
    Container::reserve(&mut v, 10);
    assert!(Container::capacity(&v) >= 11);
    assert_eq!(Container::spare_len(&mut v, 10), 10);
    Container::advance(&mut v, &[2, 3]);
    assert_eq!(v, vec![1, 2, 3]);
    assert_eq!(Container::len(&v), 3);
}

#[test]
fn bytes_mut_container_appends() {
    let mut b = BytesMut::new();
    Container::reserve(&mut b, 4);
    let spare = Container::spare_len(&mut b, 3);
    assert!(spare > 0 && spare <= 3);
    Container::advance(&mut b, b"xy");
    assert_eq!(&b[..], b"xy");
    assert_eq!(Container::len(&b), 2);
}

#[test]
fn a_borrowed_container_fills_what_it_borrows() {
    let mut r = Source::new(numbers(), 3);
    let mut buffer = vec![0u8];
    let mut borrowed = &mut buffer;
    let mut f =
        read_to_container_rng(&mut r, &mut borrowed, Bound::Included(4), Bound::Included(4))
            .unwrap();
    assert_eq!(drive(&mut f), Outcome::Completed);
    assert_eq!(buffer, vec![0, 1, 2, 3, 4]);
}

#[test]
fn spare_within_takes_the_smaller() {
    assert_eq!(spare_within(64, 10), 10);
    assert_eq!(spare_within(7, 10), 7);
    assert_eq!(spare_within(10, 10), 10);
}

#[test]
fn resolve_range_decodes_the_bounds() {
    assert_eq!(resolve_range(Bound::Excluded(1), Bound::Excluded(9), 100, 0), Ok((2, 8)));
    assert_eq!(resolve_range(Bound::Unbounded, Bound::Unbounded, 64, 10), Ok((0, 64)));
    assert_eq!(
        resolve_range(Bound::Included(70), Bound::Unbounded, 64, 10),
        Err(RangeError::MinAboveMax { min: 70, max: 64 })
    );
    assert_eq!(
        resolve_range(Bound::Unbounded, Bound::Included(usize::MAX), 0, 1),
        Err(RangeError::CapacityOverflow { len: 1, max: usize::MAX })
    );
}

#[test]
fn spare_capacity_is_what_is_left() {
    assert_eq!(spare_capacity(255, 1), 254);
    assert_eq!(spare_capacity(8, 8), 0);
}

use std::collections::VecDeque;

use websocket_async_io::bridge::{Delivery, FillStatus, InboundBridge, InputState, ReadOutcome};
use websocket_async_io::DEFAULT_CAPACITY;

fn accepted(d: Delivery) -> bool {
    matches!(d, Delivery::Accepted)
}

/// Reads into a buffer of `len` bytes and returns the bytes copied.
fn read_some(b: &mut InboundBridge, len: usize) -> Option<Vec<u8>> {
    let mut buf = vec![0xEEu8; len];
    match b.read(&mut buf) {
        ReadOutcome::Data(n) => {
            assert!(buf[n..].iter().all(|x| *x == 0xEE));
            Some(buf[..n].to_vec())
        }
        _ => None,
    }
}

/// Collects bytes up to and including `delim` through fill_buffer/consume.
fn read_until(b: &mut InboundBridge, delim: u8, out: &mut Vec<u8>) -> bool {
    loop {
        if b.fill_buffer() != FillStatus::Ready {
            return false;
        }
        let avail = b.buffer().to_vec();
        match avail.iter().position(|x| *x == delim) {
            Some(i) => {
                out.extend_from_slice(&avail[..=i]);
                b.consume(i + 1);
                return true;
            }
            None => {
                out.extend_from_slice(&avail);
                b.consume(avail.len());
            }
        }
    }
}

#[test]
fn delimited_reads_follow_sends() {
    let mut b = InboundBridge::new(DEFAULT_CAPACITY);
    assert!(accepted(b.deliver(vec![0, 1, 2, 3, 93])));
    assert!(accepted(b.deliver(vec![42, 34, 93])));
    assert!(accepted(b.deliver(vec![0, 0, 1, 2, 93])));
    let mut buf = Vec::new();
    let expected: [&[u8]; 3] = [&[0, 1, 2, 3, 93], &[42, 34, 93], &[0, 0, 1, 2, 93]];
    for e in expected.iter() {
        assert!(read_until(&mut b, 93, &mut buf));
        assert_eq!(&buf[..], *e);
        buf.clear();
    }
}

#[test]
fn delimited_reads_survive_rechunking() {
    let mut b = InboundBridge::new(DEFAULT_CAPACITY);
    assert!(accepted(b.deliver(vec![0, 1])));
    assert!(accepted(b.deliver(vec![2, 3, 93, 42])));
    assert!(accepted(b.deliver(vec![34, 93, 0, 0, 1])));
    assert!(accepted(b.deliver(vec![2, 93])));
    let mut buf = Vec::new();
    let expected: [&[u8]; 3] = [&[0, 1, 2, 3, 93], &[42, 34, 93], &[0, 0, 1, 2, 93]];
    for e in expected.iter() {
        assert!(read_until(&mut b, 93, &mut buf));
        assert_eq!(&buf[..], *e);
        buf.clear();
    }
    assert_eq!(b.fill_buffer(), FillStatus::Pending);
}

#[test]
fn large_buffer_reads_one_chunk_each() {
    let mut b = InboundBridge::new(DEFAULT_CAPACITY);
    assert!(accepted(b.deliver(vec![0, 1, 2, 3])));
    assert!(accepted(b.deliver(vec![42, 34])));
    assert!(accepted(b.deliver(vec![0, 0, 1, 2])));
    assert_eq!(read_some(&mut b, 1024), Some(vec![0, 1, 2, 3]));
    assert_eq!(read_some(&mut b, 1024), Some(vec![42, 34]));
    assert_eq!(read_some(&mut b, 1024), Some(vec![0, 0, 1, 2]));
    let mut buf = vec![0u8; 1024];
    assert_eq!(b.read(&mut buf), ReadOutcome::Pending);
}

#[test]
fn reads_of_any_size_reassemble_the_stream() {
    let sends: Vec<Vec<u8>> = vec![vec![1, 2, 3], vec![4], vec![5, 6, 7, 8, 9], vec![10, 11]];
    let all: Vec<u8> = sends.concat();
    for size in 1..8usize {
        let mut b = InboundBridge::new(DEFAULT_CAPACITY);
        for s in sends.iter() {
            assert!(accepted(b.deliver(s.clone())));
        }
        let mut got = Vec::new();
        while let Some(part) = read_some(&mut b, size) {
            assert!(part.len() <= size);
            assert!(!part.is_empty());
            got.extend(part);
        }
        assert_eq!(got, all);
    }
}

#[test]
fn short_read_returns_chunk_length() {
    let mut b = InboundBridge::new(DEFAULT_CAPACITY);
    assert!(accepted(b.deliver(vec![7, 8, 9])));
    let mut buf = vec![0xAAu8; 10];
    assert_eq!(b.read(&mut buf), ReadOutcome::Data(3));
    assert_eq!(buf, vec![7, 8, 9, 0xAA, 0xAA, 0xAA, 0xAA, 0xAA, 0xAA, 0xAA]);
    assert!(b.buffer().is_empty());
}

#[test]
fn exact_read_leaves_nothing_over() {
    let mut b = InboundBridge::new(DEFAULT_CAPACITY);
    assert!(accepted(b.deliver(vec![1, 2, 3])));
    assert_eq!(read_some(&mut b, 3), Some(vec![1, 2, 3]));
    assert!(b.buffer().is_empty());
}

#[test]
fn split_chunk_continues_where_it_stopped() {
    let mut b = InboundBridge::new(DEFAULT_CAPACITY);
    assert!(accepted(b.deliver(vec![1, 2, 3, 4, 5, 6])));
    assert!(accepted(b.deliver(vec![7])));
    assert_eq!(read_some(&mut b, 4), Some(vec![1, 2, 3, 4]));
    assert_eq!(b.buffer(), &[5, 6]);
    assert_eq!(read_some(&mut b, 1), Some(vec![5]));
    assert_eq!(read_some(&mut b, 10), Some(vec![6]));
    assert_eq!(read_some(&mut b, 10), Some(vec![7]));
}

#[test]
fn write_remaining_moves_carry_over() {
    let mut b = InboundBridge::new(DEFAULT_CAPACITY);
    assert!(accepted(b.deliver(vec![1, 2, 3, 4, 5])));
    assert_eq!(b.fill_buffer(), FillStatus::Ready);
    let mut buf = [0u8; 2];
    assert_eq!(b.write_remaining(&mut buf), 2);
    assert_eq!(buf, [1, 2]);
    let mut big = [9u8; 5];
    assert_eq!(b.write_remaining(&mut big), 3);
    assert_eq!(big, [3, 4, 5, 9, 9]);
    assert!(b.buffer().is_empty());
}

#[test]
fn fill_twice_shows_same_bytes() {
    let mut b = InboundBridge::new(DEFAULT_CAPACITY);
    assert!(accepted(b.deliver(vec![4, 5, 6])));
    assert!(accepted(b.deliver(vec![7])));
    assert_eq!(b.fill_buffer(), FillStatus::Ready);
    let first = b.buffer().to_vec();
    assert_eq!(b.fill_buffer(), FillStatus::Ready);
    assert_eq!(b.buffer(), &first[..]);
    assert_eq!(first, vec![4, 5, 6]);
    assert_eq!(b.queued_chunks(), 1);
}

#[test]
fn consume_all_empties_carry_over() {
    let mut b = InboundBridge::new(DEFAULT_CAPACITY);
    assert!(accepted(b.deliver(vec![4, 5, 6])));
    assert!(accepted(b.deliver(vec![7])));
    assert_eq!(b.fill_buffer(), FillStatus::Ready);
    let n = b.buffer().len();
    b.consume(n);
    assert!(b.buffer().is_empty());
    assert_eq!(b.queued_chunks(), 1);
    assert_eq!(b.fill_buffer(), FillStatus::Ready);
    assert_eq!(b.buffer(), &[7]);
    b.consume(0);
    assert_eq!(b.buffer(), &[7]);
}

#[test]
fn partial_consume_keeps_rest() {
    let mut b = InboundBridge::new(DEFAULT_CAPACITY);
    assert!(accepted(b.deliver(vec![1, 2, 3, 4])));
    assert_eq!(b.fill_buffer(), FillStatus::Ready);
    b.consume(3);
    assert_eq!(b.buffer(), &[4]);
}

#[test]
fn full_queue_hands_chunk_back() {
    let mut b = InboundBridge::new(DEFAULT_CAPACITY);
    for i in 0..DEFAULT_CAPACITY {
        assert!(accepted(b.deliver(vec![i as u8 + 1])));
    }
    let back = match b.deliver(vec![9, 9]) {
        Delivery::Full(c) => c,
        _ => panic!("a full queue must refuse"),
    };
    assert_eq!(back, vec![9, 9]);
    assert_eq!(b.queued_chunks(), DEFAULT_CAPACITY);
    assert_eq!(read_some(&mut b, 8), Some(vec![1]));
    assert!(accepted(b.deliver(back)));
    let mut got = Vec::new();
    while let Some(part) = read_some(&mut b, 8) {
        got.extend(part);
    }
    assert_eq!(got, vec![2, 3, 4, 9, 9]);
}

#[test]
fn empty_chunk_is_dropped() {
    let mut b = InboundBridge::new(1);
    assert!(accepted(b.deliver(Vec::new())));
    assert_eq!(b.queued_chunks(), 0);
    let mut buf = [0u8; 4];
    assert_eq!(b.read(&mut buf), ReadOutcome::Pending);
}

#[test]
fn closed_input_ends_stream_after_drain() {
    let mut b = InboundBridge::new(2);
    assert!(accepted(b.deliver(vec![1, 2])));
    b.close_input();
    assert_eq!(b.input_state(), InputState::Closed);
    match b.deliver(vec![3]) {
        Delivery::Refused(c) => assert_eq!(c, vec![3]),
        _ => panic!("a closed input must refuse"),
    }
    assert_eq!(read_some(&mut b, 1), Some(vec![1]));
    assert_eq!(read_some(&mut b, 1), Some(vec![2]));
    let mut buf = [0u8; 1];
    assert_eq!(b.read(&mut buf), ReadOutcome::EndOfStream);
    assert_eq!(b.fill_buffer(), FillStatus::EndOfStream);
}

#[test]
fn failed_input_reports_after_drain() {
    let mut b = InboundBridge::new(2);
    assert!(accepted(b.deliver(vec![5])));
    b.fail_input();
    b.close_input();
    assert_eq!(b.input_state(), InputState::Failed);
    assert_eq!(read_some(&mut b, 4), Some(vec![5]));
    let mut buf = [0u8; 4];
    assert_eq!(b.read(&mut buf), ReadOutcome::Failed);
    assert_eq!(b.fill_buffer(), FillStatus::Failed);
}

#[test]
fn zero_length_read_keeps_bytes() {
    let mut b = InboundBridge::new(2);
    assert!(accepted(b.deliver(vec![1, 2])));
    let mut empty: [u8; 0] = [];
    assert_eq!(b.read(&mut empty), ReadOutcome::Data(0));
    assert_eq!(b.buffer(), &[1, 2]);
    assert_eq!(read_some(&mut b, 5), Some(vec![1, 2]));
}

#[test]
fn held_chunks_wait_for_room() {
    let mut b = InboundBridge::new(DEFAULT_CAPACITY);
    let mut held: VecDeque<Vec<u8>> = (0..=DEFAULT_CAPACITY as u8).map(|i| vec![i, i]).collect();
    assert_eq!(b.take_held(&mut held), DEFAULT_CAPACITY);
    assert_eq!(held.len(), 1);
    assert_eq!(held[0], vec![DEFAULT_CAPACITY as u8, DEFAULT_CAPACITY as u8]);
    assert_eq!(b.take_held(&mut held), 0);
    assert_eq!(read_some(&mut b, 2), Some(vec![0, 0]));
    assert_eq!(b.take_held(&mut held), 1);
    assert!(held.is_empty());
    let mut got = Vec::new();
    while let Some(part) = read_some(&mut b, 3) {
        got.extend(part);
    }
    assert_eq!(got, vec![1, 1, 2, 2, 3, 3, 4, 4]);
}

#[test]
fn held_chunks_stay_when_input_closed() {
    let mut b = InboundBridge::new(2);
    b.close_input();
    let mut held: VecDeque<Vec<u8>> = VecDeque::new();
    held.push_back(vec![1]);
    assert_eq!(b.take_held(&mut held), 0);
    assert_eq!(held.len(), 1);
}

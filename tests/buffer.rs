use prodcon::buffer::{after_refusal, Buffer, BufferError, WaitStep, BUF_SIZE};

/// A small deterministic pseudo-random sequence for interleavings.
fn next_rand(state: &mut u64) -> u64 {
    *state = state.wrapping_mul(6364136223846793005).wrapping_add(1442695040888963407);
    *state >> 33
}

#[test]
fn zero_capacity_is_refused() {
    assert!(Buffer::<i32>::new(0).is_none());
}

#[test]
fn new_buffer_is_open_and_empty() {
    let b = Buffer::<i32>::new(BUF_SIZE).unwrap();
    assert_eq!(BUF_SIZE, 7);
    assert_eq!(b.capacity(), 7);
    assert_eq!(b.count(), 0);
    assert!(b.is_empty());
    assert!(!b.is_full());
    assert!(!b.is_closed());
}

#[test]
fn fifo_one_producer_one_consumer() {
    let k: i32 = 50;
    let mut b = Buffer::new(4).unwrap();
    let mut next: i32 = 1;
    let mut removed = Vec::new();
    let mut state: u64 = 7;
    while removed.len() < k as usize {
        if next <= k && next_rand(&mut state) % 2 == 0 {
            match b.insert_item(next) {
                Ok(()) => next += 1,
                Err((e, item)) => {
                    assert_eq!(e, BufferError::WouldBlock);
                    assert_eq!(item, next);
                }
            }
        } else {
            match b.remove_item() {
                Ok(x) => removed.push(x),
                Err(e) => assert_eq!(e, BufferError::WouldBlock),
            }
        }
    }
    let expected: Vec<i32> = (1..=k).collect();
    assert_eq!(removed, expected);
    assert_eq!(b.count(), 0);
}

#[test]
fn insert_into_full_buffer_keeps_contents() {
    let mut b = Buffer::new(2).unwrap();
    assert_eq!(b.insert_item(10), Ok(()));
    assert_eq!(b.insert_item(20), Ok(()));
    assert!(b.is_full());
    assert_eq!(b.insert_item(30), Err((BufferError::WouldBlock, 30)));
    assert_eq!(b.count(), 2);
    assert_eq!(b.remove_item(), Ok(10));
    assert_eq!(b.remove_item(), Ok(20));
    assert_eq!(b.remove_item(), Err(BufferError::WouldBlock));
}

#[test]
fn remove_from_empty_buffer_returns_no_stale_item() {
    let mut b = Buffer::new(3).unwrap();
    assert_eq!(b.remove_item(), Err(BufferError::WouldBlock));
    assert_eq!(b.insert_item(5), Ok(()));
    assert_eq!(b.remove_item(), Ok(5));
    assert_eq!(b.remove_item(), Err(BufferError::WouldBlock));
    assert_eq!(b.count(), 0);
}

#[test]
fn ring_wraps_around_many_times() {
    let mut b = Buffer::new(3).unwrap();
    for i in 0..100 {
        assert_eq!(b.insert_item(i), Ok(()));
        assert_eq!(b.insert_item(i + 1000), Ok(()));
        assert_eq!(b.remove_item(), Ok(i));
        assert_eq!(b.remove_item(), Ok(i + 1000));
    }
    assert!(b.is_empty());
}

#[test]
fn closed_buffer_refuses_inserts_and_drains() {
    let mut b = Buffer::new(4).unwrap();
    assert_eq!(b.insert_item(1), Ok(()));
    assert_eq!(b.insert_item(2), Ok(()));
    b.close();
    assert!(b.is_closed());
    assert_eq!(b.insert_item(3), Err((BufferError::Closed, 3)));
    assert_eq!(b.count(), 2);
    assert_eq!(b.remove_item(), Ok(1));
    assert_eq!(b.insert_item(4), Err((BufferError::Closed, 4)));
    assert_eq!(b.remove_item(), Ok(2));
    for _ in 0..5 {
        assert_eq!(b.remove_item(), Err(BufferError::Closed));
        assert_eq!(b.insert_item(9), Err((BufferError::Closed, 9)));
    }
}

#[test]
fn close_twice_is_close_once() {
    let mut b = Buffer::new(2).unwrap();
    assert_eq!(b.insert_item(8), Ok(()));
    b.close();
    b.close();
    assert!(b.is_closed());
    assert_eq!(b.remove_item(), Ok(8));
    assert_eq!(b.remove_item(), Err(BufferError::Closed));
}

#[test]
fn closed_empty_buffer_reports_closed() {
    let mut b = Buffer::<u8>::new(1).unwrap();
    b.close();
    assert_eq!(b.remove_item(), Err(BufferError::Closed));
}

#[test]
fn count_stays_within_capacity() {
    let cap = 5;
    let mut b = Buffer::new(cap).unwrap();
    let mut state: u64 = 42;
    for i in 0..10_000u32 {
        if next_rand(&mut state) % 3 == 0 {
            let _ = b.remove_item();
        } else {
            let _ = b.insert_item(i);
        }
        assert!(b.count() <= cap);
        assert_eq!(b.is_full(), b.count() == cap);
        assert_eq!(b.is_empty(), b.count() == 0);
    }
}

#[test]
fn open_buffer_never_blocks_both_sides() {
    let mut b = Buffer::new(1).unwrap();
    for i in 0..20 {
        let full = b.is_full();
        let empty = b.is_empty();
        assert!(!(full && empty));
        if i % 2 == 0 {
            assert_eq!(b.insert_item(i), Ok(()));
        } else {
            assert_eq!(b.remove_item(), Ok(i - 1));
        }
    }
}

#[test]
fn stress_capacity_one_four_producers_four_consumers() {
    let ops: usize = 10_000;
    let mut b = Buffer::new(1).unwrap();
    let mut produced = [0usize; 4];
    let mut consumed = [0usize; 4];
    let mut total_in: usize = 0;
    let mut total_out: usize = 0;
    let mut sum_in: u64 = 0;
    let mut sum_out: u64 = 0;
    let mut state: u64 = 2024;
    while total_out < 4 * ops {
        let task = (next_rand(&mut state) % 8) as usize;
        if task < 4 {
            let p = task;
            if produced[p] < ops {
                let item = (p * ops + produced[p]) as u64;
                if b.insert_item(item).is_ok() {
                    produced[p] += 1;
                    total_in += 1;
                    sum_in += item;
                }
            }
        } else {
            let c = task - 4;
            if consumed[c] < ops {
                if let Ok(item) = b.remove_item() {
                    consumed[c] += 1;
                    total_out += 1;
                    sum_out += item;
                }
            }
        }
        assert!(b.count() <= 1);
    }
    assert_eq!(total_in, 4 * ops);
    assert_eq!(total_out, total_in);
    assert_eq!(sum_out, sum_in);
    assert_eq!(b.count(), 0);
}

#[test]
fn capacity_seven_ten_items_in_order() {
    let mut b = Buffer::new(BUF_SIZE).unwrap();
    let mut removed = Vec::new();
    let mut next: i32 = 0;
    // The producer runs ahead until the buffer fills, then the consumer
    // catches up; the two take turns until ten items have passed.
    while removed.len() < 10 {
        while next < 10 {
            match b.insert_item(next) {
                Ok(()) => next += 1,
                Err((BufferError::WouldBlock, _)) => break,
                Err(e) => panic!("unexpected {:?}", e),
            }
        }
        if let Ok(x) = b.remove_item() {
            removed.push(x);
        }
    }
    assert_eq!(removed, vec![0, 1, 2, 3, 4, 5, 6, 7, 8, 9]);
    assert_eq!(b.count(), 0);
}

#[test]
fn error_kinds_are_distinct() {
    assert_ne!(BufferError::WouldBlock, BufferError::Closed);
    assert_ne!(BufferError::Timeout, BufferError::Closed);
    assert_ne!(BufferError::Timeout, BufferError::WouldBlock);
}

#[test]
fn refusal_steps() {
    assert_eq!(after_refusal(BufferError::WouldBlock, false), WaitStep::Wait);
    assert_eq!(after_refusal(BufferError::WouldBlock, true), WaitStep::Finish(BufferError::Timeout));
    assert_eq!(after_refusal(BufferError::Closed, false), WaitStep::Finish(BufferError::Closed));
    assert_eq!(after_refusal(BufferError::Closed, true), WaitStep::Finish(BufferError::Closed));
}

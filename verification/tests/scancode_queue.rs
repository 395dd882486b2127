use wos_os_n71::task::keyboard::{add_scancode, QueueError, ScancodeQueue, MAX_CAPACITY};
use wos_os_n71::task::{Poll, TaskId};

fn queue(capacity: usize) -> ScancodeQueue {
    let mut queue = ScancodeQueue::uninit();
    queue.init(capacity);
    queue
}

#[test]
fn scancode_is_lost_before_init() {
    let mut queue = ScancodeQueue::uninit();
    assert!(!queue.is_initialized());
    assert_eq!(add_scancode(&mut queue, 0x1e), Err(QueueError::Uninitialized));
    assert_eq!(add_scancode(&mut queue, 0x1f), Err(QueueError::Uninitialized));
    queue.init(4);
    assert!(queue.is_initialized());
    // the lost bytes have left no trace
    assert_eq!(queue.poll_next(TaskId(0)), Poll::Pending);
}

#[test]
fn scancodes_come_out_in_the_order_they_went_in() {
    let mut queue = queue(8);
    for byte in [3u8, 1, 4, 1, 5] {
        assert_eq!(add_scancode(&mut queue, byte), Ok(None));
    }
    for byte in [3u8, 1, 4, 1, 5] {
        assert_eq!(queue.poll_next(TaskId(7)), Poll::Ready(byte));
    }
    assert_eq!(queue.poll_next(TaskId(7)), Poll::Pending);
}

#[test]
fn full_queue_drops_the_byte() {
    let mut queue = queue(2);
    assert_eq!(add_scancode(&mut queue, 10), Ok(None));
    assert_eq!(add_scancode(&mut queue, 20), Ok(None));
    assert_eq!(add_scancode(&mut queue, 30), Err(QueueError::Overflow));
    assert_eq!(add_scancode(&mut queue, 40), Err(QueueError::Overflow));
    assert_eq!(queue.poll_next(TaskId(1)), Poll::Ready(10));
    // one place is free again
    assert_eq!(add_scancode(&mut queue, 50), Ok(None));
    assert_eq!(add_scancode(&mut queue, 60), Err(QueueError::Overflow));
    assert_eq!(queue.poll_next(TaskId(1)), Poll::Ready(20));
    assert_eq!(queue.poll_next(TaskId(1)), Poll::Ready(50));
    assert_eq!(queue.poll_next(TaskId(1)), Poll::Pending);
}

#[test]
fn queue_holds_as_many_bytes_as_its_capacity() {
    for capacity in [1usize, 2, 16, 128] {
        let mut queue = queue(capacity);
        for i in 0..capacity {
            assert_eq!(add_scancode(&mut queue, i as u8), Ok(None));
        }
        assert_eq!(add_scancode(&mut queue, 0xff), Err(QueueError::Overflow));
        for i in 0..capacity {
            assert_eq!(queue.poll_next(TaskId(0)), Poll::Ready(i as u8));
        }
        assert_eq!(queue.poll_next(TaskId(0)), Poll::Pending);
    }
}

#[test]
fn large_capacity_can_be_had() {
    assert_eq!(MAX_CAPACITY, usize::MAX / 32);
    let capacity = 1 << 20;
    assert!(capacity <= MAX_CAPACITY);
    let mut queue = queue(capacity);
    for i in 0..capacity {
        assert!(add_scancode(&mut queue, (i % 251) as u8).is_ok());
    }
    assert_eq!(add_scancode(&mut queue, 0), Err(QueueError::Overflow));
    for i in 0..capacity {
        assert_eq!(queue.poll_next(TaskId(0)), Poll::Ready((i % 251) as u8));
    }
    assert_eq!(queue.poll_next(TaskId(0)), Poll::Pending);
}

#[test]
fn byte_into_an_empty_queue_wakes_the_waiting_task() {
    let mut queue = queue(4);
    // nobody waits yet
    assert_eq!(add_scancode(&mut queue, 1), Ok(None));
    assert_eq!(queue.poll_next(TaskId(5)), Poll::Ready(1));
    assert_eq!(queue.poll_next(TaskId(5)), Poll::Pending);
    // task 5 waits: the next byte wakes it
    assert_eq!(add_scancode(&mut queue, 2), Ok(Some(TaskId(5))));
    // the queue was not empty: nobody is woken
    assert_eq!(add_scancode(&mut queue, 3), Ok(None));
    assert_eq!(queue.poll_next(TaskId(5)), Poll::Ready(2));
    assert_eq!(queue.poll_next(TaskId(5)), Poll::Ready(3));
    // the task was woken once and waits no more
    assert_eq!(add_scancode(&mut queue, 4), Ok(None));
}

#[test]
fn waiting_task_is_the_one_that_polled_last() {
    let mut queue = queue(4);
    assert_eq!(queue.poll_next(TaskId(1)), Poll::Pending);
    assert_eq!(queue.poll_next(TaskId(2)), Poll::Pending);
    assert_eq!(add_scancode(&mut queue, 9), Ok(Some(TaskId(2))));
}

#[test]
fn task_can_wait_before_init() {
    let mut queue = ScancodeQueue::uninit();
    assert_eq!(add_scancode(&mut queue, 9), Err(QueueError::Uninitialized));
    queue.init(1);
    assert_eq!(queue.poll_next(TaskId(3)), Poll::Pending);
    assert_eq!(add_scancode(&mut queue, 9), Ok(Some(TaskId(3))));
    assert_eq!(add_scancode(&mut queue, 8), Err(QueueError::Overflow));
    assert_eq!(queue.poll_next(TaskId(3)), Poll::Ready(9));
}

#[test]
fn dropped_bytes_leave_no_gap() {
    let mut queue = queue(4);
    let mut accepted = Vec::new();
    let mut consumed = Vec::new();
    let mut seed: u32 = 7;
    for _ in 0..500 {
        seed = seed.wrapping_mul(1664525).wrapping_add(1013904223);
        if (seed >> 16) % 3 != 0 {
            let byte = (seed >> 8) as u8;
            if add_scancode(&mut queue, byte).is_ok() {
                accepted.push(byte);
            }
            assert!(accepted.len() - consumed.len() <= 4);
        } else if let Poll::Ready(byte) = queue.poll_next(TaskId(0)) {
            consumed.push(byte);
        }
    }
    while let Poll::Ready(byte) = queue.poll_next(TaskId(0)) {
        consumed.push(byte);
    }
    assert_eq!(accepted, consumed);
}

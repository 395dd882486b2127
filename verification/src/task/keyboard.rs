//! The scancode queue: bytes from the keyboard interrupt on their way to the
//! task that reads them.

use super::{Poll, TaskId};
use crate::allocator::is_power_of_two;
use crossbeam_queue::ArrayQueue;
use vstd::prelude::*;

pub mod introduction;

verus! {

/// `crossbeam_queue::ArrayQueue`, a queue of fixed capacity. Nothing is
/// known of what is inside one but what the functions below say.
#[verifier::external_type_specification]
#[verifier::external_body]
#[verifier::reject_recursive_types(T)]
pub struct ExArrayQueue<T>(ArrayQueue<T>);

/// The bytes that a queue holds, oldest first.
pub uninterp spec fn queued(queue: ArrayQueue<u8>) -> Seq<u8>;

/// The number of bytes that a queue was made to hold.
pub uninterp spec fn queue_capacity(queue: ArrayQueue<u8>) -> nat;

/// `ArrayQueue::new`: a queue for up to `capacity` bytes, which holds none.
/// It panics on a capacity of zero, and on one so large that its buffer,
/// at sixteen bytes a place, or the next power of two above it does not
/// fit the machine's word.
#[verifier::external_body]
fn queue_new(capacity: usize) -> (queue: ArrayQueue<u8>)
    requires
        0 < capacity <= MAX_CAPACITY,
    ensures
        queued(queue) == Seq::<u8>::empty(),
        queue_capacity(queue) == capacity,
{
    ArrayQueue::new(capacity)
}

/// `ArrayQueue::push`: where the queue has room, `byte` becomes its newest
/// byte; where it is full, the queue stays as it is and `byte` comes back
/// as the error.
#[verifier::external_body]
fn queue_push(queue: &mut ArrayQueue<u8>, byte: u8) -> (r: Result<(), u8>)
    ensures
        queue_capacity(*final(queue)) == queue_capacity(*old(queue)),
        queued(*old(queue)).len() < queue_capacity(*old(queue)) ==> r is Ok && queued(
            *final(queue),
        ) == queued(*old(queue)).push(byte),
        queued(*old(queue)).len() >= queue_capacity(*old(queue)) ==> (r matches Err(back) && back == byte)
            && queued(*final(queue)) == queued(*old(queue)),
{
    queue.push(byte)
}

/// `ArrayQueue::pop`: the oldest byte leaves the queue and is returned;
/// an empty queue stays as it is and gives `None`.
#[verifier::external_body]
fn queue_pop(queue: &mut ArrayQueue<u8>) -> (r: Option<u8>)
    ensures
        queue_capacity(*final(queue)) == queue_capacity(*old(queue)),
        queued(*old(queue)).len() > 0 ==> r == Some(queued(*old(queue)).first()) && queued(
            *final(queue),
        ) == queued(*old(queue)).drop_first(),
        queued(*old(queue)).len() == 0 ==> r is None && queued(*final(queue)) == queued(
            *old(queue),
        ),
{
    queue.pop()
}

/// `ArrayQueue::is_empty`: whether the queue holds no byte.
#[verifier::external_body]
fn queue_is_empty(queue: &ArrayQueue<u8>) -> (r: bool)
    ensures
        r == (queued(*queue).len() == 0),
{
    queue.is_empty()
}

/// The largest capacity that a scancode queue can be given: a buffer of
/// that many places still fits the address space.
pub const MAX_CAPACITY: usize = usize::MAX / 32;

/// Why a scancode did not reach the queue.
#[derive(Debug, Clone, Copy, PartialEq, Eq, Structural)]
pub enum QueueError {
    /// The queue has not been initialised: the byte is lost.
    Uninitialized,
    /// The queue is full: the byte is dropped.
    Overflow,
}

/// A scancode queue as plain values.
pub struct QueueState {
    /// Whether the queue has been initialised.
    pub initialized: bool,
    /// The number of bytes that the queue has room for.
    pub capacity: nat,
    /// The bytes in the queue, oldest first.
    pub bytes: Seq<u8>,
    /// The task that waits for the next byte, if one does.
    pub waker: Option<TaskId>,
}

impl QueueState {
    /// A queue holds no more bytes than it has room for.
    pub open spec fn wf(self) -> bool {
        self.bytes.len() <= self.capacity
    }

    /// What the producer is told about `byte`: that it is lost or dropped,
    /// or, where it went into a queue that was empty, which task to wake.
    pub open spec fn push_result(self, byte: u8) -> Result<Option<TaskId>, QueueError> {
        if !self.initialized {
            Err(QueueError::Uninitialized)
        } else if self.bytes.len() >= self.capacity {
            Err(QueueError::Overflow)
        } else if self.bytes.len() == 0 {
            Ok(self.waker)
        } else {
            Ok(None)
        }
    }

    /// The queue after the producer has pushed `byte`: where there is room,
    /// it is the newest byte, and the task that is woken waits no more.
    pub open spec fn push(self, byte: u8) -> QueueState {
        if self.initialized && self.bytes.len() < self.capacity {
            QueueState {
                bytes: self.bytes.push(byte),
                waker: if self.bytes.len() == 0 {
                    None
                } else {
                    self.waker
                },
                ..self
            }
        } else {
            self
        }
    }

    /// What the consumer gets: the oldest byte, or nothing yet.
    pub open spec fn poll_result(self) -> Poll<u8> {
        if self.bytes.len() > 0 {
            Poll::Ready(self.bytes.first())
        } else {
            Poll::Pending
        }
    }

    /// The queue after the consumer, task `waker`, has polled: the oldest
    /// byte has left, or, where there is none, the task waits for one.
    pub open spec fn poll(self, waker: TaskId) -> QueueState {
        if self.bytes.len() > 0 {
            QueueState { bytes: self.bytes.drop_first(), ..self }
        } else {
            QueueState { waker: Some(waker), ..self }
        }
    }
}

/// The queue of scancodes between the keyboard interrupt and the task that
/// reads them.
pub struct ScancodeQueue {
    queue: Option<ArrayQueue<u8>>,
    waker: Option<TaskId>,
}

impl View for ScancodeQueue {
    type V = QueueState;

    closed spec fn view(&self) -> QueueState {
        match self.queue {
            Some(queue) => QueueState {
                initialized: true,
                capacity: queue_capacity(queue),
                bytes: queued(queue),
                waker: self.waker,
            },
            None => QueueState {
                initialized: false,
                capacity: 0,
                bytes: Seq::empty(),
                waker: self.waker,
            },
        }
    }
}

impl ScancodeQueue {
    #[verifier::type_invariant]
    spec fn well_formed(self) -> bool {
        self@.bytes.len() <= self@.capacity
    }

    /// A queue that has not been initialised yet.
    pub fn uninit() -> (r: Self)
        ensures
            r@ == (QueueState {
                initialized: false,
                capacity: 0,
                bytes: Seq::empty(),
                waker: None,
            }),
    {
        ScancodeQueue { queue: None, waker: None }
    }

    /// Whether the queue has been initialised.
    pub fn is_initialized(&self) -> (r: bool)
        ensures
            r == self@.initialized,
            self@.wf(),
    {
        proof {
            use_type_invariant(self);
        }
        self.queue.is_some()
    }

    /// Initialises the queue with room for `capacity` bytes. This is done
    /// once, before the first interrupt that needs the queue.
    pub fn init(&mut self, capacity: usize)
        requires
            !old(self)@.initialized,
            is_power_of_two(capacity as nat),
            capacity <= MAX_CAPACITY,
        ensures
            final(self)@ == (QueueState {
                initialized: true,
                capacity: capacity as nat,
                bytes: Seq::empty(),
                waker: old(self)@.waker,
            }),
    {
        assert(capacity > 0) by {
            reveal_with_fuel(is_power_of_two, 1);
        }
        let waker = self.waker;
        *self = ScancodeQueue { queue: Some(queue_new(capacity)), waker };
    }

    /// Gives the consumer, task `waker`, the oldest byte. Where the queue
    /// holds none, the task is noted as the one to wake on the next byte.
    pub fn poll_next(&mut self, waker: TaskId) -> (r: Poll<u8>)
        ensures
            final(self)@ == old(self)@.poll(waker),
            r == old(self)@.poll_result(),
            final(self)@.wf(),
    {
        proof {
            use_type_invariant(&*self);
        }
        let mut taken = ScancodeQueue::uninit();
        core::mem::swap(self, &mut taken);
        let ScancodeQueue { queue, waker: waiting } = taken;
        match queue {
            Some(mut queue) => {
                let popped = queue_pop(&mut queue);
                match popped {
                    Some(scancode) => {
                        *self = ScancodeQueue { queue: Some(queue), waker: waiting };
                        Poll::Ready(scancode)
                    },
                    None => {
                        *self = ScancodeQueue { queue: Some(queue), waker: Some(waker) };
                        Poll::Pending
                    },
                }
            },
            None => {
                *self = ScancodeQueue { queue: None, waker: Some(waker) };
                Poll::Pending
            },
        }
    }
}

/// Takes a scancode from the keyboard interrupt.
///
/// The byte goes to the end of the queue. A full queue drops it, and on a
/// queue that has not been initialised it is lost; either way the caller
/// never waits. Where the byte went into an empty queue, the task that
/// waits for it, if any, is returned: it is to be woken.
pub fn add_scancode(queue: &mut ScancodeQueue, scancode: u8) -> (r: Result<
    Option<TaskId>,
    QueueError,
>)
    ensures
        final(queue)@ == old(queue)@.push(scancode),
        r == old(queue)@.push_result(scancode),
        final(queue)@.wf(),
{
    proof {
        use_type_invariant(&*queue);
    }
    let mut taken = ScancodeQueue::uninit();
    core::mem::swap(queue, &mut taken);
    let ScancodeQueue { queue: bytes, waker } = taken;
    match bytes {
        Some(mut bytes) => {
            let was_empty = queue_is_empty(&bytes);
            let pushed = queue_push(&mut bytes, scancode);
            match pushed {
                Ok(()) => {
                    if was_empty {
                        *queue = ScancodeQueue { queue: Some(bytes), waker: None };
                        Ok(waker)
                    } else {
                        *queue = ScancodeQueue { queue: Some(bytes), waker };
                        Ok(None)
                    }
                },
                Err(_) => {
                    *queue = ScancodeQueue { queue: Some(bytes), waker };
                    Err(QueueError::Overflow)
                },
            }
        },
        None => {
            *queue = ScancodeQueue { queue: None, waker };
            Err(QueueError::Uninitialized)
        },
    }
}

/// What happens to a scancode queue.
pub enum QueueEvent {
    /// The producer pushes this byte.
    Push(u8),
    /// The consumer, the task named here, polls for a byte.
    Poll(TaskId),
}

impl QueueState {
    /// The queue after `event`.
    pub open spec fn step(self, event: QueueEvent) -> QueueState {
        match event {
            QueueEvent::Push(byte) => self.push(byte),
            QueueEvent::Poll(waker) => self.poll(waker),
        }
    }

    /// The queue after the events of `events`, in their order.
    pub open spec fn run(self, events: Seq<QueueEvent>) -> QueueState
        decreases events.len(),
    {
        if events.len() == 0 {
            self
        } else {
            self.run(events.drop_last()).step(events.last())
        }
    }

    /// The bytes that the pushes of `events` put into the queue, in their
    /// order. A byte that is lost or dropped is not among them.
    pub open spec fn accepted(self, events: Seq<QueueEvent>) -> Seq<u8>
        decreases events.len(),
    {
        if events.len() == 0 {
            Seq::empty()
        } else {
            let before = self.accepted(events.drop_last());
            match events.last() {
                QueueEvent::Push(byte) => if self.run(events.drop_last()).push_result(byte) is Ok {
                    before.push(byte)
                } else {
                    before
                },
                QueueEvent::Poll(_) => before,
            }
        }
    }

    /// The bytes that the polls of `events` gave the consumer, in their
    /// order.
    pub open spec fn consumed(self, events: Seq<QueueEvent>) -> Seq<u8>
        decreases events.len(),
    {
        if events.len() == 0 {
            Seq::empty()
        } else {
            let before = self.consumed(events.drop_last());
            match events.last() {
                QueueEvent::Push(_) => before,
                QueueEvent::Poll(_) => match self.run(events.drop_last()).poll_result() {
                    Poll::Ready(byte) => before.push(byte),
                    Poll::Pending => before,
                },
            }
        }
    }
}

/// A queue never holds more bytes than it has room for, and the consumer
/// gets the bytes in the order in which they went in: what it has got so
/// far, followed by what the queue still holds, is what the queue held at
/// first followed by every byte that a push put in. A byte that was dropped
/// leaves no trace.
pub proof fn lemma_queue_is_fifo(start: QueueState, events: Seq<QueueEvent>)
    requires
        start.wf(),
    ensures
        start.run(events).wf(),
        start.run(events).capacity == start.capacity,
        start.consumed(events) + start.run(events).bytes == start.bytes + start.accepted(events),
    decreases events.len(),
{
    if events.len() == 0 {
        assert(start.consumed(events) + start.bytes =~= start.bytes + start.accepted(events));
    } else {
        lemma_queue_is_fifo(start, events.drop_last());
        let before = start.run(events.drop_last());
        let got = start.consumed(events.drop_last());
        let put = start.accepted(events.drop_last());
        assert(got + before.bytes == start.bytes + put);
        match events.last() {
            QueueEvent::Push(byte) => {
                if before.push_result(byte) is Ok {
                    assert(got + before.bytes.push(byte) =~= (got + before.bytes).push(byte));
                    assert(start.bytes + put.push(byte) =~= (start.bytes + put).push(byte));
                }
            },
            QueueEvent::Poll(_) => {
                if before.bytes.len() > 0 {
                    assert(got.push(before.bytes.first()) + before.bytes.drop_first() =~= got
                        + before.bytes);
                }
            },
        }
    }
}

} // verus!

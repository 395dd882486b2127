//! Tasks: units of asynchronous work, and what runs and wakes them.

use vstd::prelude::*;

pub mod executor;
pub mod keyboard;

verus! {

/// The number that tells one task from every other.
#[derive(Debug, Clone, Copy, PartialEq, Eq, Structural, PartialOrd, Ord)]
pub struct TaskId(pub u64);

impl TaskId {
    /// Takes the next identifier from `counter` and moves the counter on.
    ///
    /// The counter starts over after `u64::MAX`.
    pub fn new(counter: &mut u64) -> (r: TaskId)
        ensures
            r.0 == *old(counter),
            *final(counter) == (if *old(counter) == u64::MAX {
                0
            } else {
                *old(counter) + 1
            }),
    {
        let id = *counter;
        *counter = if id == u64::MAX {
            0
        } else {
            id + 1
        };
        TaskId(id)
    }
}

/// What polling a task or a stream gives.
#[derive(Debug, PartialEq, Eq, Structural)]
pub enum Poll<T> {
    /// The value is there.
    Ready(T),
    /// Nothing yet: the one who polled is woken when there is.
    Pending,
}

/// A unit of asynchronous work: it owns its future from creation on.
pub struct Task<F> {
    future: F,
}

impl<F> View for Task<F> {
    type V = F;

    closed spec fn view(&self) -> F {
        self.future
    }
}

impl<F> Task<F> {
    /// The task that runs `future`.
    pub fn new(future: F) -> (r: Task<F>)
        ensures
            r@ == future,
    {
        Task { future }
    }

    /// The task's future, for the one who polls it.
    pub fn future_mut(&mut self) -> (r: &mut F)
        ensures
            *r == old(self)@,
            final(self)@ == *final(r),
    {
        &mut self.future
    }

    /// Ends the task and gives its future back.
    pub fn into_future(self) -> (r: F)
        ensures
            r == self@,
    {
        self.future
    }
}

} // verus!

//! The executor: which tasks are alive, which are ready to be polled, and
//! how a task gets from one state to the other.
//!
//! The executor decides; its caller polls. A task is handed out to be
//! polled and handed back with the outcome, and whoever holds a task's
//! waker reports a wake by the task's identifier.

use super::{Poll, Task, TaskId};
use std::collections::{BTreeMap, VecDeque};
use vstd::prelude::*;

verus! {

/// The number of tasks that an executor holds at most, which is also the
/// room in its ready queue.
pub const TASK_QUEUE_CAPACITY: usize = 100;

/// An executor as plain values.
pub struct ExecutorState<F> {
    /// The tasks at rest, each under its identifier.
    pub tasks: Map<u64, Task<F>>,
    /// The task that is out to be polled, if one is.
    pub running: Option<u64>,
    /// The tasks that are ready to be polled, the next one first.
    pub ready: Seq<u64>,
    /// The tasks for which a waker has been made.
    pub wakers: Set<u64>,
    /// The identifier that the next task gets.
    pub next_id: u64,
}

impl<F> ExecutorState<F> {
    /// The tasks that have been spawned and have not completed.
    pub open spec fn live(self) -> Set<u64> {
        match self.running {
            Some(id) => self.tasks.dom().insert(id),
            None => self.tasks.dom(),
        }
    }

    /// What holds of every executor: the ready queue names live tasks only,
    /// and none twice; wakers are kept for live tasks only; no identifier
    /// is in use that is still to be given out; and the tasks are no more
    /// than the ready queue has room for.
    pub open spec fn wf(self) -> bool {
        &&& self.tasks.dom().finite()
        &&& self.ready.no_duplicates()
        &&& forall|i: int| 0 <= i < self.ready.len() ==> self.live().contains(#[trigger] self.ready[i])
        &&& forall|id: u64| #[trigger] self.wakers.contains(id) ==> self.live().contains(id)
        &&& (self.running matches Some(id) ==> !self.tasks.contains_key(id))
        &&& forall|id: u64| #[trigger] self.live().contains(id) ==> id < self.next_id
        &&& self.live().len() <= TASK_QUEUE_CAPACITY
    }

    /// The executor that has no task yet.
    pub open spec fn empty() -> Self {
        ExecutorState {
            tasks: Map::empty(),
            running: None,
            ready: Seq::empty(),
            wakers: Set::empty(),
            next_id: 0,
        }
    }

    /// There is room for one more task, and an identifier for it.
    pub open spec fn can_spawn(self) -> bool {
        self.live().len() < TASK_QUEUE_CAPACITY && self.next_id < u64::MAX
    }

    /// The executor after it has taken `task`: the task has the next
    /// identifier and stands at the end of the ready queue.
    pub open spec fn spawn(self, task: Task<F>) -> Self {
        ExecutorState {
            tasks: self.tasks.insert(self.next_id, task),
            ready: self.ready.push(self.next_id),
            next_id: (self.next_id + 1) as u64,
            ..self
        }
    }

    /// The executor after it has handed out the first task of the ready
    /// queue to be polled: the task has left the queue and has a waker.
    /// With an empty queue nothing changes.
    pub open spec fn begin_poll(self) -> Self {
        if self.ready.len() > 0 {
            ExecutorState {
                tasks: self.tasks.remove(self.ready.first()),
                running: Some(self.ready.first()),
                ready: self.ready.drop_first(),
                wakers: self.wakers.insert(self.ready.first()),
                ..self
            }
        } else {
            self
        }
    }

    /// The ready queue without `id`.
    pub open spec fn ready_without(self, id: u64) -> Seq<u64> {
        if self.ready.contains(id) {
            self.ready.remove(self.ready.index_of(id))
        } else {
            self.ready
        }
    }

    /// The executor after the task that was out has come back as `task`
    /// with `outcome`. A task that is done is gone, with its waker and its
    /// place in the ready queue, if it had one. A task that is not done is
    /// at rest again, and is not put into the ready queue.
    pub open spec fn end_poll(self, task: Task<F>, outcome: Poll<()>) -> Self {
        match self.running {
            Some(id) => match outcome {
                Poll::Ready(_) => ExecutorState {
                    running: None,
                    ready: self.ready_without(id),
                    wakers: self.wakers.remove(id),
                    ..self
                },
                Poll::Pending => ExecutorState {
                    tasks: self.tasks.insert(id, task),
                    running: None,
                    ..self
                },
            },
            None => self,
        }
    }

    /// The executor after the waker of task `id` was invoked: a live task
    /// that is not in the ready queue is put at its end. Nothing changes for
    /// a task that is in the queue already, or that is not alive.
    pub open spec fn wake(self, id: u64) -> Self {
        if self.live().contains(id) && !self.ready.contains(id) {
            ExecutorState { ready: self.ready.push(id), ..self }
        } else {
            self
        }
    }
}

/// What happens to an executor.
pub enum ExecutorEvent<F> {
    /// A task is spawned.
    Spawn(Task<F>),
    /// The first task of the ready queue is handed out to be polled.
    BeginPoll,
    /// The task that was out comes back with the outcome of the poll.
    EndPoll(Task<F>, Poll<()>),
    /// The waker of the task with this identifier is invoked.
    Wake(u64),
}

impl<F> ExecutorState<F> {
    /// Whether `event` may happen: a spawn needs room, and tasks are
    /// handed out and taken back in turn.
    pub open spec fn admits(self, event: ExecutorEvent<F>) -> bool {
        match event {
            ExecutorEvent::Spawn(_) => self.can_spawn(),
            ExecutorEvent::BeginPoll => self.running is None,
            ExecutorEvent::EndPoll(_, _) => self.running is Some,
            ExecutorEvent::Wake(_) => true,
        }
    }

    /// The executor after `event`.
    pub open spec fn step(self, event: ExecutorEvent<F>) -> Self {
        match event {
            ExecutorEvent::Spawn(task) => self.spawn(task),
            ExecutorEvent::BeginPoll => self.begin_poll(),
            ExecutorEvent::EndPoll(task, outcome) => self.end_poll(task, outcome),
            ExecutorEvent::Wake(id) => self.wake(id),
        }
    }

    /// The executor after the events of `events`, in their order.
    pub open spec fn run(self, events: Seq<ExecutorEvent<F>>) -> Self
        decreases events.len(),
    {
        if events.len() == 0 {
            self
        } else {
            self.run(events.drop_last()).step(events.last())
        }
    }

    /// Each event of `events` may happen to the executor that the events
    /// before it have left.
    pub open spec fn admits_all(self, events: Seq<ExecutorEvent<F>>) -> bool {
        forall|n: int| 0 <= n < events.len() ==> #[trigger] self.run(events.take(n)).admits(events[n])
    }

    /// The tasks that were handed out to be polled in the course of
    /// `events`, in their order.
    pub open spec fn polled(self, events: Seq<ExecutorEvent<F>>) -> Seq<u64>
        decreases events.len(),
    {
        if events.len() == 0 {
            Seq::empty()
        } else {
            let before = self.run(events.drop_last());
            if events.last() is BeginPoll && before.ready.len() > 0 {
                self.polled(events.drop_last()).push(before.ready.first())
            } else {
                self.polled(events.drop_last())
            }
        }
    }
}

/// The ready queue is never longer than the tasks are many, so that it
/// always has room for a task that is woken.
pub proof fn lemma_ready_queue_bounded<F>(state: ExecutorState<F>)
    requires
        state.wf(),
    ensures
        state.ready.len() <= state.live().len() <= TASK_QUEUE_CAPACITY,
        state.live().finite(),
{
    state.ready.unique_seq_to_set();
    assert(state.ready.to_set().subset_of(state.live())) by {
        assert forall|id: u64| state.ready.to_set().contains(id) implies state.live().contains(
            id,
        ) by {
            let i = choose|i: int| 0 <= i < state.ready.len() && state.ready[i] == id;
            assert(state.live().contains(state.ready[i]));
        }
    }
    vstd::set_lib::lemma_len_subset(state.ready.to_set(), state.live());
}

/// An event that may happen leaves an executor of which all still holds
/// that holds of every executor.
pub proof fn lemma_step_keeps_wf<F>(state: ExecutorState<F>, event: ExecutorEvent<F>)
    requires
        state.wf(),
        state.admits(event),
    ensures
        state.step(event).wf(),
{
    let after = state.step(event);
    lemma_ready_queue_bounded(state);
    match event {
        ExecutorEvent::Spawn(task) => {
            assert(!state.live().contains(state.next_id));
            assert(after.live() =~= state.live().insert(state.next_id));
            assert(after.ready.no_duplicates()) by {
                assert forall|i: int| 0 <= i < state.ready.len() implies state.ready[i]
                    != state.next_id by {
                    assert(state.live().contains(state.ready[i]));
                }
            }
        },
        ExecutorEvent::BeginPoll => {
            if state.ready.len() > 0 {
                let id = state.ready.first();
                assert(state.live().contains(state.ready[0]));
                assert(after.live() =~= state.live());
                assert forall|i: int| 0 <= i < after.ready.len() implies after.live().contains(
                    #[trigger] after.ready[i],
                ) by {
                    assert(after.ready[i] == state.ready[i + 1]);
                }
            }
        },
        ExecutorEvent::EndPoll(task, outcome) => {
            let id = state.running.unwrap();
            match outcome {
                Poll::Ready(_) => {
                    assert(after.live() =~= state.live().remove(id));
                    lemma_ready_without(state, id);
                },
                Poll::Pending => {
                    assert(after.live() =~= state.live());
                },
            }
        },
        ExecutorEvent::Wake(id) => {
            if state.live().contains(id) && !state.ready.contains(id) {
                assert(after.ready.no_duplicates());
            }
        },
    }
}

/// The ready queue without `id` holds every other task of the ready queue
/// in its place, and `id` no more.
pub proof fn lemma_ready_without<F>(state: ExecutorState<F>, id: u64)
    requires
        state.ready.no_duplicates(),
    ensures
        state.ready_without(id).no_duplicates(),
        !state.ready_without(id).contains(id),
        forall|other: u64|
            other != id ==> (#[trigger] state.ready_without(id).contains(other)
                <==> state.ready.contains(other)),
{
    let rest = state.ready_without(id);
    if state.ready.contains(id) {
        let at = state.ready.index_of(id);
        assert forall|other: u64| other != id implies (#[trigger] rest.contains(other)
            <==> state.ready.contains(other)) by {
            if state.ready.contains(other) {
                let i = choose|i: int| 0 <= i < state.ready.len() && state.ready[i] == other;
                if i < at {
                    assert(rest[i] == other);
                } else {
                    assert(rest[i - 1] == other);
                }
            }
        }
    }
}

/// Where an executor admits a run of events, it admits the run without its
/// last event.
proof fn lemma_admits_prefix<F>(start: ExecutorState<F>, events: Seq<ExecutorEvent<F>>)
    requires
        start.admits_all(events),
        events.len() > 0,
    ensures
        start.admits_all(events.drop_last()),
        start.run(events.drop_last()).admits(events.last()),
{
    let before = events.drop_last();
    assert forall|n: int| 0 <= n < before.len() implies #[trigger] start.run(
        before.take(n),
    ).admits(before[n]) by {
        assert(before.take(n) =~= events.take(n));
    }
    assert(events.take(events.len() - 1) =~= before);
}

/// Through a run of events, each of which may happen, all holds that holds
/// of every executor.
pub proof fn lemma_run_keeps_wf<F>(start: ExecutorState<F>, events: Seq<ExecutorEvent<F>>)
    requires
        start.wf(),
        start.admits_all(events),
    ensures
        start.run(events).wf(),
    decreases events.len(),
{
    if events.len() > 0 {
        lemma_admits_prefix(start, events);
        lemma_run_keeps_wf(start, events.drop_last());
        lemma_step_keeps_wf(start.run(events.drop_last()), events.last());
    }
}

/// No event of `events` is a wake of task `id`.
pub open spec fn never_woken<F>(events: Seq<ExecutorEvent<F>>, id: u64) -> bool {
    forall|n: int|
        0 <= n < events.len() ==> !((#[trigger] events[n]) matches ExecutorEvent::Wake(woken)
            && woken == id)
}

/// A task that is not done and whose waker nobody invokes is stuck: as
/// long as no wake of it comes, it stays alive, it does not enter the ready
/// queue, and it is not polled again.
pub proof fn lemma_unwoken_task_is_not_polled<F>(
    start: ExecutorState<F>,
    events: Seq<ExecutorEvent<F>>,
    id: u64,
)
    requires
        start.wf(),
        start.admits_all(events),
        start.tasks.contains_key(id),
        !start.ready.contains(id),
        never_woken(events, id),
    ensures
        start.run(events).tasks.contains_key(id),
        start.run(events).tasks[id] == start.tasks[id],
        !start.run(events).ready.contains(id),
        start.run(events).running != Some(id),
        !start.polled(events).contains(id),
    decreases events.len(),
{
    if events.len() > 0 {
        lemma_admits_prefix(start, events);
        let earlier = events.drop_last();
        assert(never_woken(earlier, id)) by {
            assert forall|n: int| 0 <= n < earlier.len() implies !((#[trigger] earlier[n]) matches ExecutorEvent::Wake(
                woken,
            ) && woken == id) by {
                assert(earlier[n] == events[n]);
            }
        }
        lemma_unwoken_task_is_not_polled(start, earlier, id);
        lemma_run_keeps_wf(start, earlier);
        let before = start.run(earlier);
        let after = before.step(events.last());
        assert(before.live().contains(id));
        match events.last() {
            ExecutorEvent::Spawn(_) => {},
            ExecutorEvent::BeginPoll => {
                if before.ready.len() > 0 {
                    assert(before.ready[0] != id);
                    assert forall|i: int| 0 <= i < after.ready.len() implies after.ready[i]
                        != id by {
                        assert(after.ready[i] == before.ready[i + 1]);
                    }
                }
            },
            ExecutorEvent::EndPoll(_, outcome) => {
                lemma_ready_without(before, before.running.unwrap());
            },
            ExecutorEvent::Wake(woken) => {
                assert(events[events.len() - 1] == events.last());
                assert(woken != id);
            },
        }
    }
}

/// A task that is in the ready queue stays there until it is polled, and
/// while it is there the ready queue is not empty. So a task that is woken
/// while it is out to be polled, and is not done, is polled once more
/// before the executor finds nothing to do.
pub proof fn lemma_woken_task_is_polled<F>(
    start: ExecutorState<F>,
    events: Seq<ExecutorEvent<F>>,
    id: u64,
)
    requires
        start.wf(),
        start.admits_all(events),
        start.ready.contains(id),
        start.running != Some(id),
    ensures
        start.polled(events).contains(id) || (start.run(events).ready.contains(id)
            && start.run(events).running != Some(id)),
        !start.polled(events).contains(id) ==> start.run(events).ready.len() > 0,
    decreases events.len(),
{
    if events.len() > 0 {
        lemma_admits_prefix(start, events);
        let earlier = events.drop_last();
        lemma_woken_task_is_polled(start, earlier, id);
        lemma_run_keeps_wf(start, earlier);
        let before = start.run(earlier);
        let after = before.step(events.last());
        let polled = start.polled(earlier);
        if polled.contains(id) {
            let at = choose|i: int| 0 <= i < polled.len() && polled[i] == id;
            assert(start.polled(events)[at] == id);
        } else {
            let at = choose|i: int| 0 <= i < before.ready.len() && before.ready[i] == id;
            match events.last() {
                ExecutorEvent::Spawn(_) => {
                    assert(after.ready[at] == id);
                },
                ExecutorEvent::BeginPoll => {
                    if at == 0 {
                        assert(start.polled(events)[polled.len() as int] == id);
                    } else {
                        assert(after.ready[at - 1] == id);
                    }
                },
                ExecutorEvent::EndPoll(_, outcome) => {
                    lemma_ready_without(before, before.running.unwrap());
                },
                ExecutorEvent::Wake(woken) => {
                    assert(after.ready[at] == id);
                },
            }
        }
    }
}

/// A wake of the task that is out to be polled puts it into the ready
/// queue, and it is still there when the task comes back not done.
pub proof fn lemma_wake_during_poll_requeues<F>(state: ExecutorState<F>, task: Task<F>)
    requires
        state.wf(),
        state.running is Some,
    ensures
        state.wake(state.running.unwrap()).ready.contains(state.running.unwrap()),
        state.wake(state.running.unwrap()).end_poll(task, Poll::Pending).ready.contains(
            state.running.unwrap(),
        ),
        state.wake(state.running.unwrap()).end_poll(task, Poll::Pending).running is None,
{
    let id = state.running.unwrap();
    let woken = state.wake(id);
    if !state.ready.contains(id) {
        assert(woken.ready[state.ready.len() as int] == id);
    }
}

/// The handle by which a task is woken: it names the task.
#[derive(Debug, Clone, Copy, PartialEq, Eq)]
pub struct TaskWaker {
    task_id: TaskId,
}

impl View for TaskWaker {
    type V = TaskId;

    closed spec fn view(&self) -> TaskId {
        self.task_id
    }
}

impl TaskWaker {
    /// The waker of task `task_id`.
    pub fn new(task_id: TaskId) -> (r: TaskWaker)
        ensures
            r@ == task_id,
    {
        TaskWaker { task_id }
    }

    /// The task that this waker wakes.
    pub fn task_id(&self) -> (r: TaskId)
        ensures
            r == self@,
    {
        self.task_id
    }

    /// Wakes the task: it is put into the ready queue of `executor`, unless
    /// it is there already or is no longer alive.
    pub fn wake_task<F>(&self, executor: &mut Executor<F>)
        ensures
            final(executor)@ == old(executor)@.wake(self@.0),
    {
        executor.wake(self.task_id);
    }
}

/// A task that was handed out to be polled.
pub struct ReadyTask<F> {
    /// The task's identifier.
    pub id: TaskId,
    /// The task itself.
    pub task: Task<F>,
    /// The waker to poll the task with.
    pub waker: TaskWaker,
}

/// The executor: it owns the tasks and knows which of them are ready.
pub struct Executor<F> {
    tasks: BTreeMap<u64, Task<F>>,
    task_queue: VecDeque<u64>,
    waker_cache: BTreeMap<u64, TaskWaker>,
    running: Option<u64>,
    next_id: u64,
}

impl<F> View for Executor<F> {
    type V = ExecutorState<F>;

    closed spec fn view(&self) -> ExecutorState<F> {
        ExecutorState {
            tasks: self.tasks@,
            running: self.running,
            ready: self.task_queue@,
            wakers: self.waker_cache@.dom(),
            next_id: self.next_id,
        }
    }
}

impl<F> Executor<F> {
    #[verifier::type_invariant]
    spec fn well_formed(self) -> bool {
        &&& self@.wf()
        &&& forall|id: u64| #[trigger]
            self.waker_cache@.contains_key(id) ==> self.waker_cache@[id]@ == TaskId(id)
    }

    /// An executor without tasks.
    pub fn new() -> (r: Self)
        ensures
            r@ == ExecutorState::<F>::empty(),
    {
        Executor {
            tasks: BTreeMap::new(),
            task_queue: VecDeque::new(),
            waker_cache: BTreeMap::new(),
            running: None,
            next_id: 0,
        }
    }

    /// Takes the executor's parts out and leaves an empty executor.
    fn take(&mut self) -> (r: Self)
        ensures
            r == *old(self),
            r.well_formed(),
    {
        proof {
            use_type_invariant(&*self);
        }
        let mut taken = Executor::new();
        core::mem::swap(self, &mut taken);
        taken
    }

    /// Whether the executor can take one more task.
    pub fn can_spawn(&self) -> (r: bool)
        ensures
            r == self@.can_spawn(),
            self@.wf(),
    {
        proof {
            use_type_invariant(self);
            lemma_ready_queue_bounded(self@);
        }
        broadcast use vstd::std_specs::btree::group_btree_axioms;

        let at_rest = self.tasks.len();
        assert(at_rest == self@.tasks.dom().len());
        let live = match self.running {
            Some(_) => at_rest + 1,
            None => at_rest,
        };
        live < TASK_QUEUE_CAPACITY && self.next_id < u64::MAX
    }

    /// Takes `task`, gives it the next identifier and puts it at the end of
    /// the ready queue.
    ///
    /// The executor holds no more tasks than its ready queue has places, so
    /// that a task that is woken always finds room there.
    pub fn spawn(&mut self, task: Task<F>)
        requires
            old(self)@.can_spawn(),
        ensures
            final(self)@ == old(self)@.spawn(task),
            final(self)@.wf(),
    {
        broadcast use vstd::std_specs::btree::group_btree_axioms;

        let Executor { mut tasks, mut task_queue, waker_cache, running, mut next_id } = self.take();
        let ghost before = old(self)@;
        let task_id = TaskId::new(&mut next_id);
        tasks.insert(task_id.0, task);
        task_queue.push_back(task_id.0);
        proof {
            lemma_step_keeps_wf(before, ExecutorEvent::Spawn(task));
        }
        *self = Executor { tasks, task_queue, waker_cache, running, next_id };
    }

    /// Whether the ready queue is empty: there is nothing to poll until a
    /// task is woken or spawned.
    pub fn is_idle(&self) -> (r: bool)
        ensures
            r == (self@.ready.len() == 0),
    {
        self.task_queue.len() == 0
    }

    /// Whether the task `id` is alive: spawned and not completed.
    pub fn contains_task(&self, id: TaskId) -> (r: bool)
        ensures
            r == self@.live().contains(id.0),
    {
        broadcast use vstd::std_specs::btree::group_btree_axioms;

        match self.running {
            Some(running) => running == id.0 || self.tasks.contains_key(&id.0),
            None => self.tasks.contains_key(&id.0),
        }
    }

    /// Whether a task is out to be polled.
    pub fn is_polling(&self) -> (r: bool)
        ensures
            r == (self@.running is Some),
    {
        self.running.is_some()
    }

    /// The place of `id` in the ready queue, if it is there.
    fn queue_position(task_queue: &VecDeque<u64>, id: u64) -> (r: Option<usize>)
        ensures
            r matches Some(at) ==> at < task_queue@.len() && task_queue@[at as int] == id,
            r is None ==> !task_queue@.contains(id),
    {
        let mut at: usize = 0;
        while at < task_queue.len()
            invariant
                at <= task_queue@.len(),
                forall|i: int| 0 <= i < at ==> task_queue@[i] != id,
            decreases task_queue@.len() - at,
        {
            if task_queue[at] == id {
                return Some(at);
            }
            at += 1;
        }
        None
    }

    /// Hands out the first task of the ready queue to be polled, with its
    /// waker, which is made on the task's first poll and kept from then on.
    /// With an empty ready queue it gives `None`.
    pub fn begin_poll(&mut self) -> (r: Option<ReadyTask<F>>)
        requires
            old(self)@.running is None,
        ensures
            final(self)@ == old(self)@.begin_poll(),
            final(self)@.wf(),
            match r {
                Some(ready) => {
                    &&& old(self)@.ready.len() > 0
                    &&& ready.id == TaskId(old(self)@.ready.first())
                    &&& old(self)@.tasks.contains_key(ready.id.0)
                    &&& ready.task == old(self)@.tasks[ready.id.0]
                    &&& ready.waker@ == ready.id
                },
                None => old(self)@.ready.len() == 0,
            },
    {
        broadcast use vstd::std_specs::btree::group_btree_axioms;

        let Executor { mut tasks, mut task_queue, mut waker_cache, running, next_id } = self.take();
        let ghost before = old(self)@;
        match task_queue.pop_front() {
            Some(id) => {
                assert(before.live().contains(before.ready[0]));
                // every identifier in the ready queue names a task at rest
                let task = tasks.remove(&id).unwrap();
                let waker = match waker_cache.get(&id) {
                    Some(waker) => *waker,
                    None => {
                        let waker = TaskWaker::new(TaskId(id));
                        waker_cache.insert(id, waker);
                        waker
                    },
                };
                proof {
                    lemma_step_keeps_wf(before, ExecutorEvent::BeginPoll);
                    assert(task_queue@ =~= before.ready.drop_first());
                    assert(waker_cache@.dom() =~= before.wakers.insert(id));
                }
                *self = Executor { tasks, task_queue, waker_cache, running: Some(id), next_id };
                Some(ReadyTask { id: TaskId(id), task, waker })
            },
            None => {
                *self = Executor { tasks, task_queue, waker_cache, running, next_id };
                None
            },
        }
    }

    /// Takes back the task that was out, with the outcome of its poll.
    ///
    /// A task that is done is dropped with its waker, and leaves the ready
    /// queue if a wake during the poll had put it there. A task that is not
    /// done is kept; it is polled again only after it has been woken.
    pub fn end_poll(&mut self, task: Task<F>, outcome: Poll<()>)
        requires
            old(self)@.running is Some,
        ensures
            final(self)@ == old(self)@.end_poll(task, outcome),
            final(self)@.wf(),
    {
        broadcast use vstd::std_specs::btree::group_btree_axioms;

        let Executor { mut tasks, mut task_queue, mut waker_cache, running, next_id } = self.take();
        let ghost before = old(self)@;
        let id = running.unwrap();
        proof {
            lemma_step_keeps_wf(before, ExecutorEvent::EndPoll(task, outcome));
        }
        match outcome {
            Poll::Ready(()) => {
                waker_cache.remove(&id);
                match Self::queue_position(&task_queue, id) {
                    Some(at) => {
                        task_queue.remove(at);
                        proof {
                            let found = before.ready.index_of(id);
                            assert(before.ready[found] == id);
                            assert(found == at);
                        }
                    },
                    None => {},
                }
                *self = Executor { tasks, task_queue, waker_cache, running: None, next_id };
            },
            Poll::Pending => {
                tasks.insert(id, task);
                *self = Executor { tasks, task_queue, waker_cache, running: None, next_id };
            },
        }
    }

    /// Reports that the waker of task `id` was invoked.
    ///
    /// A live task that is not in the ready queue is put at its end. For a
    /// task that is in the queue already, or that has completed, nothing
    /// happens.
    pub fn wake(&mut self, id: TaskId)
        ensures
            final(self)@ == old(self)@.wake(id.0),
            final(self)@.wf(),
    {
        broadcast use vstd::std_specs::btree::group_btree_axioms;

        let alive = self.contains_task(id);
        let Executor { tasks, mut task_queue, waker_cache, running, next_id } = self.take();
        let ghost before = old(self)@;
        proof {
            lemma_step_keeps_wf(before, ExecutorEvent::Wake(id.0));
        }
        if alive && Self::queue_position(&task_queue, id.0).is_none() {
            task_queue.push_back(id.0);
        }
        *self = Executor { tasks, task_queue, waker_cache, running, next_id };
    }
}

} // verus!

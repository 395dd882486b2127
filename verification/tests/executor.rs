use wos_os_n71::task::executor::{Executor, TaskWaker, TASK_QUEUE_CAPACITY};
use wos_os_n71::task::keyboard::{add_scancode, ScancodeQueue};
use wos_os_n71::task::{Poll, Task, TaskId};

/// A future for the tests: it counts its polls and is done after a given
/// number of them. While it is polled it may wake itself.
struct Script {
    polls: usize,
    done_after: usize,
    wakes_itself: bool,
}

fn script(done_after: usize, wakes_itself: bool) -> Task<Script> {
    Task::new(Script { polls: 0, done_after, wakes_itself })
}

/// Polls the next ready task once, as the run loop does. Gives the task's
/// identifier and what the poll gave.
fn run_one(executor: &mut Executor<Script>, log: &mut Vec<u64>) -> Option<(TaskId, Poll<()>)> {
    let mut ready = executor.begin_poll()?;
    log.push(ready.id.0);
    let future = ready.task.future_mut();
    future.polls += 1;
    let wakes_itself = future.wakes_itself;
    let done = future.polls >= future.done_after;
    if wakes_itself {
        ready.waker.wake_task(executor);
    }
    let outcome = if done { Poll::Ready(()) } else { Poll::Pending };
    let again = if done { Poll::Ready(()) } else { Poll::Pending };
    executor.end_poll(ready.task, outcome);
    Some((ready.id, again))
}

fn run_ready_tasks(executor: &mut Executor<Script>, log: &mut Vec<u64>) {
    let mut rounds = 0;
    while run_one(executor, log).is_some() {
        rounds += 1;
        assert!(rounds < 10_000);
    }
}

#[test]
fn task_id_counts_up() {
    let mut counter = 0;
    assert_eq!(TaskId::new(&mut counter), TaskId(0));
    assert_eq!(TaskId::new(&mut counter), TaskId(1));
    assert_eq!(TaskId::new(&mut counter), TaskId(2));
    assert_eq!(counter, 3);
    let mut last = u64::MAX;
    assert_eq!(TaskId::new(&mut last), TaskId(u64::MAX));
    assert_eq!(last, 0);
}

#[test]
fn task_keeps_its_future() {
    let mut task = Task::new(41u32);
    *task.future_mut() += 1;
    assert_eq!(task.into_future(), 42);
}

#[test]
fn new_executor_is_idle() {
    let mut executor: Executor<Script> = Executor::new();
    assert!(executor.is_idle());
    assert!(!executor.is_polling());
    assert!(executor.can_spawn());
    assert!(executor.begin_poll().is_none());
    assert!(!executor.contains_task(TaskId(0)));
}

#[test]
fn spawned_tasks_are_polled_in_order() {
    let mut executor = Executor::new();
    for _ in 0..3 {
        executor.spawn(script(1, false));
    }
    assert!(!executor.is_idle());
    let mut log = Vec::new();
    run_ready_tasks(&mut executor, &mut log);
    assert_eq!(log, vec![0, 1, 2]);
    assert!(executor.is_idle());
    for id in 0..3 {
        assert!(!executor.contains_task(TaskId(id)));
    }
}

#[test]
fn task_is_handed_out_with_its_waker() {
    let mut executor = Executor::new();
    executor.spawn(script(5, false));
    executor.spawn(script(6, false));
    let first = executor.begin_poll().unwrap();
    assert_eq!(first.id, TaskId(0));
    assert_eq!(first.waker, TaskWaker::new(TaskId(0)));
    assert_eq!(first.waker.task_id(), TaskId(0));
    assert!(executor.is_polling());
    assert!(executor.contains_task(TaskId(0)));
    let mut task = first.task;
    assert_eq!(task.future_mut().done_after, 5);
    executor.end_poll(task, Poll::Pending);
    assert!(!executor.is_polling());
    let second = executor.begin_poll().unwrap();
    assert_eq!(second.id, TaskId(1));
    assert_eq!(second.waker.task_id(), TaskId(1));
    executor.end_poll(second.task, Poll::Ready(()));
    assert!(executor.contains_task(TaskId(0)));
    assert!(!executor.contains_task(TaskId(1)));
}

#[test]
fn pending_task_without_a_wake_is_polled_once() {
    let mut executor = Executor::new();
    executor.spawn(script(2, false));
    executor.spawn(script(1, false));
    let mut log = Vec::new();
    run_ready_tasks(&mut executor, &mut log);
    // task 0 was polled once and is stuck, task 1 is done
    assert_eq!(log, vec![0, 1]);
    assert!(executor.is_idle());
    assert!(executor.contains_task(TaskId(0)));
    assert!(!executor.contains_task(TaskId(1)));
    // spawning and running other tasks does not poll it again
    executor.spawn(script(1, false));
    run_ready_tasks(&mut executor, &mut log);
    assert_eq!(log, vec![0, 1, 2]);
    assert!(executor.contains_task(TaskId(0)));
}

#[test]
fn task_that_wakes_itself_is_polled_again_before_idle() {
    let mut executor = Executor::new();
    executor.spawn(script(3, true));
    let mut log = Vec::new();
    assert_eq!(run_one(&mut executor, &mut log), Some((TaskId(0), Poll::Pending)));
    // the wake during the poll has put the task back
    assert!(!executor.is_idle());
    run_ready_tasks(&mut executor, &mut log);
    assert_eq!(log, vec![0, 0, 0]);
    assert!(executor.is_idle());
    assert!(!executor.contains_task(TaskId(0)));
}

#[test]
fn external_wake_resumes_the_task_for_its_second_poll() {
    let mut executor = Executor::new();
    executor.spawn(script(2, false));
    let mut log = Vec::new();
    // first poll: would block; the waker is kept by whoever will wake
    let ready = executor.begin_poll().unwrap();
    let captured = ready.waker;
    let mut task = ready.task;
    task.future_mut().polls += 1;
    log.push(ready.id.0);
    executor.end_poll(task, Poll::Pending);
    assert!(executor.is_idle());
    run_ready_tasks(&mut executor, &mut log);
    assert_eq!(log, vec![0]);
    // the wake from outside
    captured.wake_task(&mut executor);
    assert!(!executor.is_idle());
    run_ready_tasks(&mut executor, &mut log);
    // two polls in all, and the task is gone
    assert_eq!(log, vec![0, 0]);
    assert!(!executor.contains_task(TaskId(0)));
    assert!(executor.is_idle());
}

#[test]
fn wake_of_a_queued_task_changes_nothing() {
    let mut executor = Executor::new();
    executor.spawn(script(1, false));
    executor.wake(TaskId(0));
    executor.wake(TaskId(0));
    let mut log = Vec::new();
    run_ready_tasks(&mut executor, &mut log);
    assert_eq!(log, vec![0]);
}

#[test]
fn wake_of_a_completed_or_unknown_task_changes_nothing() {
    let mut executor = Executor::new();
    executor.spawn(script(1, false));
    let mut log = Vec::new();
    run_ready_tasks(&mut executor, &mut log);
    executor.wake(TaskId(0));
    executor.wake(TaskId(17));
    assert!(executor.is_idle());
    assert!(executor.begin_poll().is_none());
}

#[test]
fn task_that_wakes_itself_and_completes_leaves_the_queue() {
    let mut executor = Executor::new();
    executor.spawn(script(1, true));
    executor.spawn(script(1, false));
    let mut log = Vec::new();
    run_ready_tasks(&mut executor, &mut log);
    assert_eq!(log, vec![0, 1]);
    assert!(executor.is_idle());
}

#[test]
fn woken_tasks_queue_up_behind_the_ready_ones() {
    let mut executor = Executor::new();
    executor.spawn(script(2, false));
    executor.spawn(script(2, false));
    executor.spawn(script(1, false));
    let mut log = Vec::new();
    assert!(run_one(&mut executor, &mut log).is_some());
    assert!(run_one(&mut executor, &mut log).is_some());
    executor.wake(TaskId(1));
    executor.wake(TaskId(0));
    run_ready_tasks(&mut executor, &mut log);
    assert_eq!(log, vec![0, 1, 2, 1, 0]);
}

#[test]
fn executor_takes_as_many_tasks_as_its_queue_holds() {
    let mut executor = Executor::new();
    for _ in 0..TASK_QUEUE_CAPACITY {
        assert!(executor.can_spawn());
        executor.spawn(script(1, false));
    }
    assert!(!executor.can_spawn());
    let mut log = Vec::new();
    assert!(run_one(&mut executor, &mut log).is_some());
    assert!(executor.can_spawn());
    executor.spawn(script(1, false));
    assert!(!executor.can_spawn());
    run_ready_tasks(&mut executor, &mut log);
    assert_eq!(log.len(), TASK_QUEUE_CAPACITY + 1);
    assert_eq!(log[TASK_QUEUE_CAPACITY], TASK_QUEUE_CAPACITY as u64);
}

#[test]
fn task_out_to_be_polled_counts_as_a_task() {
    let mut executor = Executor::new();
    for _ in 0..TASK_QUEUE_CAPACITY {
        executor.spawn(script(2, false));
    }
    let ready = executor.begin_poll().unwrap();
    assert!(!executor.can_spawn());
    executor.end_poll(ready.task, Poll::Pending);
    assert!(!executor.can_spawn());
}

#[test]
fn keyboard_task_sleeps_until_a_scancode_comes() {
    let mut executor = Executor::new();
    let mut queue = ScancodeQueue::uninit();
    queue.init(8);
    executor.spawn(script(usize::MAX, false));
    let mut read = Vec::new();
    // the task polls the queue, finds nothing and waits
    let ready = executor.begin_poll().unwrap();
    assert_eq!(queue.poll_next(ready.waker.task_id()), Poll::Pending);
    executor.end_poll(ready.task, Poll::Pending);
    assert!(executor.is_idle());
    // the interrupt: the first byte wakes the task, the second does not
    for byte in [0x1e, 0x9e] {
        if let Ok(Some(task)) = add_scancode(&mut queue, byte) {
            assert_eq!(task, TaskId(0));
            executor.wake(task);
        }
    }
    assert!(!executor.is_idle());
    let ready = executor.begin_poll().unwrap();
    while let Poll::Ready(byte) = queue.poll_next(ready.waker.task_id()) {
        read.push(byte);
    }
    executor.end_poll(ready.task, Poll::Pending);
    assert_eq!(read, vec![0x1e, 0x9e]);
    assert!(executor.is_idle());
    assert!(executor.contains_task(TaskId(0)));
}

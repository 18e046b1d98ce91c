use async_runtime::{
    coroutine_delay_wake, coroutine_get_current, coroutine_is_empty, coroutine_possible_switch,
    coroutine_run_until_blocked, coroutine_run_until_complete, coroutine_spawn,
    coroutine_spawn_with_prio, coroutine_wake, get_ready_num, Computation, Coroutine, CoroutineId,
    Executor, PollState, RuntimeError, YieldHelper, MAX_TASK_NUM,
};

#[test]
fn spawn_hands_out_lowest_free_id() {
    let mut e = Executor::new();
    let a = e.spawn(Computation::new(0), 0).unwrap();
    let b = e.spawn(Computation::new(0), 0).unwrap();
    assert_eq!(a.get_val(), 0);
    assert_eq!(b.get_val(), 1);
}

#[test]
fn priority_ordering_lowest_index_first() {
    let mut e = Executor::new();
    let low = e.spawn(Computation::new(0), 3).unwrap();
    let high = e.spawn(Computation::new(0), 1).unwrap();
    // the priority-1 task is fetched while the priority-3 task stays queued
    assert_eq!(e.fetch(), Some(high));
    assert_eq!(e.fetch(), Some(low));
    assert_eq!(e.fetch(), None);
}

#[test]
fn fifo_within_one_priority() {
    let mut e = Executor::new();
    let first = e.spawn(Computation::new(0), 2).unwrap();
    let second = e.spawn(Computation::new(0), 2).unwrap();
    assert_eq!(e.fetch(), Some(first));
    assert_eq!(e.fetch(), Some(second));
}

#[test]
fn spawn_and_wake_scenario_with_suspension() {
    // task A at priority 0 suspends once; task B at priority 1 finishes
    // on its first resumption
    let mut e = Executor::new();
    let a = e.spawn(Computation::new(1), 0).unwrap();
    let b = e.spawn(Computation::new(0), 1).unwrap();
    e.wake(&a);
    e.wake(&b);
    // the first fetch returns A, the more urgent task
    let f1 = e.fetch().unwrap();
    assert_eq!(f1, a);
    // A suspends at its yield point and is parked, not ready
    assert_eq!(e.execute_task(&a).unwrap(), PollState::Pending);
    let f2 = e.fetch().unwrap();
    assert_eq!(f2, b);
    // B runs to completion and is removed
    assert_eq!(e.execute_task(&b).unwrap(), PollState::Ready);
    e.remove_task(b);
    // A is not picked up until an explicit wake is issued
    assert_eq!(e.fetch(), None);
    e.wake(&a);
    assert_eq!(e.fetch(), Some(a));
    assert_eq!(e.execute_task(&a).unwrap(), PollState::Ready);
    e.remove_task(a);
    assert!(e.is_empty());
}

#[test]
fn wake_is_idempotent() {
    let mut e = Executor::new();
    let a = e.spawn(Computation::new(2), 0).unwrap();
    e.wake(&a);
    e.wake(&a);
    assert_eq!(e.fetch(), Some(a));
    // a single ready-queue entry existed despite the repeated wakes
    assert_eq!(e.fetch(), None);
}

#[test]
fn wake_of_unknown_id_is_ignored() {
    let mut e = Executor::new();
    e.wake(&CoroutineId(17));
    e.wake(&CoroutineId(4000));
    assert_eq!(e.fetch(), None);
}

#[test]
fn deferred_wake_is_drained_by_fetch() {
    let mut e = Executor::new();
    let a = e.spawn(Computation::new(1), 0).unwrap();
    e.run_until_blocked();
    assert_eq!(e.fetch(), None);
    e.delay_wake(&a).unwrap();
    // the bit set before the fetch makes the id ready by the time the
    // fetch returns
    assert_eq!(e.fetch(), Some(a));
}

#[test]
fn delay_wake_rejects_wide_ids() {
    let mut e = Executor::new();
    assert_eq!(
        e.delay_wake(&CoroutineId(64)),
        Err(RuntimeError::CapacityExceeded)
    );
    assert_eq!(
        e.delay_wake(&CoroutineId(4096)),
        Err(RuntimeError::CapacityExceeded)
    );
}

#[test]
fn delay_wake_rejects_dead_ids() {
    let mut e = Executor::new();
    assert_eq!(e.delay_wake(&CoroutineId(5)), Err(RuntimeError::Fatal));
}

#[test]
fn id_is_recycled_after_removal() {
    let mut e = Executor::new();
    let a = e.spawn(Computation::new(0), 0).unwrap();
    assert_eq!(a.get_val(), 0);
    e.run_until_blocked();
    assert!(e.is_empty());
    // the released id is the lowest free index again
    let b = e.spawn(Computation::new(0), 0).unwrap();
    assert_eq!(b.get_val(), 0);
}

#[test]
fn run_until_blocked_finishes_ready_tasks() {
    let mut e = Executor::new();
    e.spawn(Computation::new(0), 0).unwrap();
    e.spawn(Computation::new(0), 5).unwrap();
    e.spawn(Computation::new(0), 7).unwrap();
    e.run_until_blocked();
    assert!(e.is_empty());
}

#[test]
fn run_until_blocked_parks_suspending_tasks() {
    let mut e = Executor::new();
    let a = e.spawn(Computation::new(1), 0).unwrap();
    e.run_until_blocked();
    assert!(!e.is_empty());
    assert_eq!(e.fetch(), None);
    e.wake(&a);
    e.run_until_blocked();
    assert!(e.is_empty());
}

#[test]
fn run_until_complete_empties_the_table() {
    let mut e = Executor::new();
    e.spawn(Computation::new(0), 1).unwrap();
    e.spawn(Computation::new(0), 2).unwrap();
    e.run_until_complete();
    assert!(e.is_empty());
}

#[test]
fn switch_possible_sees_more_urgent_work() {
    let mut e = Executor::new();
    let a = e.spawn(Computation::new(1), 3).unwrap();
    assert_eq!(e.fetch(), Some(a));
    e.spawn(Computation::new(0), 0).unwrap();
    assert!(e.switch_possible());
}

#[test]
fn switch_possible_ignores_less_urgent_work() {
    let mut e = Executor::new();
    let a = e.spawn(Computation::new(1), 0).unwrap();
    assert_eq!(e.fetch(), Some(a));
    e.spawn(Computation::new(0), 3).unwrap();
    assert!(!e.switch_possible());
}

#[test]
fn current_tracks_the_fetched_task() {
    let mut e = Executor::new();
    let a = e.spawn(Computation::new(0), 0).unwrap();
    assert_eq!(e.current(), None);
    assert_eq!(e.fetch(), Some(a));
    assert_eq!(e.current(), Some(a));
}

#[test]
fn ready_count_follows_spawns_and_fetches() {
    let mut e = Executor::new();
    assert_eq!(e.get_ready_num(), 0);
    e.spawn(Computation::new(0), 0).unwrap();
    e.spawn(Computation::new(0), 4).unwrap();
    e.spawn(Computation::new(0), 4).unwrap();
    assert_eq!(e.get_ready_num(), 3);
    e.fetch();
    assert_eq!(e.get_ready_num(), 2);
}

#[test]
fn spawning_every_id_reports_exhaustion() {
    let mut e = Executor::new();
    for _ in 0..MAX_TASK_NUM {
        e.spawn(Computation::new(0), 0).unwrap();
    }
    assert_eq!(
        e.spawn(Computation::new(0), 0),
        Err(RuntimeError::ResourceExhausted)
    );
}

#[test]
fn init_resets_the_executor() {
    let mut e = Executor::new();
    e.spawn(Computation::new(1), 0).unwrap();
    e.init();
    assert!(e.is_empty());
    assert_eq!(e.fetch(), None);
}

#[test]
fn execute_task_rejects_unknown_ids() {
    let mut e = Executor::new();
    assert_eq!(
        e.execute_task(&CoroutineId(3)),
        Err(RuntimeError::Fatal)
    );
}

#[test]
fn yield_helper_reports_pending_then_ready() {
    let mut y = YieldHelper::new();
    assert_eq!(y.poll(), PollState::Pending);
    assert_eq!(y.poll(), PollState::Ready);
    assert_eq!(y.poll(), PollState::Ready);
}

#[test]
fn computation_counts_down_its_suspensions() {
    let mut c = Computation::new(2);
    assert_eq!(c.step(), PollState::Pending);
    assert_eq!(c.step(), PollState::Pending);
    assert_eq!(c.step(), PollState::Ready);
    assert_eq!(c.step(), PollState::Ready);
}

#[test]
fn coroutine_record_carries_id_and_priority() {
    let cid = CoroutineId::from_val(9);
    let mut task = Coroutine::new(cid, Computation::new(1), 2);
    assert_eq!(task.cid, cid);
    assert_eq!(task.prio, 2);
    assert_eq!(task.execute(), PollState::Pending);
    assert_eq!(task.execute(), PollState::Ready);
}

#[test]
fn context_functions_mirror_the_methods() {
    let mut e = Executor::new();
    let a = coroutine_spawn(&mut e, Computation::new(1)).unwrap();
    let b = coroutine_spawn_with_prio(&mut e, Computation::new(0), 0).unwrap();
    assert_eq!(get_ready_num(&e), 2);
    // the priority-0 task outranks the default priority-1 task
    let first = e.fetch().unwrap();
    assert_eq!(first, b);
    assert_eq!(coroutine_get_current(&e), b);
    assert!(!coroutine_possible_switch(&mut e));
    e.execute_task(&b).unwrap();
    e.remove_task(b);
    coroutine_run_until_blocked(&mut e);
    assert!(!coroutine_is_empty(&e));
    coroutine_wake(&mut e, &a);
    assert_eq!(coroutine_delay_wake(&mut e, &a), Ok(()));
    coroutine_run_until_blocked(&mut e);
    assert!(coroutine_is_empty(&e));
    coroutine_spawn(&mut e, Computation::new(0)).unwrap();
    coroutine_run_until_complete(&mut e);
    assert!(coroutine_is_empty(&e));
}

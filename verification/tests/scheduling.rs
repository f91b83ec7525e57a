use task_executor::executor::Executor;
use task_executor::task::{PollBehavior, Task};
use task_executor::worker::StepResult;

fn waits_then_finishes() -> Task {
    Task::new(vec![PollBehavior::Wait, PollBehavior::Finish])
}

fn self_wakes_then_finishes() -> Task {
    Task::new(vec![PollBehavior::WakeSelf, PollBehavior::WakeSelf, PollBehavior::Finish])
}

#[test]
fn empty_executor_joins_clean() {
    let exec = Executor::new(4);
    let (ok, total) = exec.join(16);
    assert!(ok);
    assert_eq!(total, 0);
}

#[test]
fn completion_counting() {
    let mut exec = Executor::new(8);
    for _ in 0..256 {
        exec.spawn(waits_then_finishes());
    }
    // every worker admits its share and polls each task once: all pending
    for i in 0..8 {
        let r = exec.step_worker(i);
        assert!(matches!(r, StepResult::Worked));
        assert_eq!(exec.workers[i].num_started, 32);
        assert_eq!(exec.workers[i].num_ended, 0);
    }
    // the events arrive: every waker fires
    for i in 0..8 {
        for slot in 0..32 {
            exec.notify(i, slot);
        }
    }
    let (ok, total) = exec.join(16);
    assert!(ok);
    assert_eq!(total, 256);
}

#[test]
fn round_robin_routing() {
    let mut exec = Executor::new(4);
    for _ in 0..100 {
        exec.spawn(Task::new(vec![PollBehavior::Finish]));
    }
    // task of submission order k sits on channel k % 4
    for i in 0..4 {
        assert_eq!(exec.channels[i].queue.len(), 25);
        for data in exec.channels[i].queue.iter() {
            assert_eq!(data.id % 4, i);
        }
    }
    // each worker polls exactly its own share
    for i in 0..4 {
        let r = exec.step_worker(i);
        assert!(matches!(r, StepResult::Worked));
        assert_eq!(exec.workers[i].num_started, 25);
        assert_eq!(exec.workers[i].num_ended, 25);
    }
    let (ok, total) = exec.join(16);
    assert!(ok);
    assert_eq!(total, 100);
}

#[test]
fn coalesced_wakes_cause_one_extra_sweep() {
    let mut exec = Executor::new(1);
    exec.spawn(waits_then_finishes());
    let r = exec.step_worker(0);
    assert!(matches!(r, StepResult::Worked));
    {
        let slot = exec.workers[0].tasks[0].as_ref().expect("task installed");
        assert_eq!(slot.task.polls, 1);
        assert!(!slot.task.armed);
    }
    // a thousand wakes before the next iteration collapse into one set bit
    for _ in 0..1000 {
        exec.notify(0, 0);
    }
    assert_eq!(exec.workers[0].common.ready_flags, 1);
    let r = exec.step_worker(0);
    assert!(matches!(r, StepResult::Worked));
    assert_eq!(exec.workers[0].num_ended, 1);
    assert!(exec.workers[0].tasks[0].is_none());
    let (ok, total) = exec.join(16);
    assert!(ok);
    assert_eq!(total, 1);
}

#[test]
fn slot_sharing_completes_all() {
    let mut exec = Executor::new(1);
    for _ in 0..130 {
        exec.spawn(self_wakes_then_finishes());
    }
    let (ok, total) = exec.join(16);
    assert!(ok);
    assert_eq!(total, 130);
}

#[test]
fn shared_bit_polls_both_slots() {
    let mut exec = Executor::new(1);
    for _ in 0..65 {
        exec.spawn(waits_then_finishes());
    }
    let r = exec.step_worker(0);
    assert!(matches!(r, StepResult::Worked));
    assert_eq!(exec.workers[0].tasks.len(), 65);
    // slot 64 shares bit 0 with slot 0
    exec.notify(0, 64);
    assert_eq!(exec.workers[0].common.ready_flags, 1);
    let r = exec.step_worker(0);
    assert!(matches!(r, StepResult::Worked));
    // the waked task made progress and completed
    assert!(exec.workers[0].tasks[64].is_none());
    assert_eq!(exec.workers[0].num_ended, 1);
    // its bit-mate was polled too (false positive), observed Pending, unchanged
    let mate = exec.workers[0].tasks[0].as_ref().expect("still live");
    assert_eq!(mate.task.polls, 2);
    assert_eq!(mate.task.step, 1);
    assert!(!mate.task.armed);
}

#[test]
fn wake_from_inside_poll_repolls_next_iteration() {
    let mut exec = Executor::new(1);
    exec.spawn(Task::new(vec![PollBehavior::WakeSelf, PollBehavior::Finish]));
    let r = exec.step_worker(0);
    assert!(matches!(r, StepResult::Worked));
    // polled exactly once this iteration, not recursively
    let slot = exec.workers[0].tasks[0].as_ref().expect("task installed");
    assert_eq!(slot.task.polls, 1);
    assert!(slot.task.armed);
    // the self-wake left its bit set for the next iteration
    assert_eq!(exec.workers[0].common.ready_flags, 1);
    let r = exec.step_worker(0);
    assert!(matches!(r, StepResult::Worked));
    assert_eq!(exec.workers[0].num_ended, 1);
    let (ok, total) = exec.join(16);
    assert!(ok);
    assert_eq!(total, 1);
}

#[test]
fn first_poll_completion_vacates_slot() {
    let mut exec = Executor::new(1);
    exec.spawn(Task::new(vec![PollBehavior::Finish]));
    let r = exec.step_worker(0);
    assert!(matches!(r, StepResult::Worked));
    assert!(exec.workers[0].tasks[0].is_none());
    assert_eq!(exec.workers[0].num_ended, 1);
    let (ok, total) = exec.join(16);
    assert!(ok);
    assert_eq!(total, 1);
}

#[test]
fn join_with_outstanding_tasks_runs_them_down() {
    let mut exec = Executor::new(2);
    for _ in 0..10 {
        exec.spawn(self_wakes_then_finishes());
    }
    // the submission side is dropped with all ten still outstanding
    let (ok, total) = exec.join(16);
    assert!(ok);
    assert_eq!(total, 10);
}

#[test]
fn leaked_waker_is_diagnosed_at_join() {
    let mut exec = Executor::new(1);
    exec.spawn(waits_then_finishes());
    // the event never arrives: the worker parks and join reports it
    let (ok, total) = exec.join(16);
    assert!(!ok);
    assert_eq!(total, 0);
}

#[test]
fn spawn_with_name_declares_routing() {
    let mut exec = Executor::new(4);
    for k in 0..6usize {
        let decl = exec.spawn_with_name(
            Task::new(vec![PollBehavior::Finish]),
            format!("job-{k}"),
        );
        assert_eq!(decl.id, k);
        assert_eq!(decl.runner, k % 4);
        assert_eq!(decl.name, format!("job-{k}"));
    }
    let (ok, total) = exec.join(16);
    assert!(ok);
    assert_eq!(total, 6);
}

#[test]
fn exhausted_iteration_budget_is_reported() {
    let mut exec = Executor::new(1);
    exec.spawn(waits_then_finishes());
    let (ok, total) = exec.join(0);
    assert!(!ok);
    assert_eq!(total, 0);
}

use task_executor::channel::{Channel, RecvPoll, TaskData};
use task_executor::flags::WakerCommon;
use task_executor::task::{PollBehavior, PollStatus, Task};
use task_executor::FLAGS;

#[test]
fn fresh_record_prompts_one_channel_check() {
    let mut common = WakerCommon::new();
    let (ready, rx) = common.take();
    assert_eq!(ready, 0);
    assert!(rx);
    let (ready, rx) = common.take();
    assert_eq!(ready, 0);
    assert!(!rx);
}

#[test]
fn repeated_wakes_coalesce_into_one_bit() {
    let mut common = WakerCommon::new();
    common.take();
    common.wake(3);
    common.wake(3);
    common.wake(3);
    assert_eq!(common.ready_flags, 8);
    assert!(!common.task_rx_flag);
}

#[test]
fn admission_waker_sets_the_new_task_flag() {
    let mut common = WakerCommon::new();
    common.take();
    common.wake(FLAGS);
    assert_eq!(common.ready_flags, 0);
    assert!(common.task_rx_flag);
}

#[test]
fn spurious_poll_leaves_a_pending_task_unchanged() {
    let mut t = Task::new(vec![PollBehavior::Wait, PollBehavior::Finish]);
    assert!(matches!(t.poll(), PollStatus::Pending));
    assert_eq!(t.step, 1);
    assert!(!t.armed);
    // a second poll without an intervening wake: Pending again, no progress
    assert!(matches!(t.poll(), PollStatus::Pending));
    assert_eq!(t.step, 1);
    assert_eq!(t.polls, 2);
    // the wake arrives: the next poll completes the task
    t.notify();
    assert!(matches!(t.poll(), PollStatus::Ready));
    assert_eq!(t.polls, 3);
}

#[test]
fn channel_yields_tasks_in_submission_order() {
    let mut chan = Channel::new();
    chan.send(TaskData { task: Task::new(vec![PollBehavior::Finish]), id: 10 });
    chan.send(TaskData { task: Task::new(vec![PollBehavior::Finish]), id: 11 });
    match chan.try_recv() {
        RecvPoll::Received(d) => assert_eq!(d.id, 10),
        _ => panic!("expected a task"),
    }
    match chan.try_recv() {
        RecvPoll::Received(d) => assert_eq!(d.id, 11),
        _ => panic!("expected a task"),
    }
    assert!(matches!(chan.try_recv(), RecvPoll::Empty));
    chan.close();
    assert!(matches!(chan.try_recv(), RecvPoll::Closed));
}

#[test]
fn poll_past_plan_end_parks_the_task() {
    let mut t = Task::new(vec![]);
    assert!(matches!(t.poll(), PollStatus::Pending));
    assert!(!t.armed);
    t.notify();
    assert!(matches!(t.poll(), PollStatus::Pending));
    assert_eq!(t.polls, 2);
}

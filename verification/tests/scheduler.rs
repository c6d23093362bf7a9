use icarus::scheduler::{
    after_step, due_sleepers, may_step, next_wake, requeue, running_not_queued, waiters_of, when_idle, AfterStep, Idle,
    TaskPhase,
};

fn tasks() -> Vec<(u64, TaskPhase)> {
    vec![
        (0, TaskPhase::Waiting(1)),
        (1, TaskPhase::Done),
        (2, TaskPhase::Sleeping(50)),
        (3, TaskPhase::Sleeping(20)),
        (4, TaskPhase::Waiting(2)),
        (5, TaskPhase::Running),
        (6, TaskPhase::Waiting(9)),
        (7, TaskPhase::Failed),
    ]
}

#[test]
fn sleepers_wake_when_their_time_has_come() {
    assert_eq!(due_sleepers(&tasks(), 10), Vec::<u64>::new());
    assert_eq!(due_sleepers(&tasks(), 20), vec![3]);
    assert_eq!(due_sleepers(&tasks(), 50), vec![2, 3]);
}

#[test]
fn a_task_steps_when_running_or_its_wait_is_over() {
    let t = tasks();
    assert!(may_step(&t, 5));
    assert!(may_step(&t, 0));
    assert!(!may_step(&t, 4));
    assert!(may_step(&t, 6));
    assert!(!may_step(&t, 1));
    assert!(!may_step(&t, 7));
    assert!(!may_step(&t, 2));
    assert!(!may_step(&t, 42));
}

#[test]
fn a_finished_task_releases_its_waiters() {
    assert_eq!(waiters_of(&tasks(), 1), vec![0]);
    assert_eq!(waiters_of(&tasks(), 2), vec![4]);
    assert_eq!(waiters_of(&tasks(), 5), Vec::<u64>::new());
}

#[test]
fn running_tasks_join_the_queue_once() {
    let t = vec![(0, TaskPhase::Running), (1, TaskPhase::Running), (2, TaskPhase::Done), (3, TaskPhase::Running)];
    assert_eq!(running_not_queued(&t, &[1], None), vec![0, 3]);
    assert_eq!(running_not_queued(&t, &[1], Some(0)), vec![3]);
    assert_eq!(running_not_queued(&t, &[0, 1, 3], None), Vec::<u64>::new());
}

#[test]
fn the_next_wake_is_the_earliest_deadline() {
    assert_eq!(next_wake(&tasks()), Some(20));
    assert_eq!(next_wake(&[(0, TaskPhase::Running)]), None);
}

#[test]
fn the_main_task_ends_the_run() {
    assert_eq!(after_step(0, TaskPhase::Done), AfterStep::Finished);
    assert_eq!(after_step(0, TaskPhase::Failed), AfterStep::Failed);
    assert_eq!(after_step(0, TaskPhase::Running), AfterStep::Continue);
    assert_eq!(after_step(3, TaskPhase::Done), AfterStep::Continue);
}

#[test]
fn only_running_tasks_are_requeued() {
    let t = tasks();
    assert!(requeue(&t, 5));
    assert!(!requeue(&t, 0));
    assert!(!requeue(&t, 42));
}

#[test]
fn an_idle_scheduler_sleeps_reports_deadlock_or_finishes() {
    assert_eq!(when_idle(&tasks()), Idle::Sleep(20));
    let waiting = vec![(0, TaskPhase::Waiting(1)), (1, TaskPhase::Waiting(0)), (2, TaskPhase::Done)];
    assert_eq!(when_idle(&waiting), Idle::Deadlock(2));
    assert_eq!(when_idle(&[(0, TaskPhase::Done)]), Idle::Finished);
}

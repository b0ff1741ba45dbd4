use lag_lab::supervisor::{Supervisor, TaskId, TaskLifecycle};

#[test]
fn legal_lifecycle_path_transitions_through_expected_states() {
    let mut supervisor = Supervisor::new();
    let task_id = TaskId(7);
    supervisor.register(task_id);

    assert!(supervisor.mark_running(task_id));

    let restart = supervisor.mark_failed(task_id);
    let task = supervisor.task(task_id).unwrap();

    assert_eq!(task.state, TaskLifecycle::RestartPlanned);
    assert!(restart.unwrap().should_restart);

    assert!(supervisor.mark_stopped(task_id));
    let task = supervisor.task(task_id).unwrap();
    assert_eq!(task.state, TaskLifecycle::Stopped);
}

#[test]
fn illegal_transitions_return_failure_and_do_not_mutate_state() {
    let mut supervisor = Supervisor::new();
    let task_id = TaskId(11);
    supervisor.register(task_id);

    assert!(supervisor.mark_running(task_id));
    assert!(supervisor.mark_failed(task_id).is_some());

    let before = supervisor.task(task_id).unwrap();
    assert_eq!(before.state, TaskLifecycle::RestartPlanned);

    assert!(!supervisor.mark_running(task_id));
    let after = supervisor.task(task_id).unwrap();
    assert_eq!(after.state, TaskLifecycle::RestartPlanned);

    assert!(supervisor.mark_stopped(task_id));

    let stopped = supervisor.task(task_id).unwrap();
    assert_eq!(stopped.state, TaskLifecycle::Stopped);

    assert!(!supervisor.mark_running(task_id));
    let after_stopped = supervisor.task(task_id).unwrap();
    assert_eq!(after_stopped.state, TaskLifecycle::Stopped);
}

#[test]
fn unknown_task_operations_remain_distinct() {
    let mut supervisor = Supervisor::new();
    let unknown = TaskId(99);

    let restart = supervisor.mark_failed(unknown);

    assert!(restart.is_none());
    assert!(!supervisor.mark_running(unknown));
    assert!(!supervisor.mark_stopped(unknown));
    assert!(supervisor.task(unknown).is_none());
}

#[test]
fn registering_again_resets_a_task_to_starting() {
    let mut supervisor = Supervisor::new();
    let task_id = TaskId(3);
    supervisor.register(task_id);
    assert!(supervisor.mark_running(task_id));
    assert_eq!(supervisor.task(task_id).unwrap().state, TaskLifecycle::Running);

    supervisor.register(task_id);
    assert_eq!(supervisor.task(task_id).unwrap().state, TaskLifecycle::Starting);
}

#[test]
fn lifecycle_of_one_task_leaves_other_tasks_alone() {
    let mut supervisor = Supervisor::new();
    let first = TaskId(1);
    let second = TaskId(2);
    supervisor.register(first);
    supervisor.register(second);
    assert!(supervisor.mark_running(first));

    assert_eq!(supervisor.task(first).unwrap().state, TaskLifecycle::Running);
    assert_eq!(supervisor.task(second).unwrap().state, TaskLifecycle::Starting);

    assert!(supervisor.mark_stopped(first));
    assert_eq!(supervisor.task(second).unwrap().state, TaskLifecycle::Starting);
}

#[test]
fn mark_stopped_is_legal_from_running_without_a_failure() {
    let mut supervisor = Supervisor::new();
    let task_id = TaskId(5);
    supervisor.register(task_id);
    assert!(supervisor.mark_running(task_id));
    assert!(supervisor.mark_stopped(task_id));
    assert_eq!(supervisor.task(task_id).unwrap().state, TaskLifecycle::Stopped);
    assert!(supervisor.mark_failed(task_id).is_none());
}

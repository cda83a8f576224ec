use petri::delay::DelayedTask;

#[test]
fn delayed_task_fires_once() {
    let mut task = DelayedTask::schedule();
    assert!(task.elapsed());
    assert!(!task.elapsed());
    assert!(task.cancel());
    assert!(!task.elapsed());
}

#[test]
fn cancelled_task_never_fires() {
    let mut task = DelayedTask::schedule();
    assert!(task.cancel());
    assert!(!task.cancel());
    assert!(!task.elapsed());
}

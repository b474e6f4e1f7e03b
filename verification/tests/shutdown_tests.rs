use esphome2loki::shutdown::{ShutdownCoordinator, SupervisorAction, SupervisorEvent, Task};

#[test]
fn first_interrupt_sends_the_signal() {
    let mut coordinator = ShutdownCoordinator::new();
    assert!(!coordinator.is_signalled());
    assert!(!coordinator.all_done());
    assert_eq!(coordinator.on_event(SupervisorEvent::Interrupt), SupervisorAction::Broadcast);
    assert!(coordinator.is_signalled());
}

#[test]
fn later_interrupts_change_nothing() {
    let mut coordinator = ShutdownCoordinator::new();
    assert_eq!(coordinator.on_event(SupervisorEvent::Interrupt), SupervisorAction::Broadcast);
    assert_eq!(coordinator.on_event(SupervisorEvent::Interrupt), SupervisorAction::Wait);
    assert_eq!(coordinator.on_event(SupervisorEvent::Interrupt), SupervisorAction::Wait);
    assert!(coordinator.is_signalled());
    assert!(!coordinator.all_done());
}

#[test]
fn loop_leaves_when_both_tasks_have_returned() {
    let mut coordinator = ShutdownCoordinator::new();
    assert_eq!(coordinator.on_event(SupervisorEvent::Interrupt), SupervisorAction::Broadcast);
    assert_eq!(
        coordinator.on_event(SupervisorEvent::Finished(Task::Ingestion)),
        SupervisorAction::Wait
    );
    assert!(!coordinator.all_done());
    assert_eq!(
        coordinator.on_event(SupervisorEvent::Finished(Task::Batching)),
        SupervisorAction::Exit
    );
    assert!(coordinator.all_done());
}

#[test]
fn loop_leaves_when_the_tasks_end_on_their_own() {
    let mut coordinator = ShutdownCoordinator::new();
    assert_eq!(
        coordinator.on_event(SupervisorEvent::Finished(Task::Batching)),
        SupervisorAction::Wait
    );
    assert_eq!(
        coordinator.on_event(SupervisorEvent::Finished(Task::Ingestion)),
        SupervisorAction::Exit
    );
    assert!(!coordinator.is_signalled());
}

#[test]
fn interrupt_while_one_task_still_runs_sends_the_signal() {
    let mut coordinator = ShutdownCoordinator::new();
    assert_eq!(
        coordinator.on_event(SupervisorEvent::Finished(Task::Ingestion)),
        SupervisorAction::Wait
    );
    assert_eq!(coordinator.on_event(SupervisorEvent::Interrupt), SupervisorAction::Broadcast);
    assert_eq!(coordinator.on_event(SupervisorEvent::Interrupt), SupervisorAction::Wait);
    assert_eq!(
        coordinator.on_event(SupervisorEvent::Finished(Task::Batching)),
        SupervisorAction::Exit
    );
}

#[test]
fn interrupt_after_both_tasks_have_returned_only_leaves() {
    let mut coordinator = ShutdownCoordinator::new();
    coordinator.on_event(SupervisorEvent::Finished(Task::Ingestion));
    coordinator.on_event(SupervisorEvent::Finished(Task::Batching));
    assert_eq!(coordinator.on_event(SupervisorEvent::Interrupt), SupervisorAction::Exit);
    assert!(!coordinator.is_signalled());
}

#[test]
fn a_task_reported_twice_counts_once() {
    let mut coordinator = ShutdownCoordinator::new();
    assert_eq!(
        coordinator.on_event(SupervisorEvent::Finished(Task::Ingestion)),
        SupervisorAction::Wait
    );
    assert_eq!(
        coordinator.on_event(SupervisorEvent::Finished(Task::Ingestion)),
        SupervisorAction::Wait
    );
    assert!(!coordinator.all_done());
}

#[test]
fn coordinator_knows_which_task_still_runs() {
    let mut coordinator = ShutdownCoordinator::new();
    assert!(coordinator.is_running(Task::Ingestion));
    assert!(coordinator.is_running(Task::Batching));
    coordinator.on_event(SupervisorEvent::Finished(Task::Batching));
    assert!(coordinator.is_running(Task::Ingestion));
    assert!(!coordinator.is_running(Task::Batching));
    coordinator.on_event(SupervisorEvent::Interrupt);
    assert!(coordinator.is_running(Task::Ingestion));
}

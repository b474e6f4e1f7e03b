use esphome2loki::batch::{LogEntry, Stream};
use esphome2loki::flush::{FlushAction, FlushPass, MAX_PUSH_ATTEMPTS, RETRY_BACKOFF_SECONDS};
use esphome2loki::loki::PushOutcome;

fn line(timestamp: i64, text: &str) -> LogEntry {
    LogEntry { timestamp, line: text.to_string() }
}

fn stream(label: &str, entries: Vec<LogEntry>) -> Stream {
    Stream { label: label.to_string(), entries }
}

fn push(label: &str, entries: Vec<LogEntry>, attempt: u8, delay_seconds: u64) -> FlushAction {
    FlushAction::Push { label: label.to_string(), entries, attempt, delay_seconds }
}

fn two_labels() -> FlushPass {
    FlushPass::new(vec![
        stream("a", vec![line(1, "a1"), line(2, "a2")]),
        stream("b", vec![line(3, "b1")]),
    ])
}

#[test]
fn flush_constants() {
    assert_eq!(MAX_PUSH_ATTEMPTS, 3);
    assert_eq!(RETRY_BACKOFF_SECONDS, 2);
}

#[test]
fn pass_over_nothing_is_done_at_once() {
    let mut pass = FlushPass::new(Vec::new());
    assert!(pass.is_done());
    assert_eq!(pass.len(), 0);
    assert_eq!(pass.action(), FlushAction::Done);
    assert_eq!(pass.record(PushOutcome::Delivered), FlushAction::Done);
    assert_eq!(pass.record(PushOutcome::TransientFailure), FlushAction::Done);
}

#[test]
fn pass_pushes_each_label_once_when_the_sink_takes_all() {
    let mut pass = two_labels();
    assert!(!pass.is_done());
    assert_eq!(pass.len(), 2);
    assert_eq!(pass.action(), push("a", vec![line(1, "a1"), line(2, "a2")], 1, 0));
    // asking again changes nothing
    assert_eq!(pass.action(), push("a", vec![line(1, "a1"), line(2, "a2")], 1, 0));
    assert_eq!(pass.record(PushOutcome::Delivered), push("b", vec![line(3, "b1")], 1, 0));
    assert_eq!(pass.record(PushOutcome::Delivered), FlushAction::Done);
    assert!(pass.is_done());
    assert_eq!(pass.action(), FlushAction::Done);
}

#[test]
fn failed_push_is_tried_again_after_the_backoff() {
    let mut pass = two_labels();
    assert_eq!(
        pass.record(PushOutcome::TransientFailure),
        push("a", vec![line(1, "a1"), line(2, "a2")], 2, 2)
    );
    assert_eq!(pass.record(PushOutcome::Delivered), push("b", vec![line(3, "b1")], 1, 0));
}

#[test]
fn third_attempt_can_still_deliver() {
    let mut pass = two_labels();
    assert_eq!(
        pass.record(PushOutcome::TransientFailure),
        push("a", vec![line(1, "a1"), line(2, "a2")], 2, 2)
    );
    assert_eq!(
        pass.record(PushOutcome::TransientFailure),
        push("a", vec![line(1, "a1"), line(2, "a2")], 3, 2)
    );
    assert_eq!(pass.record(PushOutcome::Delivered), push("b", vec![line(3, "b1")], 1, 0));
    assert_eq!(pass.record(PushOutcome::Delivered), FlushAction::Done);
}

#[test]
fn label_is_given_up_after_three_failures_and_the_next_is_not_held_up() {
    // label a fails on all three attempts, label b succeeds at once
    let mut pass = two_labels();
    let mut delivered: Vec<String> = Vec::new();
    let mut pushes_of_a = 0;
    let mut action = pass.action();
    loop {
        match action {
            FlushAction::Push { label, entries, attempt, delay_seconds } => {
                if label == "a" {
                    pushes_of_a += 1;
                    assert_eq!(attempt, pushes_of_a);
                    action = pass.record(PushOutcome::TransientFailure);
                } else {
                    // b gets its own first attempt, whole and without a wait
                    assert_eq!(label, "b");
                    assert_eq!(entries, vec![line(3, "b1")]);
                    assert_eq!(attempt, 1);
                    assert_eq!(delay_seconds, 0);
                    delivered.push(label);
                    action = pass.record(PushOutcome::Delivered);
                }
            }
            FlushAction::Done => break,
        }
    }
    assert_eq!(pushes_of_a, 3);
    assert_eq!(delivered, vec!["b".to_string()]);
    assert!(pass.is_done());
}

#[test]
fn failure_of_the_last_label_ends_the_pass() {
    let mut pass = two_labels();
    assert_eq!(pass.record(PushOutcome::Delivered), push("b", vec![line(3, "b1")], 1, 0));
    assert_eq!(pass.record(PushOutcome::TransientFailure), push("b", vec![line(3, "b1")], 2, 2));
    assert_eq!(pass.record(PushOutcome::TransientFailure), push("b", vec![line(3, "b1")], 3, 2));
    assert_eq!(pass.record(PushOutcome::TransientFailure), FlushAction::Done);
    assert!(pass.is_done());
    // a pass that is over stays over
    assert_eq!(pass.record(PushOutcome::TransientFailure), FlushAction::Done);
    assert_eq!(pass.record(PushOutcome::Delivered), FlushAction::Done);
}

#[test]
fn every_label_failing_takes_three_pushes_each() {
    let mut pass = FlushPass::new(vec![
        stream("a", vec![line(1, "x")]),
        stream("b", vec![line(2, "y")]),
        stream("c", vec![line(3, "z")]),
    ]);
    let mut pushes = 0;
    let mut waited = 0;
    let mut action = pass.action();
    while let FlushAction::Push { delay_seconds, .. } = action {
        pushes += 1;
        waited += delay_seconds;
        action = pass.record(PushOutcome::TransientFailure);
    }
    assert_eq!(pushes, 9);
    assert_eq!(waited, 12);
}

/// Drives a pass against answers given per push, and gives every step it asked for.
fn drive(mut pass: FlushPass, answers: &[PushOutcome]) -> Vec<FlushAction> {
    let mut steps = vec![pass.action()];
    for answer in answers {
        steps.push(pass.record(*answer));
    }
    steps
}

#[test]
fn label_behind_a_failing_one_is_pushed_as_if_it_were_alone() {
    let failed = PushOutcome::TransientFailure;
    let delivered = PushOutcome::Delivered;
    // b alone: fails once, then is taken
    let alone = drive(
        FlushPass::new(vec![stream("b", vec![line(3, "b1")])]),
        &[failed, delivered],
    );
    // b behind a, which is refused three times
    let behind = drive(two_labels(), &[failed, failed, failed, failed, delivered]);
    assert_eq!(alone.len(), 3);
    assert_eq!(behind.len(), 6);
    assert_eq!(behind[3..], alone[..]);
    assert_eq!(alone[0], push("b", vec![line(3, "b1")], 1, 0));
    assert_eq!(alone[1], push("b", vec![line(3, "b1")], 2, 2));
    assert_eq!(alone[2], FlushAction::Done);
}

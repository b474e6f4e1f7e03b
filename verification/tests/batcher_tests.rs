use esphome2loki::batch::LogEntry;
use esphome2loki::batcher::{BatchEvent, Batcher, Decision};
use esphome2loki::config::ConfigDevice;
use esphome2loki::flush::{FlushAction, FlushPass};
use esphome2loki::ingest::InboundMessage;
use esphome2loki::loki::PushOutcome;

fn message(label: &str, timestamp: i64, text: &str) -> BatchEvent {
    BatchEvent::Message(InboundMessage {
        timestamp,
        payload: text.to_string(),
        device: ConfigDevice { label: label.to_string(), topic: format!("esphome/{}", label) },
    })
}

fn line(timestamp: i64, text: &str) -> LogEntry {
    LogEntry { timestamp, line: text.to_string() }
}

fn push(label: &str, entries: Vec<LogEntry>, attempt: u8, delay_seconds: u64) -> FlushAction {
    FlushAction::Push { label: label.to_string(), entries, attempt, delay_seconds }
}

fn flushed(decision: Decision) -> FlushPass {
    match decision {
        Decision::Flush(pass) => pass,
        other => panic!("expected a flush, got {:?}", other),
    }
}

/// Runs a pass against a sink that takes everything, and gives what was pushed.
fn deliver_all(mut pass: FlushPass) -> Vec<(String, Vec<LogEntry>)> {
    let mut pushed = Vec::new();
    let mut action = pass.action();
    loop {
        match action {
            FlushAction::Push { label, entries, .. } => {
                pushed.push((label, entries));
                action = pass.record(PushOutcome::Delivered);
            }
            FlushAction::Done => return pushed,
        }
    }
}

#[test]
fn kitchen_scenario_size_then_timeout() {
    // threshold 3, timer every 60 s
    let mut batcher = Batcher::new(3);
    assert_eq!(batcher.on_event(message("kitchen", 0, "m0")), Decision::Continue);
    assert_eq!(batcher.on_event(message("kitchen", 1, "m1")), Decision::Continue);
    let pass = flushed(batcher.on_event(message("kitchen", 2, "m2")));
    assert_eq!(
        deliver_all(pass),
        vec![("kitchen".to_string(), vec![line(0, "m0"), line(1, "m1"), line(2, "m2")])]
    );
    assert_eq!(batcher.count(), 0);

    assert_eq!(batcher.on_event(message("kitchen", 10, "m10")), Decision::Continue);
    let pass = flushed(batcher.on_event(BatchEvent::Tick));
    assert_eq!(deliver_all(pass), vec![("kitchen".to_string(), vec![line(10, "m10")])]);
    assert_eq!(batcher.count(), 0);
    assert_eq!(batcher.on_event(BatchEvent::Tick), Decision::Continue);
}

#[test]
fn size_trigger_counts_across_labels() {
    let mut batcher = Batcher::new(4);
    assert_eq!(batcher.on_event(message("kitchen", 1, "k1")), Decision::Continue);
    assert_eq!(batcher.on_event(message("attic", 2, "a1")), Decision::Continue);
    assert_eq!(batcher.on_event(message("kitchen", 3, "k2")), Decision::Continue);
    assert_eq!(batcher.count(), 3);
    let pass = flushed(batcher.on_event(message("cellar", 4, "c1")));
    assert_eq!(pass.len(), 3);
    assert_eq!(
        deliver_all(pass),
        vec![
            ("kitchen".to_string(), vec![line(1, "k1"), line(3, "k2")]),
            ("attic".to_string(), vec![line(2, "a1")]),
            ("cellar".to_string(), vec![line(4, "c1")]),
        ]
    );
    // the next message opens a new window
    assert_eq!(batcher.count(), 0);
    assert_eq!(batcher.on_event(message("attic", 5, "a2")), Decision::Continue);
    assert_eq!(batcher.count(), 1);
    assert_eq!(batcher.pending("attic"), vec![line(5, "a2")]);
    assert_eq!(batcher.pending("kitchen"), Vec::new());
}

#[test]
fn size_trigger_of_one_flushes_every_message() {
    let mut batcher = Batcher::new(1);
    let pass = flushed(batcher.on_event(message("kitchen", 1, "a")));
    assert_eq!(deliver_all(pass), vec![("kitchen".to_string(), vec![line(1, "a")])]);
    let pass = flushed(batcher.on_event(message("attic", 2, "b")));
    assert_eq!(deliver_all(pass), vec![("attic".to_string(), vec![line(2, "b")])]);
}

#[test]
fn threshold_of_zero_flushes_every_message() {
    let mut batcher = Batcher::new(0);
    assert_eq!(batcher.on_event(BatchEvent::Tick), Decision::Continue);
    let pass = flushed(batcher.on_event(message("kitchen", 1, "a")));
    assert_eq!(deliver_all(pass), vec![("kitchen".to_string(), vec![line(1, "a")])]);
    assert_eq!(batcher.count(), 0);
}

#[test]
fn timeout_with_an_empty_batch_starts_no_pass() {
    let mut batcher = Batcher::new(3);
    assert_eq!(batcher.on_event(BatchEvent::Tick), Decision::Continue);
    assert_eq!(batcher.on_event(BatchEvent::Tick), Decision::Continue);
    assert_eq!(batcher.count(), 0);
    assert!(!batcher.is_stopped());
}

#[test]
fn timeout_flushes_a_batch_below_the_threshold() {
    let mut batcher = Batcher::new(100);
    assert_eq!(batcher.on_event(message("attic", 7, "a")), Decision::Continue);
    assert_eq!(batcher.on_event(message("kitchen", 8, "k")), Decision::Continue);
    let pass = flushed(batcher.on_event(BatchEvent::Tick));
    assert_eq!(
        deliver_all(pass),
        vec![
            ("attic".to_string(), vec![line(7, "a")]),
            ("kitchen".to_string(), vec![line(8, "k")]),
        ]
    );
    assert_eq!(batcher.on_event(BatchEvent::Tick), Decision::Continue);
}

#[test]
fn arrival_order_is_kept_for_each_label() {
    let mut batcher = Batcher::new(100);
    let arrivals = [
        ("kitchen", 5, "k-first"),
        ("attic", 4, "a-first"),
        ("kitchen", 3, "k-second"),
        ("kitchen", 9, "k-third"),
        ("attic", 1, "a-second"),
    ];
    for (label, timestamp, text) in arrivals {
        assert_eq!(batcher.on_event(message(label, timestamp, text)), Decision::Continue);
    }
    assert_eq!(
        batcher.pending("kitchen"),
        vec![line(5, "k-first"), line(3, "k-second"), line(9, "k-third")]
    );
    assert_eq!(batcher.pending("attic"), vec![line(4, "a-first"), line(1, "a-second")]);
    let pass = flushed(batcher.on_event(BatchEvent::Tick));
    assert_eq!(
        deliver_all(pass),
        vec![
            (
                "kitchen".to_string(),
                vec![line(5, "k-first"), line(3, "k-second"), line(9, "k-third")]
            ),
            ("attic".to_string(), vec![line(4, "a-first"), line(1, "a-second")]),
        ]
    );
}

#[test]
fn window_restarts_from_zero_after_a_pass_that_failed() {
    let mut batcher = Batcher::new(2);
    assert_eq!(batcher.on_event(message("kitchen", 1, "a")), Decision::Continue);
    let mut pass = flushed(batcher.on_event(message("kitchen", 2, "b")));
    // the sink refuses every attempt
    assert_eq!(
        pass.record(PushOutcome::TransientFailure),
        push("kitchen", vec![line(1, "a"), line(2, "b")], 2, 2)
    );
    assert_eq!(
        pass.record(PushOutcome::TransientFailure),
        push("kitchen", vec![line(1, "a"), line(2, "b")], 3, 2)
    );
    assert_eq!(pass.record(PushOutcome::TransientFailure), FlushAction::Done);
    // nothing of the lost window is left in the next one
    assert_eq!(batcher.count(), 0);
    assert_eq!(batcher.pending("kitchen"), Vec::new());
    assert_eq!(batcher.on_event(BatchEvent::Tick), Decision::Continue);
    assert_eq!(batcher.on_event(message("kitchen", 3, "c")), Decision::Continue);
    let pass = flushed(batcher.on_event(message("kitchen", 4, "d")));
    assert_eq!(
        deliver_all(pass),
        vec![("kitchen".to_string(), vec![line(3, "c"), line(4, "d")])]
    );
}

#[test]
fn shutdown_drops_what_was_not_flushed() {
    let mut batcher = Batcher::new(10);
    assert_eq!(batcher.on_event(message("kitchen", 1, "a")), Decision::Continue);
    assert_eq!(batcher.on_event(message("attic", 2, "b")), Decision::Continue);
    assert_eq!(batcher.on_event(BatchEvent::Shutdown), Decision::Stop);
    assert!(batcher.is_stopped());
    assert_eq!(batcher.count(), 0);
    assert_eq!(batcher.pending("kitchen"), Vec::new());
    // no flush ever follows
    assert_eq!(batcher.on_event(BatchEvent::Tick), Decision::Stop);
    assert_eq!(batcher.on_event(message("kitchen", 3, "c")), Decision::Stop);
    assert_eq!(batcher.on_event(BatchEvent::Shutdown), Decision::Stop);
    assert_eq!(batcher.on_event(BatchEvent::QueueClosed), Decision::Stop);
    assert_eq!(batcher.count(), 0);
}

#[test]
fn closed_queue_stops_like_a_shutdown() {
    let mut batcher = Batcher::new(10);
    assert_eq!(batcher.on_event(message("kitchen", 1, "a")), Decision::Continue);
    assert_eq!(batcher.on_event(BatchEvent::QueueClosed), Decision::Stop);
    assert!(batcher.is_stopped());
    assert_eq!(batcher.on_event(BatchEvent::Tick), Decision::Stop);
}

#[test]
fn shutdown_of_an_idle_scheduler() {
    let mut batcher = Batcher::new(3);
    assert_eq!(batcher.on_event(BatchEvent::Shutdown), Decision::Stop);
    assert!(batcher.is_stopped());
    assert_eq!(batcher.batch_size(), 3);
}

#[test]
fn new_scheduler_is_empty() {
    let batcher = Batcher::new(7);
    assert_eq!(batcher.count(), 0);
    assert_eq!(batcher.batch_size(), 7);
    assert!(!batcher.is_stopped());
    assert_eq!(batcher.pending("kitchen"), Vec::new());
}

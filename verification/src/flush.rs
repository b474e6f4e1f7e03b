//! The flush pass: pushing one batch to the sink, label by label, with a
//! bounded number of attempts for each label.

use vstd::prelude::*;

use crate::batch::{entry_views, stream_views, EntryView, LogEntry, Stream, StreamView};
use crate::loki::PushOutcome;

verus! {

/// How often a pass pushes the lines of one label before it gives them up.
pub const MAX_PUSH_ATTEMPTS: u8 = 3;

/// Seconds to wait after a failed push before the same label is tried again.
pub const RETRY_BACKOFF_SECONDS: u64 = 2;

/// What the driver of a pass does next.
#[derive(Debug, PartialEq)]
pub enum FlushAction {
    /// Wait for `delay_seconds`, push `entries` under `label`, and report how
    /// the push ended. `attempt` counts the pushes of this label from one.
    Push { label: String, entries: Vec<LogEntry>, attempt: u8, delay_seconds: u64 },
    /// Every label has been delivered or given up: the pass is over.
    Done,
}

/// A step of a pass as specifications see it.
pub enum FlushActionView {
    Push { label: Seq<char>, entries: Seq<EntryView>, attempt: nat, delay_seconds: nat },
    Done,
}

impl View for FlushAction {
    type V = FlushActionView;

    open spec fn view(&self) -> FlushActionView {
        match self {
            FlushAction::Push { label, entries, attempt, delay_seconds } => FlushActionView::Push {
                label: label@,
                entries: entry_views(entries@),
                attempt: *attempt as nat,
                delay_seconds: *delay_seconds as nat,
            },
            FlushAction::Done => FlushActionView::Done,
        }
    }
}

/// A pass as specifications see it: the streams it was started with, the
/// stream it is at, and the number of the attempt that comes next.
pub struct PassView {
    pub streams: Seq<StreamView>,
    pub cursor: nat,
    pub attempt: nat,
}

impl PassView {
    /// The pass over `streams`, before its first push.
    pub open spec fn start(streams: Seq<StreamView>) -> PassView {
        PassView { streams, cursor: 0, attempt: 1 }
    }

    /// The cursor is within the streams or just behind them, and the attempt
    /// is within the budget.
    pub open spec fn wf(self) -> bool {
        &&& self.cursor <= self.streams.len()
        &&& 1 <= self.attempt <= MAX_PUSH_ATTEMPTS
        &&& self.cursor == self.streams.len() ==> self.attempt == 1
    }

    /// Whether every stream has been dealt with.
    pub open spec fn is_done(self) -> bool {
        self.cursor >= self.streams.len()
    }

    /// The step that the pass asks for: the stream at the cursor, whole, right
    /// away at its first attempt and after the backoff at a later one.
    pub open spec fn action(self) -> FlushActionView {
        if self.is_done() {
            FlushActionView::Done
        } else {
            FlushActionView::Push {
                label: self.streams[self.cursor as int].label,
                entries: self.streams[self.cursor as int].entries,
                attempt: self.attempt,
                delay_seconds: if self.attempt > 1 {
                    RETRY_BACKOFF_SECONDS as nat
                } else {
                    0
                },
            }
        }
    }

    /// The pass after the push it asked for has ended in `outcome`: a
    /// delivered stream and one whose last attempt failed are left behind,
    /// any other failure uses up one attempt.
    pub open spec fn record(self, outcome: PushOutcome) -> PassView {
        if self.is_done() {
            self
        } else if outcome == PushOutcome::Delivered || self.attempt >= MAX_PUSH_ATTEMPTS {
            PassView { streams: self.streams, cursor: self.cursor + 1, attempt: 1 }
        } else {
            PassView { streams: self.streams, cursor: self.cursor, attempt: self.attempt + 1 }
        }
    }

    /// The most pushes that the pass can still ask for.
    pub open spec fn budget(self) -> nat {
        if self.wf() {
            (MAX_PUSH_ATTEMPTS * (self.streams.len() - self.cursor) - (self.attempt - 1)) as nat
        } else {
            0
        }
    }
}

/// What a sink answers to each push of a pass, told by the label and the
/// number of the attempt.
pub type SinkModel = spec_fn(Seq<char>, nat) -> PushOutcome;

/// One push of a pass, with its end.
pub struct PushRecord {
    pub stream: StreamView,
    pub attempt: nat,
    pub delay_seconds: nat,
    pub outcome: PushOutcome,
}

/// Every push that a pass makes from `pass` on, in order, when the sink
/// answers as `sink` says.
pub open spec fn pass_log(pass: PassView, sink: SinkModel) -> Seq<PushRecord>
    decreases pass.budget(),
{
    if !pass.wf() || pass.is_done() {
        Seq::empty()
    } else {
        let stream = pass.streams[pass.cursor as int];
        let outcome = sink(stream.label, pass.attempt);
        let record = PushRecord {
            stream,
            attempt: pass.attempt,
            delay_seconds: if pass.attempt > 1 {
                RETRY_BACKOFF_SECONDS as nat
            } else {
                0
            },
            outcome,
        };
        seq![record] + pass_log(pass.record(outcome), sink)
    }
}

/// The streams that the pushes of a log delivered, in order.
pub open spec fn delivered(log: Seq<PushRecord>) -> Seq<StreamView>
    decreases log.len(),
{
    if log.len() == 0 {
        Seq::empty()
    } else if log[0].outcome == PushOutcome::Delivered {
        seq![log[0].stream] + delivered(log.drop_first())
    } else {
        delivered(log.drop_first())
    }
}

/// Whether the sink takes the lines of `label` at one of the attempts from
/// `from` to the last.
pub open spec fn accepts(sink: SinkModel, label: Seq<char>, from: nat) -> bool {
    exists|attempt: nat|
        from <= attempt <= MAX_PUSH_ATTEMPTS && #[trigger] sink(label, attempt)
            == PushOutcome::Delivered
}

/// The streams from `from` on whose label the sink accepts within the budget
/// of attempts, in order.
pub open spec fn accepted(streams: Seq<StreamView>, sink: SinkModel, from: nat) -> Seq<StreamView>
    decreases streams.len() - from,
{
    if from >= streams.len() {
        Seq::empty()
    } else if accepts(sink, streams[from as int].label, 1) {
        seq![streams[from as int]] + accepted(streams, sink, from + 1)
    } else {
        accepted(streams, sink, from + 1)
    }
}

/// Recording the end of a push keeps a pass well formed and uses up budget.
pub proof fn lemma_record_wf(pass: PassView, outcome: PushOutcome)
    requires
        pass.wf(),
    ensures
        pass.record(outcome).wf(),
        pass.record(outcome).streams == pass.streams,
        !pass.is_done() ==> pass.record(outcome).budget() < pass.budget(),
{
}

/// A pass is over after at most three pushes for each stream that is left.
pub proof fn lemma_pass_bounded(pass: PassView, sink: SinkModel)
    requires
        pass.wf(),
    ensures
        pass_log(pass, sink).len() <= pass.budget(),
        pass.budget() <= MAX_PUSH_ATTEMPTS * (pass.streams.len() - pass.cursor),
    decreases pass.budget(),
{
    if !pass.is_done() {
        let outcome = sink(pass.streams[pass.cursor as int].label, pass.attempt);
        lemma_record_wf(pass, outcome);
        lemma_pass_bounded(pass.record(outcome), sink);
    }
}

/// From any point of a pass on, the stream at the cursor is delivered exactly
/// if the sink accepts its label at one of the attempts that are left for it,
/// and the streams behind it exactly if the sink accepts their label at one
/// of their own three attempts.
pub proof fn lemma_delivery_from(pass: PassView, sink: SinkModel)
    requires
        pass.wf(),
        !pass.is_done(),
    ensures
        delivered(pass_log(pass, sink)) == if accepts(
            sink,
            pass.streams[pass.cursor as int].label,
            pass.attempt,
        ) {
            seq![pass.streams[pass.cursor as int]] + accepted(pass.streams, sink, pass.cursor + 1)
        } else {
            accepted(pass.streams, sink, pass.cursor + 1)
        },
    decreases pass.budget(),
{
    let stream = pass.streams[pass.cursor as int];
    let outcome = sink(stream.label, pass.attempt);
    let next = pass.record(outcome);
    let log = pass_log(pass, sink);
    let rest = pass_log(next, sink);
    lemma_record_wf(pass, outcome);
    assert(log.drop_first() =~= rest);
    if next.cursor == pass.cursor {
        // A failed attempt with budget left: the same stream is tried again,
        // and is accepted now exactly if it is accepted at a later attempt.
        lemma_delivery_from(next, sink);
        assert(accepts(sink, stream.label, pass.attempt) == accepts(
            sink,
            stream.label,
            next.attempt,
        ));
    } else {
        // The stream is left behind, delivered or given up for good.
        if !next.is_done() {
            lemma_delivery_from(next, sink);
        }
        assert(accepts(sink, stream.label, pass.attempt) == (outcome == PushOutcome::Delivered));
        assert(delivered(rest) == accepted(pass.streams, sink, pass.cursor + 1));
    }
}

/// Labels do not stand in each other's way: a pass delivers exactly the
/// streams whose own label the sink accepts at one of its three attempts,
/// each of them whole and in the order of the batch, whatever the sink
/// answers for any other label.
pub proof fn lemma_label_isolation(streams: Seq<StreamView>, sink: SinkModel)
    ensures
        delivered(pass_log(PassView::start(streams), sink)) == accepted(streams, sink, 0),
{
    let pass = PassView::start(streams);
    if !pass.is_done() {
        lemma_delivery_from(pass, sink);
    }
}

/// The pushes for the streams behind a prefix are those of a pass over these
/// streams alone.
pub proof fn lemma_log_of_back(
    front: Seq<StreamView>,
    back: Seq<StreamView>,
    pass: PassView,
    sink: SinkModel,
)
    requires
        pass.wf(),
        pass.streams == back,
    ensures
        pass_log(
            PassView {
                streams: front + back,
                cursor: front.len() + pass.cursor,
                attempt: pass.attempt,
            },
            sink,
        ) == pass_log(pass, sink),
    decreases pass.budget(),
{
    let whole = PassView {
        streams: front + back,
        cursor: front.len() + pass.cursor,
        attempt: pass.attempt,
    };
    if !pass.is_done() {
        let stream = back[pass.cursor as int];
        assert((front + back)[whole.cursor as int] == stream);
        let outcome = sink(stream.label, pass.attempt);
        lemma_record_wf(pass, outcome);
        lemma_log_of_back(front, back, pass.record(outcome), sink);
    }
}

/// The pushes for the streams of a prefix are those of a pass over the prefix
/// alone, and the pushes for the rest follow them.
pub proof fn lemma_log_of_front(
    front: Seq<StreamView>,
    back: Seq<StreamView>,
    pass: PassView,
    sink: SinkModel,
)
    requires
        pass.wf(),
        pass.streams == front,
    ensures
        pass_log(
            PassView { streams: front + back, cursor: pass.cursor, attempt: pass.attempt },
            sink,
        ) == pass_log(pass, sink) + pass_log(PassView::start(back), sink),
    decreases pass.budget(),
{
    let whole = PassView { streams: front + back, cursor: pass.cursor, attempt: pass.attempt };
    if pass.is_done() {
        lemma_log_of_back(front, back, PassView::start(back), sink);
        assert(pass_log(pass, sink) + pass_log(PassView::start(back), sink) =~= pass_log(
            PassView::start(back),
            sink,
        ));
    } else {
        let stream = front[pass.cursor as int];
        assert((front + back)[whole.cursor as int] == stream);
        let outcome = sink(stream.label, pass.attempt);
        lemma_record_wf(pass, outcome);
        lemma_log_of_front(front, back, pass.record(outcome), sink);
        assert(pass_log(whole, sink) =~= pass_log(pass, sink) + pass_log(
            PassView::start(back),
            sink,
        ));
    }
}

/// A pass over a batch is the passes over its parts, one after the other:
/// the streams behind any point of the batch get the pushes, with the
/// attempts and the waits, of a pass that starts with them, whatever the sink
/// answered for the streams before.
pub proof fn lemma_pass_splits(front: Seq<StreamView>, back: Seq<StreamView>, sink: SinkModel)
    ensures
        pass_log(PassView::start(front + back), sink) == pass_log(PassView::start(front), sink)
            + pass_log(PassView::start(back), sink),
{
    lemma_log_of_front(front, back, PassView::start(front), sink);
}

/// A flush in progress.
///
/// The pass owns the streams of the batch it was started with. It is driven
/// from outside: the driver performs the step that the pass asks for and
/// reports the end of each push.
#[derive(Debug, PartialEq)]
pub struct FlushPass {
    streams: Vec<Stream>,
    cursor: usize,
    attempt: u8,
}

impl View for FlushPass {
    type V = PassView;

    closed spec fn view(&self) -> PassView {
        PassView {
            streams: stream_views(self.streams@),
            cursor: self.cursor as nat,
            attempt: self.attempt as nat,
        }
    }
}

impl FlushPass {
    #[verifier::type_invariant]
    spec fn within_bounds(self) -> bool {
        &&& self.cursor <= self.streams@.len()
        &&& 1 <= self.attempt <= MAX_PUSH_ATTEMPTS
        &&& self.cursor == self.streams@.len() ==> self.attempt == 1
    }

    /// A pass over `streams`, at the first attempt of the first of them.
    pub fn new(streams: Vec<Stream>) -> (pass: FlushPass)
        ensures
            pass@ == PassView::start(stream_views(streams@)),
    {
        FlushPass { streams, cursor: 0, attempt: 1 }
    }

    /// Whether the pass is over.
    pub fn is_done(&self) -> (done: bool)
        ensures
            done == self@.is_done(),
            self@.wf(),
    {
        proof {
            use_type_invariant(self);
        }
        self.cursor >= self.streams.len()
    }

    /// The number of streams that the pass was started with.
    pub fn len(&self) -> (n: usize)
        ensures
            n == self@.streams.len(),
    {
        self.streams.len()
    }

    /// The step that the pass asks for now.
    pub fn action(&self) -> (action: FlushAction)
        ensures
            action@ == self@.action(),
            self@.wf(),
    {
        proof {
            use_type_invariant(self);
        }
        if self.cursor >= self.streams.len() {
            FlushAction::Done
        } else {
            let stream = &self.streams[self.cursor];
            let entries = stream.entries.clone();
            FlushAction::Push {
                label: stream.label.clone(),
                entries,
                attempt: self.attempt,
                delay_seconds: if self.attempt > 1 {
                    RETRY_BACKOFF_SECONDS
                } else {
                    0
                },
            }
        }
    }

    /// Takes note of how the push that the pass asked for has ended, and
    /// gives the next step. A pass that is over stays over.
    pub fn record(&mut self, outcome: PushOutcome) -> (action: FlushAction)
        ensures
            final(self)@ == old(self)@.record(outcome),
            action@ == final(self)@.action(),
            final(self)@.wf(),
    {
        proof {
            use_type_invariant(&*self);
        }
        if self.cursor < self.streams.len() {
            let delivered = match outcome {
                PushOutcome::Delivered => true,
                PushOutcome::TransientFailure => false,
            };
            if delivered || self.attempt >= MAX_PUSH_ATTEMPTS {
                self.attempt = 1;
                self.cursor = self.cursor + 1;
            } else {
                self.attempt = self.attempt + 1;
            }
        }
        self.action()
    }
}

} // verus!

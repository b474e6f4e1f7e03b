//! The batching task's scheduler: it takes messages into the batch and
//! decides when the batch is flushed.

use vstd::prelude::*;

use crate::batch::{
    entry_views, lemma_append_values, lemma_append_wf, lemma_position_unique, lemma_total_zero,
    Batch, BatchView, EntryView, LogEntry,
};
use crate::flush::{FlushPass, PassView};
use crate::ingest::{InboundMessage, MessageView};

verus! {

/// What the batching task can be woken by.
#[derive(Debug, PartialEq)]
pub enum BatchEvent {
    /// The periodic timer fired.
    Tick,
    /// A message came off the queue.
    Message(InboundMessage),
    /// The shutdown signal was received.
    Shutdown,
    /// The queue was closed on the sending side.
    QueueClosed,
}

/// An event as specifications see it.
pub enum BatchEventView {
    Tick,
    Message(MessageView),
    Shutdown,
    QueueClosed,
}

impl View for BatchEvent {
    type V = BatchEventView;

    open spec fn view(&self) -> BatchEventView {
        match self {
            BatchEvent::Tick => BatchEventView::Tick,
            BatchEvent::Message(message) => BatchEventView::Message(message@),
            BatchEvent::Shutdown => BatchEventView::Shutdown,
            BatchEvent::QueueClosed => BatchEventView::QueueClosed,
        }
    }
}

/// What the batching task does after an event.
#[derive(Debug, PartialEq)]
pub enum Decision {
    /// Wait for the next event.
    Continue,
    /// The window is closed and handed over as this pass; the scheduler has
    /// begun the next one. Run the pass to its end, then wait for the next
    /// event.
    Flush(FlushPass),
    /// Leave the loop.
    Stop,
}

/// A decision as specifications see it.
pub enum DecisionView {
    Continue,
    Flush(PassView),
    Stop,
}

impl View for Decision {
    type V = DecisionView;

    open spec fn view(&self) -> DecisionView {
        match self {
            Decision::Continue => DecisionView::Continue,
            Decision::Flush(pass) => DecisionView::Flush(pass@),
            Decision::Stop => DecisionView::Stop,
        }
    }
}

/// The log line that a message is kept as.
pub open spec fn entry_of(message: MessageView) -> EntryView {
    EntryView { timestamp: message.timestamp, line: message.payload }
}

/// The scheduler as specifications see it.
pub struct BatcherView {
    /// The lines taken in since the last flush.
    pub batch: BatchView,
    /// How many they are.
    pub count: nat,
    /// The count at which the batch is flushed without waiting for the timer.
    pub batch_size: nat,
    /// Whether the task has been told to stop.
    pub stopped: bool,
}

impl BatcherView {
    /// The scheduler before its first event.
    pub open spec fn start(batch_size: nat) -> BatcherView {
        BatcherView { batch: BatchView::empty(), count: 0, batch_size, stopped: false }
    }

    /// The counter counts the lines of the batch, it stays below the
    /// threshold, and a stopped scheduler holds nothing.
    pub open spec fn wf(self) -> bool {
        &&& self.batch.wf()
        &&& self.count == self.batch.total()
        &&& self.count == 0 || self.count < self.batch_size
        &&& self.stopped ==> self.count == 0
    }

    /// The same scheduler at the start of a new window: nothing taken in,
    /// nothing counted.
    pub open spec fn window(self) -> BatcherView {
        BatcherView { batch: BatchView::empty(), count: 0, ..self }
    }

    /// The scheduler after an event, and what it decides.
    ///
    /// The timer flushes whatever has been taken in, and nothing if that is
    /// nothing. A message is taken in, and flushes the batch at once if it
    /// brings the count to the threshold. A flush takes the whole batch and
    /// leaves a new window behind. The shutdown signal and the end of the
    /// queue stop the scheduler for good, and what was taken in and not
    /// flushed goes with it.
    pub open spec fn on_event(self, event: BatchEventView) -> (BatcherView, DecisionView) {
        if self.stopped {
            (self, DecisionView::Stop)
        } else {
            match event {
                BatchEventView::Tick => if self.count > 0 {
                    (self.window(), DecisionView::Flush(PassView::start(self.batch.streams)))
                } else {
                    (self, DecisionView::Continue)
                },
                BatchEventView::Message(message) => {
                    let batch = self.batch.append(message.device.label, entry_of(message));
                    if self.count + 1 >= self.batch_size {
                        (self.window(), DecisionView::Flush(PassView::start(batch.streams)))
                    } else {
                        (
                            BatcherView { batch, count: self.count + 1, ..self },
                            DecisionView::Continue,
                        )
                    }
                },
                BatchEventView::Shutdown | BatchEventView::QueueClosed => (
                    BatcherView { stopped: true, ..self.window() },
                    DecisionView::Stop,
                ),
            }
        }
    }

    /// The scheduler after a run of events.
    pub open spec fn run(self, events: Seq<BatchEventView>) -> BatcherView
        decreases events.len(),
    {
        if events.len() == 0 {
            self
        } else {
            self.run(events.drop_last()).on_event(events.last()).0
        }
    }

    /// What the scheduler decides at each event of a run.
    pub open spec fn decisions(self, events: Seq<BatchEventView>) -> Seq<DecisionView>
        decreases events.len(),
    {
        if events.len() == 0 {
            Seq::empty()
        } else {
            self.decisions(events.drop_last()).push(
                self.run(events.drop_last()).on_event(events.last()).1,
            )
        }
    }
}

/// The batch after a run of messages has been taken in.
pub open spec fn accumulate(batch: BatchView, messages: Seq<MessageView>) -> BatchView
    decreases messages.len(),
{
    if messages.len() == 0 {
        batch
    } else {
        accumulate(batch, messages.drop_last()).append(
            messages.last().device.label,
            entry_of(messages.last()),
        )
    }
}

/// The lines of those messages of a run that belong to `label`, in the order
/// of the run.
pub open spec fn lines_for(messages: Seq<MessageView>, label: Seq<char>) -> Seq<EntryView>
    decreases messages.len(),
{
    if messages.len() == 0 {
        Seq::empty()
    } else if messages.last().device.label == label {
        lines_for(messages.drop_last(), label).push(entry_of(messages.last()))
    } else {
        lines_for(messages.drop_last(), label)
    }
}

/// A run of messages as a run of events.
pub open spec fn arrivals(messages: Seq<MessageView>) -> Seq<BatchEventView> {
    messages.map_values(|m: MessageView| BatchEventView::Message(m))
}

/// Every event leaves the scheduler well formed.
pub proof fn lemma_on_event_wf(state: BatcherView, event: BatchEventView)
    requires
        state.wf(),
    ensures
        state.on_event(event).0.wf(),
        state.on_event(event).0.batch_size == state.batch_size,
{
    if let BatchEventView::Message(message) = event {
        lemma_append_wf(state.batch, message.device.label, entry_of(message));
    }
}

/// Arrival order is kept: under each label the batch holds, behind what was
/// there before, the lines of exactly those messages of the run that belong
/// to the label, in the order in which they arrived.
pub proof fn lemma_arrival_order(batch: BatchView, messages: Seq<MessageView>, label: Seq<char>)
    requires
        batch.wf(),
    ensures
        accumulate(batch, messages).wf(),
        accumulate(batch, messages).total() == batch.total() + messages.len(),
        accumulate(batch, messages).values(label) == batch.values(label) + lines_for(
            messages,
            label,
        ),
    decreases messages.len(),
{
    if messages.len() > 0 {
        let earlier = accumulate(batch, messages.drop_last());
        let last = messages.last();
        lemma_arrival_order(batch, messages.drop_last(), label);
        lemma_append_wf(earlier, last.device.label, entry_of(last));
        lemma_append_values(earlier, last.device.label, entry_of(last), label);
    }
}

/// While the count stays below the threshold, messages are only taken in.
pub proof fn lemma_below_threshold(state: BatcherView, messages: Seq<MessageView>)
    requires
        state.wf(),
        !state.stopped,
        state.count + messages.len() < state.batch_size,
    ensures
        state.run(arrivals(messages)) == (BatcherView {
            batch: accumulate(state.batch, messages),
            count: state.count + messages.len(),
            ..state
        }),
        state.run(arrivals(messages)).wf(),
        forall|i: int|
            0 <= i < messages.len() ==> #[trigger] state.decisions(arrivals(messages))[i]
                == DecisionView::Continue,
        state.decisions(arrivals(messages)).len() == messages.len(),
    decreases messages.len(),
{
    let events = arrivals(messages);
    if messages.len() > 0 {
        assert(events.drop_last() =~= arrivals(messages.drop_last()));
        lemma_below_threshold(state, messages.drop_last());
        lemma_on_event_wf(state.run(events.drop_last()), events.last());
    }
}

/// The size trigger: the message that brings the count to the threshold is
/// taken in and flushed in the same step. Until then nothing is flushed; the
/// pass holds every message of the window, grouped by label and in arrival
/// order; and the scheduler is at the start of a new window before another
/// message can be taken in.
pub proof fn lemma_size_trigger(state: BatcherView, messages: Seq<MessageView>)
    requires
        state.wf(),
        !state.stopped,
        messages.len() > 0,
        state.count + messages.len() == state.batch_size,
    ensures
        state.decisions(arrivals(messages)).len() == messages.len(),
        forall|i: int|
            0 <= i < messages.len() - 1 ==> #[trigger] state.decisions(arrivals(messages))[i]
                == DecisionView::Continue,
        state.decisions(arrivals(messages)).last() == DecisionView::Flush(
            PassView::start(accumulate(state.batch, messages).streams),
        ),
        state.run(arrivals(messages)) == state.window(),
{
    // Every message but the last stays below the threshold.
    assert(arrivals(messages).drop_last() =~= arrivals(messages.drop_last()));
    lemma_below_threshold(state, messages.drop_last());
}

/// Ordering: whichever trigger ends a window, the pass it starts holds one
/// stream for each label that sent anything during the window, and the stream
/// holds the lines of exactly that label's messages, in the order in which
/// they arrived.
///
/// The window is the run of messages taken in since the scheduler started or
/// last flushed. If it fills the threshold, its last message starts the pass;
/// if it stays below, the next firing of the timer does.
pub proof fn lemma_flushed_in_arrival_order(batch_size: nat, messages: Seq<MessageView>)
    requires
        0 < messages.len() <= batch_size,
    ensures
        ({
            let window = accumulate(BatchView::empty(), messages);
            let events = if messages.len() == batch_size {
                arrivals(messages)
            } else {
                arrivals(messages).push(BatchEventView::Tick)
            };
            let state = BatcherView::start(batch_size);
            &&& state.decisions(events).last() == DecisionView::Flush(
                PassView::start(window.streams),
            )
            &&& state.run(events) == state
            &&& window.wf()
            &&& forall|i: int|
                0 <= i < window.streams.len() ==> (#[trigger] window.streams[i]).entries
                    == lines_for(messages, window.streams[i].label)
            &&& forall|label: Seq<char>|
                lines_for(messages, label).len() > 0 <==> #[trigger] window.contains(label)
        }),
{
    let window = accumulate(BatchView::empty(), messages);
    let state = BatcherView::start(batch_size);
    lemma_arrival_order(BatchView::empty(), messages, Seq::empty());
    assert forall|label: Seq<char>| #[trigger]
        window.values(label) == lines_for(messages, label) by {
        lemma_arrival_order(BatchView::empty(), messages, label);
    }
    assert forall|i: int|
        0 <= i < window.streams.len() implies (#[trigger] window.streams[i]).entries == lines_for(
        messages,
        window.streams[i].label,
    ) by {
        lemma_arrival_order(BatchView::empty(), messages, window.streams[i].label);
        lemma_position_unique(window, i);
    }
    assert forall|label: Seq<char>|
        lines_for(messages, label).len() > 0 <==> #[trigger] window.contains(label) by {
        assert(window.values(label) == lines_for(messages, label));
    }
    if messages.len() == batch_size {
        lemma_size_trigger(state, messages);
    } else {
        let events = arrivals(messages).push(BatchEventView::Tick);
        assert(events.drop_last() =~= arrivals(messages));
        lemma_below_threshold(state, messages);
    }
}

/// The timeout trigger: when the timer fires, a batch that holds anything is
/// flushed whole, however few lines it holds, and a new window starts; an
/// empty batch is left alone, and no pass is started. Either way nothing that
/// was taken in before the timer fired still waits after it: a line waits for
/// one period of the timer at most.
pub proof fn lemma_timeout_trigger(state: BatcherView)
    requires
        state.wf(),
        !state.stopped,
    ensures
        state.on_event(BatchEventView::Tick) == if state.batch.streams.len() > 0 {
            (state.window(), DecisionView::Flush(PassView::start(state.batch.streams)))
        } else {
            (state, DecisionView::Continue)
        },
        state.on_event(BatchEventView::Tick).0.batch == BatchView::empty(),
        state.on_event(BatchEventView::Tick).0.count == 0,
{
    lemma_total_zero(state.batch);
    if state.batch.streams.len() == 0 {
        assert(state.batch.streams =~= Seq::empty());
    }
}

/// Whenever a flush is decided, the scheduler is left at the start of a new
/// window, with an empty batch and a counter of zero. The pass works on what
/// it was given and cannot reach the scheduler, so the window starts from
/// zero however the pass ends.
pub proof fn lemma_window_restarts(state: BatcherView, event: BatchEventView)
    requires
        state.wf(),
    ensures
        state.on_event(event).1 is Flush ==> {
            &&& state.on_event(event).0 == state.window()
            &&& state.on_event(event).0.batch == BatchView::empty()
            &&& state.on_event(event).0.count == 0
        },
{
}

/// A stopped scheduler answers every event by stopping again.
pub proof fn lemma_stopped_stays(state: BatcherView, events: Seq<BatchEventView>)
    requires
        state.stopped,
    ensures
        state.run(events) == state,
        state.decisions(events).len() == events.len(),
        forall|i: int|
            0 <= i < events.len() ==> #[trigger] state.decisions(events)[i] == DecisionView::Stop,
    decreases events.len(),
{
    if events.len() > 0 {
        lemma_stopped_stays(state, events.drop_last());
    }
}

/// What is in the batch when the shutdown signal arrives, or when the queue
/// is closed, is never delivered: the scheduler stops without a flush, holds
/// nothing afterwards, and decides on no flush ever again.
pub proof fn lemma_drop_on_cancel(
    state: BatcherView,
    signal: BatchEventView,
    later: Seq<BatchEventView>,
)
    requires
        !state.stopped,
        signal is Shutdown || signal is QueueClosed,
    ensures
        state.on_event(signal).1 == DecisionView::Stop,
        state.on_event(signal).0.batch == BatchView::empty(),
        forall|i: int|
            0 <= i < later.len() ==> #[trigger] state.on_event(signal).0.decisions(later)[i]
                == DecisionView::Stop,
{
    lemma_stopped_stays(state.on_event(signal).0, later);
}

/// The batching task's scheduler.
///
/// It owns the batch and the counter, and is driven from outside: the driver
/// waits for the next event, hands it over, and does what is decided.
pub struct Batcher {
    batch: Batch,
    count: usize,
    batch_size: usize,
    stopped: bool,
}

impl View for Batcher {
    type V = BatcherView;

    closed spec fn view(&self) -> BatcherView {
        BatcherView {
            batch: self.batch@,
            count: self.count as nat,
            batch_size: self.batch_size as nat,
            stopped: self.stopped,
        }
    }
}

impl Batcher {
    #[verifier::type_invariant]
    spec fn consistent(self) -> bool {
        self@.wf()
    }

    /// A scheduler that flushes, at the latest, when `batch_size` messages
    /// have been taken in.
    pub fn new(batch_size: usize) -> (batcher: Batcher)
        ensures
            batcher@ == BatcherView::start(batch_size as nat),
    {
        Batcher { batch: Batch::new(), count: 0, batch_size, stopped: false }
    }

    /// Takes note of an event and decides what the task does next.
    pub fn on_event(&mut self, event: BatchEvent) -> (decision: Decision)
        ensures
            (final(self)@, decision@) == old(self)@.on_event(event@),
            final(self)@.wf(),
    {
        proof {
            use_type_invariant(&*self);
            lemma_on_event_wf(self@, event@);
        }
        if self.stopped {
            return Decision::Stop;
        }
        let mut taken = Batcher::new(0);
        std::mem::swap(self, &mut taken);
        let Batcher { mut batch, count, batch_size, stopped } = taken;
        match event {
            BatchEvent::Tick => {
                if count > 0 {
                    let pass = FlushPass::new(batch.into_streams());
                    *self = Batcher { batch: Batch::new(), count: 0, batch_size, stopped };
                    Decision::Flush(pass)
                } else {
                    *self = Batcher { batch, count, batch_size, stopped };
                    Decision::Continue
                }
            },
            BatchEvent::Message(message) => {
                let InboundMessage { timestamp, payload, device } = message;
                batch.append(device.label, LogEntry { timestamp, line: payload });
                if count + 1 >= batch_size {
                    let pass = FlushPass::new(batch.into_streams());
                    *self = Batcher { batch: Batch::new(), count: 0, batch_size, stopped };
                    Decision::Flush(pass)
                } else {
                    *self = Batcher { batch, count: count + 1, batch_size, stopped };
                    Decision::Continue
                }
            },
            BatchEvent::Shutdown | BatchEvent::QueueClosed => {
                *self = Batcher { batch: Batch::new(), count: 0, batch_size, stopped: true };
                Decision::Stop
            },
        }
    }

    /// How many messages have been taken in since the last flush.
    pub fn count(&self) -> (count: usize)
        ensures
            count == self@.count,
    {
        self.count
    }

    /// The count at which the batch is flushed without waiting for the timer.
    pub fn batch_size(&self) -> (batch_size: usize)
        ensures
            batch_size == self@.batch_size,
    {
        self.batch_size
    }

    /// Whether the scheduler has been told to stop.
    pub fn is_stopped(&self) -> (stopped: bool)
        ensures
            stopped == self@.stopped,
    {
        self.stopped
    }

    /// A copy of the lines that wait under `label`, oldest first.
    pub fn pending(&self, label: &str) -> (lines: Vec<LogEntry>)
        ensures
            entry_views(lines@) == self@.batch.values(label@),
    {
        self.batch.entries(label)
    }
}

} // verus!

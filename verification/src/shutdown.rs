//! The shutdown coordinator: one cancellation signal for both tasks, and the
//! rule for when the process may leave.

use vstd::prelude::*;

verus! {

/// The two tasks of the pipeline.
#[derive(Debug, Clone, Copy, PartialEq, Eq, Structural)]
pub enum Task {
    /// Polls the transport and fills the queue.
    Ingestion,
    /// Empties the queue, batches and flushes.
    Batching,
}

/// What the top-level loop can be woken by.
#[derive(Debug, Clone, Copy, PartialEq, Eq, Structural)]
pub enum SupervisorEvent {
    /// The operator interrupted the process.
    Interrupt,
    /// A task has returned.
    Finished(Task),
}

/// What the top-level loop does after an event.
#[derive(Debug, Clone, Copy, PartialEq, Eq, Structural)]
pub enum SupervisorAction {
    /// Send the cancellation signal to both tasks, then go on waiting.
    Broadcast,
    /// Go on waiting.
    Wait,
    /// Both tasks have returned: leave.
    Exit,
}

/// The coordinator as specifications see it.
pub struct CoordinatorView {
    /// Whether the cancellation signal has been sent.
    pub signalled: bool,
    /// Whether the ingestion task has returned.
    pub ingestion_done: bool,
    /// Whether the batching task has returned.
    pub batching_done: bool,
}

impl CoordinatorView {
    /// The coordinator while both tasks run and nobody has interrupted.
    pub open spec fn start() -> CoordinatorView {
        CoordinatorView { signalled: false, ingestion_done: false, batching_done: false }
    }

    /// Whether both tasks have returned.
    pub open spec fn all_done(self) -> bool {
        self.ingestion_done && self.batching_done
    }

    /// Whether `task` has returned.
    pub open spec fn is_done(self, task: Task) -> bool {
        match task {
            Task::Ingestion => self.ingestion_done,
            Task::Batching => self.batching_done,
        }
    }

    /// What the coordinator knows after an event.
    pub open spec fn note(self, event: SupervisorEvent) -> CoordinatorView {
        match event {
            SupervisorEvent::Interrupt => CoordinatorView {
                signalled: self.signalled || !self.all_done(),
                ..self
            },
            SupervisorEvent::Finished(Task::Ingestion) => CoordinatorView {
                ingestion_done: true,
                ..self
            },
            SupervisorEvent::Finished(Task::Batching) => CoordinatorView {
                batching_done: true,
                ..self
            },
        }
    }

    /// The coordinator after an event, and what the loop does.
    ///
    /// The loop leaves once both tasks have returned, and no earlier. The
    /// first interrupt while a task still runs is answered by the signal;
    /// every later interrupt changes nothing.
    pub open spec fn on_event(self, event: SupervisorEvent) -> (CoordinatorView, SupervisorAction) {
        let next = self.note(event);
        if next.all_done() {
            (next, SupervisorAction::Exit)
        } else if event == SupervisorEvent::Interrupt && !self.signalled {
            (next, SupervisorAction::Broadcast)
        } else {
            (next, SupervisorAction::Wait)
        }
    }

    /// The coordinator after a run of events.
    pub open spec fn run(self, events: Seq<SupervisorEvent>) -> CoordinatorView
        decreases events.len(),
    {
        if events.len() == 0 {
            self
        } else {
            self.run(events.drop_last()).on_event(events.last()).0
        }
    }

    /// What the loop does at each event of a run.
    pub open spec fn actions(self, events: Seq<SupervisorEvent>) -> Seq<SupervisorAction>
        decreases events.len(),
    {
        if events.len() == 0 {
            Seq::empty()
        } else {
            self.actions(events.drop_last()).push(
                self.run(events.drop_last()).on_event(events.last()).1,
            )
        }
    }
}

/// How often the signal is sent in a run of actions.
pub open spec fn broadcasts(actions: Seq<SupervisorAction>) -> nat
    decreases actions.len(),
{
    if actions.len() == 0 {
        0
    } else if actions.last() == SupervisorAction::Broadcast {
        broadcasts(actions.drop_last()) + 1
    } else {
        broadcasts(actions.drop_last())
    }
}

/// What has happened stays so: a signal that was sent and a task that has
/// returned are not forgotten.
pub proof fn lemma_run_monotone(state: CoordinatorView, events: Seq<SupervisorEvent>)
    ensures
        state.actions(events).len() == events.len(),
        state.signalled ==> state.run(events).signalled,
        state.ingestion_done ==> state.run(events).ingestion_done,
        state.batching_done ==> state.run(events).batching_done,
    decreases events.len(),
{
    if events.len() > 0 {
        lemma_run_monotone(state, events.drop_last());
    }
}

/// The signal is sent at most once, however often the process is
/// interrupted: not at all once it has been sent, and once at most before.
pub proof fn lemma_signal_fires_once(state: CoordinatorView, events: Seq<SupervisorEvent>)
    ensures
        broadcasts(state.actions(events)) <= 1,
        state.signalled ==> broadcasts(state.actions(events)) == 0,
        broadcasts(state.actions(events)) == 1 ==> state.run(events).signalled,
        !state.run(events).signalled ==> broadcasts(state.actions(events)) == 0,
    decreases events.len(),
{
    if events.len() > 0 {
        let earlier = events.drop_last();
        lemma_signal_fires_once(state, earlier);
        lemma_run_monotone(state, earlier);
        assert(state.actions(events).drop_last() =~= state.actions(earlier));
    }
}

/// The loop leaves exactly at an event after which both tasks have returned:
/// it never leaves while a task still runs, and an interrupt alone never
/// makes it leave.
pub proof fn lemma_exit_waits_for_both(state: CoordinatorView, event: SupervisorEvent)
    ensures
        state.on_event(event).1 == SupervisorAction::Exit <==> state.on_event(event).0.all_done(),
        state.on_event(event).0.all_done() <==> {
            match event {
                SupervisorEvent::Interrupt => state.all_done(),
                SupervisorEvent::Finished(Task::Ingestion) => state.batching_done,
                SupervisorEvent::Finished(Task::Batching) => state.ingestion_done,
            }
        },
{
}

/// The shutdown coordinator of the top-level loop.
#[derive(Debug, Clone, Copy, PartialEq, Eq)]
pub struct ShutdownCoordinator {
    signalled: bool,
    ingestion_done: bool,
    batching_done: bool,
}

impl View for ShutdownCoordinator {
    type V = CoordinatorView;

    closed spec fn view(&self) -> CoordinatorView {
        CoordinatorView {
            signalled: self.signalled,
            ingestion_done: self.ingestion_done,
            batching_done: self.batching_done,
        }
    }
}

impl ShutdownCoordinator {
    /// The coordinator of two tasks that have just been started.
    pub fn new() -> (coordinator: ShutdownCoordinator)
        ensures
            coordinator@ == CoordinatorView::start(),
    {
        ShutdownCoordinator { signalled: false, ingestion_done: false, batching_done: false }
    }

    /// Takes note of an event and decides what the loop does next.
    pub fn on_event(&mut self, event: SupervisorEvent) -> (action: SupervisorAction)
        ensures
            (final(self)@, action) == old(self)@.on_event(event),
    {
        let was_signalled = self.signalled;
        let interrupt = match event {
            SupervisorEvent::Interrupt => {
                if !(self.ingestion_done && self.batching_done) {
                    self.signalled = true;
                }
                true
            },
            SupervisorEvent::Finished(Task::Ingestion) => {
                self.ingestion_done = true;
                false
            },
            SupervisorEvent::Finished(Task::Batching) => {
                self.batching_done = true;
                false
            },
        };
        if self.ingestion_done && self.batching_done {
            SupervisorAction::Exit
        } else if interrupt && !was_signalled {
            SupervisorAction::Broadcast
        } else {
            SupervisorAction::Wait
        }
    }

    /// Whether the cancellation signal has been sent.
    pub fn is_signalled(&self) -> (signalled: bool)
        ensures
            signalled == self@.signalled,
    {
        self.signalled
    }

    /// Whether both tasks have returned.
    pub fn all_done(&self) -> (done: bool)
        ensures
            done == self@.all_done(),
    {
        self.ingestion_done && self.batching_done
    }

    /// Whether `task` has not returned yet.
    pub fn is_running(&self, task: Task) -> (running: bool)
        ensures
            running == !self@.is_done(task),
    {
        match task {
            Task::Ingestion => !self.ingestion_done,
            Task::Batching => !self.batching_done,
        }
    }
}

} // verus!

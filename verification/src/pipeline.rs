//! Startup: subscribing to the configured topics, and the startup gate:
//! whether the pipeline may start, and what it starts with.

use vstd::prelude::*;

use crate::batcher::{Batcher, BatcherView};
use crate::config::{device_views, Config, ConfigDevice, DeviceView};
use crate::ingest::{react_spec, IngestActionView, IngestEventView};
use crate::router::{names_topic, TopicRouter};
use crate::shutdown::{CoordinatorView, ShutdownCoordinator};

verus! {

/// Places on the queue between the two tasks for each configured device.
pub const QUEUE_SLOTS_PER_DEVICE: usize = 512;

/// A configured device, and whether the broker took the subscription to its
/// topic.
#[derive(Debug, PartialEq)]
pub struct Subscription {
    pub device: ConfigDevice,
    pub established: bool,
}

/// A subscription as specifications see it.
pub struct SubscriptionView {
    pub device: DeviceView,
    pub established: bool,
}

impl View for Subscription {
    type V = SubscriptionView;

    open spec fn view(&self) -> SubscriptionView {
        SubscriptionView { device: self.device@, established: self.established }
    }
}

/// The views of a list of subscriptions, in order.
pub open spec fn subscription_views(subscriptions: Seq<Subscription>) -> Seq<SubscriptionView> {
    subscriptions.map_values(|s: Subscription| s@)
}

/// Whether the broker took at least one subscription.
pub open spec fn any_established(subscriptions: Seq<SubscriptionView>) -> bool {
    exists|i: int| 0 <= i < subscriptions.len() && (#[trigger] subscriptions[i]).established
}

/// Whether the broker took a subscription to `topic`.
pub open spec fn established_topic(subscriptions: Seq<SubscriptionView>, topic: Seq<char>) -> bool {
    exists|i: int|
        0 <= i < subscriptions.len() && (#[trigger] subscriptions[i]).established
            && subscriptions[i].device.topic == topic
}

/// `active` routes a topic exactly if the configuration routes it and the
/// broker took a subscription to it, and then to the configured device.
pub open spec fn routes_established(
    active: Map<Seq<char>, DeviceView>,
    configured: Map<Seq<char>, DeviceView>,
    subscriptions: Seq<SubscriptionView>,
) -> bool {
    &&& forall|topic: Seq<char>| #[trigger]
        active.contains_key(topic) <==> configured.contains_key(topic) && established_topic(
            subscriptions,
            topic,
        )
    &&& forall|topic: Seq<char>| #[trigger]
        active.contains_key(topic) ==> active[topic] == configured[topic]
}

/// The round of subscriptions as specifications see it: the configured
/// devices, and what came of the subscriptions made so far, in order.
pub struct RoundView {
    pub devices: Seq<DeviceView>,
    pub outcomes: Seq<bool>,
}

impl RoundView {
    /// The round before its first subscription.
    pub open spec fn start(devices: Seq<DeviceView>) -> RoundView {
        RoundView { devices, outcomes: Seq::empty() }
    }

    /// The topic to subscribe to next: that of the first device without an
    /// outcome, as long as there is one.
    pub open spec fn next_topic(self) -> Option<Seq<char>> {
        if self.outcomes.len() < self.devices.len() {
            Some(self.devices[self.outcomes.len() as int].topic)
        } else {
            None
        }
    }

    /// The round after the subscription it asked for has ended. Whether the
    /// broker took it or not, the round goes on to the next device.
    pub open spec fn record(self, established: bool) -> RoundView {
        if self.outcomes.len() < self.devices.len() {
            RoundView { devices: self.devices, outcomes: self.outcomes.push(established) }
        } else {
            self
        }
    }

    /// The round after a run of outcomes.
    pub open spec fn run(self, outcomes: Seq<bool>) -> RoundView
        decreases outcomes.len(),
    {
        if outcomes.len() == 0 {
            self
        } else {
            self.run(outcomes.drop_last()).record(outcomes.last())
        }
    }

    /// Every configured device with the outcome of its subscription; a device
    /// that the round has not come to counts as not subscribed.
    pub open spec fn subscriptions(self) -> Seq<SubscriptionView> {
        Seq::new(
            self.devices.len(),
            |i: int|
                SubscriptionView {
                    device: self.devices[i],
                    established: i < self.outcomes.len() && self.outcomes[i],
                },
        )
    }
}

/// Each configured topic is subscribed to exactly once, in the order of the
/// configuration, and a subscription that fails does not stop the later
/// ones: whatever the outcomes so far, the round asks next for the topic of
/// the device behind them, and it is over when every device has its outcome.
pub proof fn lemma_round_asks_every_topic(devices: Seq<DeviceView>, outcomes: Seq<bool>)
    requires
        outcomes.len() <= devices.len(),
    ensures
        RoundView::start(devices).run(outcomes) == (RoundView { devices, outcomes }),
        RoundView::start(devices).run(outcomes).next_topic() == if outcomes.len()
            < devices.len() {
            Some(devices[outcomes.len() as int].topic)
        } else {
            None
        },
        outcomes.len() == devices.len() ==> forall|i: int|
            0 <= i < devices.len() ==> #[trigger] RoundView::start(devices).run(
                outcomes,
            ).subscriptions()[i] == (SubscriptionView {
                device: devices[i],
                established: outcomes[i],
            }),
    decreases outcomes.len(),
{
    if outcomes.len() > 0 {
        lemma_round_asks_every_topic(devices, outcomes.drop_last());
        assert(outcomes.drop_last().push(outcomes.last()) =~= outcomes);
    } else {
        assert(outcomes =~= Seq::empty());
    }
}

/// The round of subscriptions at startup.
///
/// It is driven from outside: the driver subscribes to the topic that the
/// round asks for and reports whether the broker took the subscription.
pub struct SubscriptionRound {
    devices: Vec<ConfigDevice>,
    outcomes: Vec<bool>,
}

impl View for SubscriptionRound {
    type V = RoundView;

    closed spec fn view(&self) -> RoundView {
        RoundView { devices: device_views(self.devices@), outcomes: self.outcomes@ }
    }
}

impl SubscriptionRound {
    /// A round over the configured devices.
    pub fn new(devices: &Vec<ConfigDevice>) -> (round: SubscriptionRound)
        ensures
            round@ == RoundView::start(device_views(devices@)),
    {
        let copy = devices.clone();
        assert(copy@ =~= devices@);
        SubscriptionRound { devices: copy, outcomes: Vec::new() }
    }

    /// The topic to subscribe to now, or `None` when the round is over.
    pub fn next_topic(&self) -> (topic: Option<String>)
        ensures
            match self@.next_topic() {
                Some(next) => topic matches Some(name) && name@ == next,
                None => topic is None,
            },
    {
        if self.outcomes.len() < self.devices.len() {
            Some(self.devices[self.outcomes.len()].topic.clone())
        } else {
            None
        }
    }

    /// Takes note of what came of the subscription that the round asked for.
    /// A round that is over stays as it is.
    pub fn record(&mut self, established: bool)
        ensures
            final(self)@ == old(self)@.record(established),
    {
        if self.outcomes.len() < self.devices.len() {
            self.outcomes.push(established);
        }
    }

    /// Every configured device with the outcome of its subscription.
    pub fn into_subscriptions(self) -> (subscriptions: Vec<Subscription>)
        ensures
            subscription_views(subscriptions@) == self@.subscriptions(),
    {
        let ghost expected = self@.subscriptions();
        let SubscriptionRound { devices, outcomes } = self;
        let mut subscriptions: Vec<Subscription> = Vec::new();
        let mut i: usize = 0;
        while i < devices.len()
            invariant
                i <= devices.len(),
                subscriptions@.len() == i,
                expected.len() == devices@.len(),
                forall|k: int|
                    0 <= k < devices@.len() ==> #[trigger] expected[k] == (SubscriptionView {
                        device: devices@[k]@,
                        established: k < outcomes@.len() && outcomes@[k],
                    }),
                forall|k: int| 0 <= k < i ==> (#[trigger] subscriptions@[k])@ == expected[k],
            decreases devices.len() - i,
        {
            let established = i < outcomes.len() && outcomes[i];
            subscriptions.push(Subscription { device: devices[i].clone(), established });
            i = i + 1;
        }
        assert(subscription_views(subscriptions@) =~= expected);
        subscriptions
    }
}

/// Why the pipeline does not start.
#[derive(Debug, Clone, Copy, PartialEq, Eq, Structural)]
pub enum StartupError {
    /// The broker took none of the subscriptions.
    NoSubscription,
    /// The queue for so many devices would not fit the machine.
    QueueTooLarge,
}

/// The reason, if there is one, why the pipeline does not start with these
/// subscriptions and this many configured devices.
pub open spec fn startup_fault(
    subscriptions: Seq<SubscriptionView>,
    configured: nat,
) -> Option<StartupError> {
    if !any_established(subscriptions) {
        Some(StartupError::NoSubscription)
    } else if QUEUE_SLOTS_PER_DEVICE * configured > usize::MAX {
        Some(StartupError::QueueTooLarge)
    } else {
        None
    }
}

/// What the two tasks and the top-level loop are started with.
pub struct Pipeline {
    /// Routes the topics whose subscription the broker took.
    pub router: TopicRouter,
    /// The scheduler of the batching task.
    pub batcher: Batcher,
    /// The capacity of the queue between the tasks.
    pub queue_capacity: usize,
    /// The period of the batching task's timer, in seconds.
    pub tick_seconds: u64,
    /// The coordinator of the top-level loop.
    pub coordinator: ShutdownCoordinator,
}

/// The capacity of the queue for `devices` configured devices, where it fits.
pub fn queue_capacity(devices: usize) -> (capacity: Option<usize>)
    ensures
        capacity == if QUEUE_SLOTS_PER_DEVICE * devices <= usize::MAX {
            Some((QUEUE_SLOTS_PER_DEVICE * devices) as usize)
        } else {
            None::<usize>
        },
{
    QUEUE_SLOTS_PER_DEVICE.checked_mul(devices)
}

/// The startup gate: with no subscription that the broker took, the pipeline
/// does not start, however many topics are configured; with one or more it
/// starts, on every machine that can hold the queue.
pub proof fn lemma_startup_gate(subscriptions: Seq<SubscriptionView>, configured: nat)
    ensures
        !any_established(subscriptions) ==> startup_fault(subscriptions, configured) == Some(
            StartupError::NoSubscription,
        ),
        any_established(subscriptions) && QUEUE_SLOTS_PER_DEVICE * configured <= usize::MAX
            ==> startup_fault(subscriptions, configured) is None,
        startup_fault(subscriptions, configured) is None ==> any_established(subscriptions),
{
}

/// The startup gate for what comes in: behind the router that the pipeline
/// starts with, a published message is passed on only if the broker took a
/// subscription to its topic, and then as a message of the device that the
/// configuration names for the topic.
pub proof fn lemma_only_subscribed_deliver(
    active: Map<Seq<char>, DeviceView>,
    configured: Map<Seq<char>, DeviceView>,
    subscriptions: Seq<SubscriptionView>,
    event: IngestEventView,
)
    requires
        routes_established(active, configured, subscriptions),
    ensures
        react_spec(active, event) matches IngestActionView::Enqueue(message) ==> {
            &&& event matches IngestEventView::Publish { topic, .. }
            &&& established_topic(subscriptions, topic)
            &&& configured.contains_key(topic)
            &&& message.device == configured[topic]
        },
{
    if let IngestActionView::Enqueue(message) = react_spec(active, event) {
        assert(active.contains_key(event->topic));
    }
}

/// Decides, once every configured topic has been subscribed to or has
/// failed, whether the pipeline starts.
///
/// It starts if the broker took at least one subscription. The router then
/// knows, of the configured topics, those of the established subscriptions
/// and no others; the scheduler starts empty with the configured threshold;
/// the queue has room for 512 messages for each configured device; and the
/// timer's period is the configured timeout.
pub fn start(
    cfg: &Config,
    subscriptions: Vec<Subscription>,
) -> (started: Result<Pipeline, StartupError>)
    ensures
        match startup_fault(subscription_views(subscriptions@), cfg.device@.len()) {
            Some(fault) => started matches Err(reason) && reason == fault,
            None => {
                &&& started matches Ok(pipeline)
                &&& routes_established(
                    pipeline.router@,
                    cfg.topic2device@,
                    subscription_views(subscriptions@),
                )
                &&& pipeline.batcher@ == BatcherView::start(cfg.loki.batch_size as nat)
                &&& pipeline.queue_capacity == QUEUE_SLOTS_PER_DEVICE * cfg.device@.len()
                &&& pipeline.tick_seconds == cfg.loki.batch_timeout_seconds
                &&& pipeline.coordinator@ == CoordinatorView::start()
            },
        },
{
    let ghost views = subscription_views(subscriptions@);
    let mut topics: Vec<String> = Vec::new();
    let mut i: usize = 0;
    while i < subscriptions.len()
        invariant
            i <= subscriptions.len(),
            views == subscription_views(subscriptions@),
            topics@.len() > 0 <==> any_established(views.take(i as int)),
            forall|topic: Seq<char>|
                names_topic(topics@, topic) <==> #[trigger] established_topic(
                    views.take(i as int),
                    topic,
                ),
        decreases subscriptions.len() - i,
    {
        let subscription = &subscriptions[i];
        let ghost before = views.take(i as int);
        let ghost after = views.take(i + 1);
        let ghost old_topics = topics@;
        if subscription.established {
            topics.push(subscription.device.topic.clone());
        }
        proof {
            assert(after[i as int] == subscription@);
            assert(any_established(after) <==> any_established(before)
                || subscription.established) by {
                if any_established(after) {
                    let a = choose|a: int| 0 <= a < after.len() && (#[trigger] after[a]).established;
                    if a < i {
                        assert(before[a].established);
                    }
                }
                if any_established(before) {
                    let a = choose|a: int|
                        0 <= a < before.len() && (#[trigger] before[a]).established;
                    assert(after[a].established);
                }
            }
            assert forall|topic: Seq<char>|
                names_topic(topics@, topic) <==> #[trigger] established_topic(after, topic) by {
                assert(names_topic(old_topics, topic) <==> established_topic(before, topic));
                if established_topic(after, topic) {
                    let a = choose|a: int|
                        0 <= a < after.len() && (#[trigger] after[a]).established
                            && after[a].device.topic == topic;
                    if a < i {
                        assert(before[a].established && before[a].device.topic == topic);
                    } else {
                        assert(topics@[topics@.len() - 1]@ == topic);
                    }
                }
                if established_topic(before, topic) {
                    let a = choose|a: int|
                        0 <= a < before.len() && (#[trigger] before[a]).established
                            && before[a].device.topic == topic;
                    assert(after[a].established && after[a].device.topic == topic);
                }
                if names_topic(old_topics, topic) {
                    let k = choose|k: int|
                        0 <= k < old_topics.len() && (#[trigger] old_topics[k])@ == topic;
                    assert(topics@[k]@ == topic);
                }
                if names_topic(topics@, topic) {
                    let k = choose|k: int|
                        0 <= k < topics@.len() && (#[trigger] topics@[k])@ == topic;
                    if k < old_topics.len() {
                        assert(old_topics[k]@ == topic);
                    } else {
                        assert(after[i as int].established && after[i as int].device.topic
                            == topic);
                    }
                }
            }
        }
        i = i + 1;
    }
    proof {
        assert(views.take(i as int) =~= views);
    }
    if topics.len() == 0 {
        return Err(StartupError::NoSubscription);
    }
    let queue_capacity = match queue_capacity(cfg.device.len()) {
        Some(capacity) => capacity,
        None => {
            return Err(StartupError::QueueTooLarge);
        },
    };
    Ok(
        Pipeline {
            router: cfg.topic2device.restricted(&topics),
            batcher: Batcher::new(cfg.loki.batch_size),
            queue_capacity,
            tick_seconds: cfg.loki.batch_timeout_seconds,
            coordinator: ShutdownCoordinator::new(),
        },
    )
}

} // verus!

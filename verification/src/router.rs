//! The lookup table from subscription topic to device.

use vstd::hash_map::StringHashMap;
use vstd::prelude::*;

use crate::config::{device_views, distinct_topics, has_topic, ConfigDevice, DeviceView};

verus! {

/// Whether `topic` is one of `topics`.
pub open spec fn names_topic(topics: Seq<String>, topic: Seq<char>) -> bool {
    exists|i: int| 0 <= i < topics.len() && (#[trigger] topics[i])@ == topic
}

/// Maps each topic to the device that publishes on it.
///
/// The table is filled once, from a device list, and only read afterwards.
pub struct TopicRouter {
    table: StringHashMap<ConfigDevice>,
}

impl View for TopicRouter {
    type V = Map<Seq<char>, DeviceView>;

    closed spec fn view(&self) -> Map<Seq<char>, DeviceView> {
        self.table@.map_values(|d: ConfigDevice| d@)
    }
}

impl TopicRouter {
    /// Every device is filed under its own topic.
    #[verifier::type_invariant]
    spec fn filed_by_topic(self) -> bool {
        forall|topic: Seq<char>| #[trigger]
            self.table@.contains_key(topic) ==> self.table@[topic].topic@ == topic
    }

    /// The table holds exactly the devices of `devices`, each under its topic.
    pub open spec fn routes(&self, devices: Seq<DeviceView>) -> bool {
        &&& forall|topic: Seq<char>| #[trigger]
            self@.contains_key(topic) <==> has_topic(devices, topic)
        &&& forall|i: int|
            0 <= i < devices.len() ==> self@[(#[trigger] devices[i]).topic] == devices[i]
    }

    /// Builds the table for a device list, or refuses a list in which two
    /// devices share a topic.
    pub fn new(devices: &Vec<ConfigDevice>) -> (built: Option<TopicRouter>)
        ensures
            built is Some <==> distinct_topics(device_views(devices@)),
            built matches Some(router) ==> router.routes(device_views(devices@)),
    {
        let ghost views = device_views(devices@);
        let mut table: StringHashMap<ConfigDevice> = StringHashMap::new();
        let mut i: usize = 0;
        while i < devices.len()
            invariant
                i <= devices.len(),
                views == device_views(devices@),
                forall|a: int, b: int|
                    0 <= a < b < i ==> (#[trigger] views[a]).topic != (#[trigger] views[b]).topic,
                forall|topic: Seq<char>| #[trigger]
                    table@.contains_key(topic) <==> has_topic(views.take(i as int), topic),
                forall|a: int| 0 <= a < i ==> table@[(#[trigger] views[a]).topic]@ == views[a],
                forall|topic: Seq<char>| #[trigger]
                    table@.contains_key(topic) ==> table@[topic].topic@ == topic,
            decreases devices.len() - i,
        {
            let device = &devices[i];
            assert(views[i as int] == device@);
            if table.contains_key(device.topic.as_str()) {
                proof {
                    let a = choose|a: int|
                        0 <= a < views.take(i as int).len() && (#[trigger] views.take(
                            i as int,
                        )[a]).topic == device.topic@;
                    assert(views[a].topic == views[i as int].topic);
                }
                return None;
            }
            proof {
                let before = views.take(i as int);
                assert forall|a: int| 0 <= a < i implies (#[trigger] views[a]).topic
                    != device.topic@ by {
                    if views[a].topic == device.topic@ {
                        assert(before[a].topic == device.topic@);
                        assert(has_topic(before, device.topic@));
                    }
                }
            }
            table.insert(device.topic.clone(), device.clone());
            proof {
                let before = views.take(i as int);
                let after = views.take(i + 1);
                assert forall|topic: Seq<char>| #[trigger]
                    table@.contains_key(topic) <==> has_topic(after, topic) by {
                    if has_topic(after, topic) {
                        let a = choose|a: int|
                            0 <= a < after.len() && (#[trigger] after[a]).topic == topic;
                        if a < i {
                            assert(before[a].topic == topic);
                        }
                    }
                    if has_topic(before, topic) {
                        let a = choose|a: int|
                            0 <= a < before.len() && (#[trigger] before[a]).topic == topic;
                        assert(after[a].topic == topic);
                    }
                    if topic == device.topic@ {
                        assert(after[i as int].topic == topic);
                    }
                }
            }
            i = i + 1;
        }
        proof {
            assert(views.take(i as int) =~= views);
        }
        Some(TopicRouter { table })
    }

    /// The part of the table that `topics` names: the same devices under the
    /// same topics, without those that `topics` leaves out. A topic that the
    /// table does not know stays unknown.
    pub fn restricted(&self, topics: &Vec<String>) -> (kept: TopicRouter)
        ensures
            forall|topic: Seq<char>| #[trigger]
                kept@.contains_key(topic) <==> self@.contains_key(topic) && names_topic(
                    topics@,
                    topic,
                ),
            forall|topic: Seq<char>| #[trigger]
                kept@.contains_key(topic) ==> kept@[topic] == self@[topic],
    {
        proof {
            use_type_invariant(self);
        }
        let mut table: StringHashMap<ConfigDevice> = StringHashMap::new();
        let mut i: usize = 0;
        while i < topics.len()
            invariant
                i <= topics.len(),
                forall|topic: Seq<char>| #[trigger]
                    self.table@.contains_key(topic) ==> self.table@[topic].topic@ == topic,
                forall|topic: Seq<char>| #[trigger]
                    table@.contains_key(topic) <==> self.table@.contains_key(topic) && names_topic(
                        topics@.take(i as int),
                        topic,
                    ),
                forall|topic: Seq<char>| #[trigger]
                    table@.contains_key(topic) ==> table@[topic] == self.table@[topic],
            decreases topics.len() - i,
        {
            let topic = &topics[i];
            let ghost before = topics@.take(i as int);
            let ghost after = topics@.take(i + 1);
            let ghost old_table = table@;
            match self.table.get(topic.as_str()) {
                Some(device) => {
                    table.insert(topic.clone(), device.clone());
                },
                None => {},
            }
            proof {
                assert(after[i as int]@ == topic@);
                assert forall|t: Seq<char>| names_topic(after, t) <==> names_topic(before, t)
                    || t == topic@ by {
                    if names_topic(after, t) {
                        let a = choose|a: int| 0 <= a < after.len() && (#[trigger] after[a])@ == t;
                        if a < i {
                            assert(before[a]@ == t);
                        }
                    }
                    if names_topic(before, t) {
                        let a = choose|a: int|
                            0 <= a < before.len() && (#[trigger] before[a])@ == t;
                        assert(after[a]@ == t);
                    }
                }
                assert forall|t: Seq<char>| #[trigger]
                    table@.contains_key(t) <==> self.table@.contains_key(t) && names_topic(
                        after,
                        t,
                    ) by {
                    assert(old_table.contains_key(t) <==> self.table@.contains_key(t)
                        && names_topic(before, t));
                }
            }
            i = i + 1;
        }
        proof {
            assert(topics@.take(i as int) =~= topics@);
        }
        TopicRouter { table }
    }

    /// The device that publishes on `topic`, if the table knows the topic.
    ///
    /// A topic that was never registered is answered with `None`.
    pub fn resolve(&self, topic: &str) -> (found: Option<ConfigDevice>)
        ensures
            found is Some <==> self@.contains_key(topic@),
            found matches Some(device) ==> device@ == self@[topic@] && device.topic@ == topic@,
    {
        proof {
            use_type_invariant(self);
        }
        match self.table.get(topic) {
            Some(device) => Some(device.clone()),
            None => None,
        }
    }

    /// Whether the table knows `topic`.
    pub fn contains(&self, topic: &str) -> (known: bool)
        ensures
            known == self@.contains_key(topic@),
    {
        self.table.contains_key(topic)
    }

    /// The number of topics in the table.
    pub fn len(&self) -> (n: usize)
        ensures
            n == self@.len(),
    {
        broadcast use vstd::hash_map::group_hash_map_axioms;

        proof {
            assert(self@.dom() =~= self.table@.dom());
        }
        self.table.len()
    }
}

} // verus!

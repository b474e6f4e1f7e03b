//! The batch: the log lines that wait for the next flush, grouped by label.

use vstd::hash_map::StringHashMap;
use vstd::prelude::*;

verus! {

/// One log line with the time it was taken in, in nanoseconds since the epoch.
#[derive(Debug, PartialEq)]
pub struct LogEntry {
    pub timestamp: i64,
    pub line: String,
}

/// A log line as specifications see it.
pub struct EntryView {
    pub timestamp: int,
    pub line: Seq<char>,
}

impl View for LogEntry {
    type V = EntryView;

    open spec fn view(&self) -> EntryView {
        EntryView { timestamp: self.timestamp as int, line: self.line@ }
    }
}

impl Clone for LogEntry {
    fn clone(&self) -> (copy: Self)
        ensures
            copy == *self,
    {
        LogEntry { timestamp: self.timestamp, line: self.line.clone() }
    }
}

/// The lines of one label, oldest first.
#[derive(Debug, PartialEq)]
pub struct Stream {
    pub label: String,
    pub entries: Vec<LogEntry>,
}

/// The lines of one label as specifications see them.
pub struct StreamView {
    pub label: Seq<char>,
    pub entries: Seq<EntryView>,
}

impl View for Stream {
    type V = StreamView;

    open spec fn view(&self) -> StreamView {
        StreamView { label: self.label@, entries: entry_views(self.entries@) }
    }
}

impl Clone for Stream {
    fn clone(&self) -> (copy: Self)
        ensures
            copy@ == self@,
    {
        let copy = Stream { label: self.label.clone(), entries: self.entries.clone() };
        copy
    }
}

/// The views of a run of log lines, in order.
pub open spec fn entry_views(entries: Seq<LogEntry>) -> Seq<EntryView> {
    entries.map_values(|e: LogEntry| e@)
}

/// The views of a run of streams, in order.
pub open spec fn stream_views(streams: Seq<Stream>) -> Seq<StreamView> {
    streams.map_values(|s: Stream| s@)
}

/// The number of lines in a run of streams.
pub open spec fn total_entries(streams: Seq<StreamView>) -> nat
    decreases streams.len(),
{
    if streams.len() == 0 {
        0
    } else {
        total_entries(streams.drop_last()) + streams.last().entries.len()
    }
}

/// A batch as specifications see it: its streams, in the order in which their
/// labels first arrived.
pub struct BatchView {
    pub streams: Seq<StreamView>,
}

impl BatchView {
    /// The batch that holds nothing.
    pub open spec fn empty() -> BatchView {
        BatchView { streams: Seq::empty() }
    }

    /// No label has two streams, and no stream is empty.
    pub open spec fn wf(self) -> bool {
        &&& forall|i: int, j: int|
            0 <= i < j < self.streams.len() ==> (#[trigger] self.streams[i]).label
                != (#[trigger] self.streams[j]).label
        &&& forall|i: int|
            0 <= i < self.streams.len() ==> (#[trigger] self.streams[i]).entries.len() > 0
    }

    /// Whether lines wait under `label`.
    pub open spec fn contains(self, label: Seq<char>) -> bool {
        exists|i: int| 0 <= i < self.streams.len() && (#[trigger] self.streams[i]).label == label
    }

    /// Where the stream of `label` stands, for a label that the batch contains.
    pub open spec fn position(self, label: Seq<char>) -> int {
        choose|i: int| 0 <= i < self.streams.len() && (#[trigger] self.streams[i]).label == label
    }

    /// The lines that wait under `label`, oldest first; none for a label that
    /// the batch does not contain.
    pub open spec fn values(self, label: Seq<char>) -> Seq<EntryView> {
        if self.contains(label) {
            self.streams[self.position(label)].entries
        } else {
            Seq::empty()
        }
    }

    /// The batch after one more line has arrived for `label`: the line goes
    /// behind those that already wait under the label, and a label that is
    /// new goes behind the labels that are already there.
    pub open spec fn append(self, label: Seq<char>, entry: EntryView) -> BatchView {
        if self.contains(label) {
            let at = self.position(label);
            BatchView {
                streams: self.streams.update(
                    at,
                    StreamView { label, entries: self.streams[at].entries.push(entry) },
                ),
            }
        } else {
            BatchView { streams: self.streams.push(StreamView { label, entries: seq![entry] }) }
        }
    }

    /// The number of lines in the batch.
    pub open spec fn total(self) -> nat {
        total_entries(self.streams)
    }
}

/// In a batch without repeated labels, a stream stands where its label is
/// looked up.
pub proof fn lemma_position_unique(batch: BatchView, at: int)
    requires
        batch.wf(),
        0 <= at < batch.streams.len(),
    ensures
        batch.contains(batch.streams[at].label),
        batch.position(batch.streams[at].label) == at,
{
    let found = batch.position(batch.streams[at].label);
    assert(batch.streams[found].label == batch.streams[at].label);
}

/// Putting another stream behind the others adds its lines to the total.
pub proof fn lemma_total_push(streams: Seq<StreamView>, stream: StreamView)
    ensures
        total_entries(streams.push(stream)) == total_entries(streams) + stream.entries.len(),
{
    assert(streams.push(stream).drop_last() =~= streams);
}

/// Replacing one stream changes the total by the difference in lines.
pub proof fn lemma_total_update(streams: Seq<StreamView>, at: int, stream: StreamView)
    requires
        0 <= at < streams.len(),
    ensures
        total_entries(streams.update(at, stream)) + streams[at].entries.len() == total_entries(
            streams,
        ) + stream.entries.len(),
    decreases streams.len(),
{
    let updated = streams.update(at, stream);
    if at == streams.len() - 1 {
        assert(updated.drop_last() =~= streams.drop_last());
    } else {
        assert(updated.drop_last() =~= streams.drop_last().update(at, stream));
        lemma_total_update(streams.drop_last(), at, stream);
    }
}

/// A batch without empty streams holds no line exactly when it holds no
/// stream.
pub proof fn lemma_total_zero(batch: BatchView)
    requires
        batch.wf(),
    ensures
        batch.total() == 0 <==> batch.streams.len() == 0,
{
    if batch.streams.len() > 0 {
        assert(batch.streams.last().entries.len() > 0);
    }
}

/// Taking a line in keeps the batch well formed and adds one to its total.
pub proof fn lemma_append_wf(batch: BatchView, label: Seq<char>, entry: EntryView)
    requires
        batch.wf(),
    ensures
        batch.append(label, entry).wf(),
        batch.append(label, entry).total() == batch.total() + 1,
        batch.append(label, entry).contains(label),
{
    let after = batch.append(label, entry);
    if batch.contains(label) {
        let at = batch.position(label);
        lemma_total_update(batch.streams, at, after.streams[at]);
    } else {
        lemma_total_push(batch.streams, StreamView { label, entries: seq![entry] });
    }
}

/// A new line goes behind the lines of its own label and leaves the lines of
/// every other label as they were.
pub proof fn lemma_append_values(
    batch: BatchView,
    label: Seq<char>,
    entry: EntryView,
    other: Seq<char>,
)
    requires
        batch.wf(),
    ensures
        batch.append(label, entry).values(label) == batch.values(label).push(entry),
        other != label ==> batch.append(label, entry).values(other) == batch.values(other),
{
    let after = batch.append(label, entry);
    lemma_append_wf(batch, label, entry);
    let grows = if batch.contains(label) {
        batch.position(label)
    } else {
        batch.streams.len() as int
    };
    lemma_position_unique(after, grows);
    if other != label && batch.contains(other) {
        lemma_position_unique(after, batch.position(other));
    }
}

/// The lines that wait for the next flush, grouped by label.
///
/// Labels keep the order in which they first arrived, and the lines of a
/// label keep the order in which they arrived.
pub struct Batch {
    streams: Vec<Stream>,
    index: StringHashMap<usize>,
}

impl View for Batch {
    type V = BatchView;

    closed spec fn view(&self) -> BatchView {
        BatchView { streams: stream_views(self.streams@) }
    }
}

impl Batch {
    /// The index knows each label's place, and no stream is empty.
    #[verifier::type_invariant]
    spec fn indexed(self) -> bool {
        &&& forall|i: int|
            0 <= i < self.streams@.len() ==> {
                &&& self.index@.contains_key((#[trigger] self.streams@[i]).label@)
                &&& self.index@[self.streams@[i].label@] == i
                &&& self.streams@[i].entries@.len() > 0
            }
        &&& forall|label: Seq<char>| #[trigger]
            self.index@.contains_key(label) ==> {
                &&& self.index@[label] < self.streams@.len()
                &&& self.streams@[self.index@[label] as int].label@ == label
            }
    }

    /// A batch that holds nothing.
    pub fn new() -> (batch: Batch)
        ensures
            batch@ == BatchView::empty(),
    {
        let batch = Batch { streams: Vec::new(), index: StringHashMap::new() };
        assert(batch@.streams =~= Seq::<StreamView>::empty());
        batch
    }

    /// Takes one more line in under `label`.
    pub fn append(&mut self, label: String, entry: LogEntry)
        ensures
            final(self)@ == old(self)@.append(label@, entry@),
            final(self)@.wf(),
    {
        proof {
            use_type_invariant(&*self);
        }
        let ghost before = self@;
        let mut taken = Batch::new();
        std::mem::swap(self, &mut taken);
        let Batch { mut streams, mut index } = taken;
        let ghost old_streams = streams@;
        let place = match index.get(label.as_str()) {
            Some(at) => Some(*at),
            None => None,
        };
        match place {
            Some(at) => {
                proof {
                    lemma_position_unique(before, at as int);
                }
                streams[at].entries.push(entry);
                proof {
                    assert(stream_views(streams@) =~= before.append(label@, entry@).streams) by {
                        assert(entry_views(streams@[at as int].entries@) =~= entry_views(
                            old_streams[at as int].entries@,
                        ).push(entry@));
                    }
                }
            },
            None => {
                assert(!before.contains(label@));
                let at = streams.len();
                index.insert(label.clone(), at);
                let mut entries: Vec<LogEntry> = Vec::new();
                entries.push(entry);
                streams.push(Stream { label, entries });
                proof {
                    assert(entry_views(streams@[at as int].entries@) =~= seq![entry@]);
                    assert(stream_views(streams@) =~= before.append(label@, entry@).streams);
                }
            },
        }
        proof {
            lemma_append_wf(before, label@, entry@);
        }
        *self = Batch { streams, index };
    }

    /// Whether the batch holds nothing.
    pub fn is_empty(&self) -> (empty: bool)
        ensures
            empty == (self@.streams.len() == 0),
    {
        self.streams.len() == 0
    }

    /// The number of labels under which lines wait.
    pub fn labels(&self) -> (n: usize)
        ensures
            n == self@.streams.len(),
    {
        self.streams.len()
    }

    /// A copy of the lines that wait under `label`, oldest first.
    pub fn entries(&self, label: &str) -> (lines: Vec<LogEntry>)
        ensures
            entry_views(lines@) == self@.values(label@),
    {
        proof {
            use_type_invariant(self);
        }
        match self.index.get(label) {
            Some(at) => {
                proof {
                    lemma_position_unique(self@, *at as int);
                }
                self.streams[*at].entries.clone()
            },
            None => {
                assert(!self@.contains(label@));
                Vec::new()
            },
        }
    }

    /// Hands the streams out, in the order in which their labels first
    /// arrived.
    pub fn into_streams(self) -> (streams: Vec<Stream>)
        ensures
            stream_views(streams@) == self@.streams,
            self@.wf(),
    {
        proof {
            use_type_invariant(&self);
        }
        let Batch { streams, index } = self;
        streams
    }
}

} // verus!

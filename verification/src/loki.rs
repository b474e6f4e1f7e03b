//! The Loki sink: what is sent to it, where, and how its answer is read.

use vstd::prelude::*;
use vstd::string::StringExecFns;

use crate::batch::{entry_views, EntryView, LogEntry};
use crate::trusted::decimal_string;

verus! {

/// Nanoseconds in one second.
pub const NANOS_PER_SECOND: i64 = 1_000_000_000;

/// One value on the wire: the timestamp in decimal nanoseconds, then the line.
pub type LokiValue = [String; 2];

/// The labels of a stream; the bridge files every line under one `label`.
#[derive(Debug, PartialEq)]
pub struct LokiStream {
    pub label: String,
}

impl Clone for LokiStream {
    fn clone(&self) -> (copy: Self)
        ensures
            copy == *self,
    {
        LokiStream { label: self.label.clone() }
    }
}

/// One labelled run of values.
#[derive(Debug, PartialEq)]
pub struct LokiStreams {
    pub stream: LokiStream,
    pub values: Vec<LokiValue>,
}

/// The body of a push request.
#[derive(Debug, PartialEq)]
pub struct LokiPush {
    pub streams: Vec<LokiStreams>,
}

/// A wire value as specifications see it.
pub struct ValueView {
    pub timestamp: Seq<char>,
    pub line: Seq<char>,
}

/// One labelled run of values as specifications see it.
pub struct StreamsView {
    pub label: Seq<char>,
    pub values: Seq<ValueView>,
}

/// The body of a push request as specifications see it.
pub struct PushView {
    pub streams: Seq<StreamsView>,
}

/// The view of a wire value.
pub open spec fn value_view(value: LokiValue) -> ValueView {
    ValueView { timestamp: value@[0]@, line: value@[1]@ }
}

impl View for LokiStreams {
    type V = StreamsView;

    open spec fn view(&self) -> StreamsView {
        StreamsView {
            label: self.stream.label@,
            values: self.values@.map_values(|v: LokiValue| value_view(v)),
        }
    }
}

impl View for LokiPush {
    type V = PushView;

    open spec fn view(&self) -> PushView {
        PushView { streams: self.streams@.map_values(|s: LokiStreams| s@) }
    }
}

impl Clone for LokiStreams {
    fn clone(&self) -> (copy: Self)
        ensures
            copy@ == self@,
    {
        let copy = LokiStreams { stream: self.stream.clone(), values: self.values.clone() };
        assert(copy@.values =~= self@.values);
        copy
    }
}

impl Clone for LokiPush {
    fn clone(&self) -> (copy: Self)
        ensures
            copy@ == self@,
    {
        let copy = LokiPush { streams: self.streams.clone() };
        assert(copy@.streams =~= self@.streams);
        copy
    }
}

/// The character of one decimal digit.
pub open spec fn digit_char(digit: int) -> char {
    if digit == 0 {
        '0'
    } else if digit == 1 {
        '1'
    } else if digit == 2 {
        '2'
    } else if digit == 3 {
        '3'
    } else if digit == 4 {
        '4'
    } else if digit == 5 {
        '5'
    } else if digit == 6 {
        '6'
    } else if digit == 7 {
        '7'
    } else if digit == 8 {
        '8'
    } else {
        '9'
    }
}

/// The decimal digits of a natural number, without leading zeros.
pub open spec fn decimal_digits(number: nat) -> Seq<char>
    decreases number,
{
    if number < 10 {
        seq![digit_char(number as int)]
    } else {
        decimal_digits(number / 10).push(digit_char((number % 10) as int))
    }
}

/// An integer written in decimal, with a minus sign if it is negative.
pub open spec fn decimal(number: int) -> Seq<char> {
    if number < 0 {
        seq!['-'] + decimal_digits((-number) as nat)
    } else {
        decimal_digits(number as nat)
    }
}

/// The wire value of a log line.
pub open spec fn wire_value(entry: EntryView) -> ValueView {
    ValueView { timestamp: decimal(entry.timestamp), line: entry.line }
}

/// The body that pushes `entries` under `label`: one stream, the values in
/// the order of the lines.
pub open spec fn push_body_spec(label: Seq<char>, entries: Seq<EntryView>) -> PushView {
    PushView {
        streams: seq![
            StreamsView { label, values: entries.map_values(|e: EntryView| wire_value(e)) },
        ],
    }
}

/// Whether an HTTP status code reports success: the codes from 200 to 299.
pub open spec fn is_success(status: u16) -> bool {
    200 <= status <= 299
}

/// How a push ended, as far as the caller is told.
#[derive(Debug, Clone, Copy, PartialEq, Eq, Structural)]
pub enum PushOutcome {
    /// The sink took the whole run of values.
    Delivered,
    /// The request did not get through or was refused; trying again may help.
    TransientFailure,
}

/// The timestamp of a reading of the clock: the whole seconds since the
/// epoch as nanoseconds, where that many nanoseconds fit a timestamp.
pub open spec fn timestamp_of(unix_seconds: i64) -> Option<i64> {
    if i64::MIN <= unix_seconds * NANOS_PER_SECOND <= i64::MAX {
        Some((unix_seconds * NANOS_PER_SECOND) as i64)
    } else {
        None
    }
}

/// The address of a Loki server.
#[derive(Debug)]
pub struct LokiAPI {
    base_url: String,
}

impl Clone for LokiAPI {
    fn clone(&self) -> (copy: Self)
        ensures
            copy@ == self@,
    {
        LokiAPI { base_url: self.base_url.clone() }
    }
}

impl View for LokiAPI {
    type V = Seq<char>;

    /// The base URL.
    closed spec fn view(&self) -> Seq<char> {
        self.base_url@
    }
}

impl LokiAPI {
    /// The sink at `base_url`.
    pub fn new(base_url: String) -> (api: LokiAPI)
        ensures
            api@ == base_url@,
    {
        LokiAPI { base_url }
    }

    /// The URL of an endpoint: the base URL with the endpoint's path behind it.
    pub fn get_url(&self, method: &str) -> (url: String)
        ensures
            url@ == self@ + method@,
    {
        self.base_url.clone().concat(method)
    }

    /// The URL that tells whether the server is ready.
    pub fn ready_url(&self) -> (url: String)
        ensures
            url@ == self@ + "/ready"@,
    {
        self.get_url("/ready")
    }

    /// The URL that takes push requests.
    pub fn push_url(&self) -> (url: String)
        ensures
            url@ == self@ + "/loki/api/v1/push"@,
    {
        self.get_url("/loki/api/v1/push")
    }

    /// The timestamp for a reading of the clock in whole seconds since the
    /// epoch: the reading in nanoseconds, at the resolution of one second.
    /// There is none where the clock stands so far from the epoch that the
    /// count of nanoseconds no longer fits.
    pub fn get_timestamp(unix_seconds: i64) -> (stamp: Option<i64>)
        ensures
            stamp == timestamp_of(unix_seconds),
    {
        unix_seconds.checked_mul(NANOS_PER_SECOND)
    }

    /// The body of the request that pushes `entries` under `label`.
    pub fn push_body(label: String, entries: &Vec<LogEntry>) -> (body: LokiPush)
        ensures
            body@ == push_body_spec(label@, entry_views(entries@)),
    {
        let ghost lines = entry_views(entries@);
        let mut values: Vec<LokiValue> = Vec::new();
        let mut i: usize = 0;
        while i < entries.len()
            invariant
                i <= entries.len(),
                lines == entry_views(entries@),
                values@.len() == i,
                forall|k: int|
                    0 <= k < i ==> value_view(#[trigger] values@[k]) == wire_value(lines[k]),
            decreases entries.len() - i,
        {
            let entry = &entries[i];
            let value: LokiValue = [decimal_string(entry.timestamp), entry.line.clone()];
            values.push(value);
            i = i + 1;
        }
        let body = LokiPush {
            streams: vec![LokiStreams { stream: LokiStream { label }, values }],
        };
        proof {
            let expected = push_body_spec(label@, lines);
            assert(body@.streams[0].values =~= expected.streams[0].values);
            assert(body@.streams =~= expected.streams);
        }
        body
    }

    /// Whether a status code reports success.
    pub fn status_is_success(status: u16) -> (success: bool)
        ensures
            success == is_success(status),
    {
        200 <= status && status <= 299
    }

    /// Reads the end of a push: `None` stands for a request that brought no
    /// response at all. Only a response with a status of success counts as
    /// delivered; every other end is a failure of the same kind.
    pub fn push_outcome(status: Option<u16>) -> (outcome: PushOutcome)
        ensures
            outcome == if status matches Some(code) && is_success(code) {
                PushOutcome::Delivered
            } else {
                PushOutcome::TransientFailure
            },
    {
        match status {
            Some(code) => if LokiAPI::status_is_success(code) {
                PushOutcome::Delivered
            } else {
                PushOutcome::TransientFailure
            },
            None => PushOutcome::TransientFailure,
        }
    }
}

} // verus!

//! Ingestion: from an event of the MQTT transport to a stamped message.

use vstd::prelude::*;
use vstd::utf8::{decode_utf8, valid_utf8};

use crate::config::{ConfigDevice, DeviceView};
use crate::loki::{timestamp_of, LokiAPI};
use crate::router::TopicRouter;
use crate::trusted::string_from_utf8;

verus! {

/// Seconds to wait after an error of the transport before polling again.
pub const TRANSPORT_RETRY_SECONDS: u64 = 1;

/// A message on its way from the transport to the batch.
#[derive(Debug, PartialEq)]
pub struct InboundMessage {
    /// When the message was taken in, in nanoseconds since the epoch.
    pub timestamp: i64,
    /// The payload, as text.
    pub payload: String,
    /// The device that published it.
    pub device: ConfigDevice,
}

/// A message as specifications see it.
pub struct MessageView {
    pub timestamp: int,
    pub payload: Seq<char>,
    pub device: DeviceView,
}

impl View for InboundMessage {
    type V = MessageView;

    open spec fn view(&self) -> MessageView {
        MessageView {
            timestamp: self.timestamp as int,
            payload: self.payload@,
            device: self.device@,
        }
    }
}

impl Clone for InboundMessage {
    fn clone(&self) -> (copy: Self)
        ensures
            copy == *self,
    {
        InboundMessage {
            timestamp: self.timestamp,
            payload: self.payload.clone(),
            device: self.device.clone(),
        }
    }
}

/// Why a published message is dropped.
#[derive(Debug, Clone, Copy, PartialEq, Eq, Structural)]
pub enum DropReason {
    /// No device is registered for the topic.
    UnknownTopic,
    /// The payload is not UTF-8 text.
    InvalidPayload,
    /// The clock stands where no timestamp fits.
    ClockOutOfRange,
}

/// What the ingestion task can be woken by.
#[derive(Debug, PartialEq)]
pub enum IngestEvent {
    /// A message was published on a subscribed topic. `unix_seconds` is the
    /// clock, in whole seconds since the epoch, as it stood when the event
    /// was seen.
    Publish { topic: String, payload: Vec<u8>, unix_seconds: i64 },
    /// The broker acknowledged the connection.
    ConnAck,
    /// Any other packet or notification of the transport.
    Other,
    /// The connection failed.
    Error,
    /// The queue took the message that was to be enqueued.
    Enqueued,
    /// The queue was closed on the receiving side.
    QueueClosed,
    /// The shutdown signal was received, while the task waited for the
    /// transport or for room on the queue.
    Shutdown,
}

/// An event as specifications see it.
pub enum IngestEventView {
    Publish { topic: Seq<char>, payload: Seq<u8>, unix_seconds: i64 },
    ConnAck,
    Other,
    Error,
    Enqueued,
    QueueClosed,
    Shutdown,
}

impl View for IngestEvent {
    type V = IngestEventView;

    open spec fn view(&self) -> IngestEventView {
        match self {
            IngestEvent::Publish { topic, payload, unix_seconds } => IngestEventView::Publish {
                topic: topic@,
                payload: payload@,
                unix_seconds: *unix_seconds,
            },
            IngestEvent::ConnAck => IngestEventView::ConnAck,
            IngestEvent::Other => IngestEventView::Other,
            IngestEvent::Error => IngestEventView::Error,
            IngestEvent::Enqueued => IngestEventView::Enqueued,
            IngestEvent::QueueClosed => IngestEventView::QueueClosed,
            IngestEvent::Shutdown => IngestEventView::Shutdown,
        }
    }
}

/// What the ingestion task does about an event.
#[derive(Debug, PartialEq)]
pub enum IngestAction {
    /// Put the message on the queue to the batching task, waiting for room
    /// if there is none, and report what came of it: `Enqueued`,
    /// `QueueClosed`, or `Shutdown` if the signal came first.
    Enqueue(InboundMessage),
    /// Drop the published message, and poll the transport again.
    Drop(DropReason),
    /// Note that the broker is connected, and poll the transport again.
    Connected,
    /// Poll the transport again.
    Ignore,
    /// Wait, then poll the transport again.
    Retry { delay_seconds: u64 },
    /// Leave the loop.
    Stop,
}

/// What the ingestion task does, as specifications see it.
pub enum IngestActionView {
    Enqueue(MessageView),
    Drop(DropReason),
    Connected,
    Ignore,
    Retry { delay_seconds: nat },
    Stop,
}

impl View for IngestAction {
    type V = IngestActionView;

    open spec fn view(&self) -> IngestActionView {
        match self {
            IngestAction::Enqueue(message) => IngestActionView::Enqueue(message@),
            IngestAction::Drop(reason) => IngestActionView::Drop(*reason),
            IngestAction::Connected => IngestActionView::Connected,
            IngestAction::Ignore => IngestActionView::Ignore,
            IngestAction::Retry { delay_seconds } => IngestActionView::Retry {
                delay_seconds: *delay_seconds as nat,
            },
            IngestAction::Stop => IngestActionView::Stop,
        }
    }
}

/// The message that a published payload becomes, or the reason why it is
/// dropped.
///
/// The topic is looked up first, then the payload is decoded, then the
/// reading of the clock is turned into a timestamp: the first of these that
/// fails names the reason.
pub open spec fn ingest_spec(
    routes: Map<Seq<char>, DeviceView>,
    topic: Seq<char>,
    payload: Seq<u8>,
    unix_seconds: i64,
) -> Result<MessageView, DropReason> {
    if !routes.contains_key(topic) {
        Err(DropReason::UnknownTopic)
    } else if !valid_utf8(payload) {
        Err(DropReason::InvalidPayload)
    } else if timestamp_of(unix_seconds) is None {
        Err(DropReason::ClockOutOfRange)
    } else {
        Ok(
            MessageView {
                timestamp: timestamp_of(unix_seconds)->0 as int,
                payload: decode_utf8(payload),
                device: routes[topic],
            },
        )
    }
}

/// What the ingestion task does about an event.
///
/// A published message is enqueued or dropped. An error of the transport is
/// answered by a pause, never by giving up. The shutdown signal and a queue
/// that nobody reads any more end the task; nothing else does.
pub open spec fn react_spec(
    routes: Map<Seq<char>, DeviceView>,
    event: IngestEventView,
) -> IngestActionView {
    match event {
        IngestEventView::Publish { topic, payload, unix_seconds } => match ingest_spec(
            routes,
            topic,
            payload,
            unix_seconds,
        ) {
            Ok(message) => IngestActionView::Enqueue(message),
            Err(reason) => IngestActionView::Drop(reason),
        },
        IngestEventView::ConnAck => IngestActionView::Connected,
        IngestEventView::Other => IngestActionView::Ignore,
        IngestEventView::Error => IngestActionView::Retry {
            delay_seconds: TRANSPORT_RETRY_SECONDS as nat,
        },
        IngestEventView::Enqueued => IngestActionView::Ignore,
        IngestEventView::QueueClosed => IngestActionView::Stop,
        IngestEventView::Shutdown => IngestActionView::Stop,
    }
}

/// The task ends exactly when it is told to, or when nobody is left to take
/// its messages: whatever the transport reports, and whatever becomes of a
/// published message, the task goes on.
pub proof fn lemma_stops_only_on_cancel(routes: Map<Seq<char>, DeviceView>, event: IngestEventView)
    ensures
        react_spec(routes, event) == IngestActionView::Stop <==> event == IngestEventView::Shutdown
            || event == IngestEventView::QueueClosed,
{
}

/// Turns a published payload into a message of the device that owns the
/// topic, stamped with the timestamp of `unix_seconds`.
pub fn ingest(
    router: &TopicRouter,
    topic: &str,
    payload: Vec<u8>,
    unix_seconds: i64,
) -> (taken: Result<InboundMessage, DropReason>)
    ensures
        match ingest_spec(router@, topic@, payload@, unix_seconds) {
            Ok(message) => taken matches Ok(made) && made@ == message,
            Err(reason) => taken == Err::<InboundMessage, DropReason>(reason),
        },
{
    let device = match router.resolve(topic) {
        Some(device) => device,
        None => {
            return Err(DropReason::UnknownTopic);
        },
    };
    let text = match string_from_utf8(payload) {
        Some(text) => text,
        None => {
            return Err(DropReason::InvalidPayload);
        },
    };
    match LokiAPI::get_timestamp(unix_seconds) {
        Some(timestamp) => Ok(InboundMessage { timestamp, payload: text, device }),
        None => Err(DropReason::ClockOutOfRange),
    }
}

/// Decides what the ingestion task does about an event.
pub fn on_ingest_event(router: &TopicRouter, event: IngestEvent) -> (action: IngestAction)
    ensures
        action@ == react_spec(router@, event@),
{
    match event {
        IngestEvent::Publish { topic, payload, unix_seconds } => match ingest(
            router,
            topic.as_str(),
            payload,
            unix_seconds,
        ) {
            Ok(message) => IngestAction::Enqueue(message),
            Err(reason) => IngestAction::Drop(reason),
        },
        IngestEvent::ConnAck => IngestAction::Connected,
        IngestEvent::Other => IngestAction::Ignore,
        IngestEvent::Error => IngestAction::Retry { delay_seconds: TRANSPORT_RETRY_SECONDS },
        IngestEvent::Enqueued => IngestAction::Ignore,
        IngestEvent::QueueClosed => IngestAction::Stop,
        IngestEvent::Shutdown => IngestAction::Stop,
    }
}

} // verus!

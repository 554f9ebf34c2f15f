//! How stored events and results reach the callers that watch a request.
//!
//! The rules read the addresses and sequence numbers of messages. What an event
//! or a result says is carried along unread.

use vstd::pervasive::cloned;
use vstd::prelude::*;

use crate::protocol::OperationTruth;
use crate::text::{concat2, same_text, starts_with, has_prefix};

verus! {

/// An event of a request.
pub struct EventEnvelope<E> {
    pub protocol_version: u16,
    pub request_id: String,
    pub project_id: String,
    pub sequence: u64,
    pub event: E,
}

/// The result of a request.
pub struct ResultEnvelope<B> {
    pub protocol_version: u16,
    pub request_id: String,
    pub project_id: String,
    pub body: B,
}

/// What the daemon sends.
pub enum ServerMessage<E, B> {
    Event(EventEnvelope<E>),
    Result(ResultEnvelope<B>),
}

/// A caller that watches a request.
pub struct Subscription {
    /// The request that events are reported under.
    pub event_request_id: String,
    /// The request that results are reported under.
    pub observer_request_id: String,
    pub project_id: String,
    /// The last event that the caller has seen.
    pub last_sequence: u64,
}

// Watching

/// The message is for a caller that has seen events up to `last`.
pub open spec fn is_news<E, B>(message: ServerMessage<E, B>, last: u64) -> bool {
    match message {
        ServerMessage::Event(event) => event.sequence > last,
        ServerMessage::Result(_) => true,
    }
}

/// The last event that a caller has seen after `message`.
pub open spec fn seen_after<E, B>(message: ServerMessage<E, B>, last: u64) -> u64 {
    match message {
        ServerMessage::Event(event) => if event.sequence > last {
            event.sequence
        } else {
            last
        },
        ServerMessage::Result(_) => last,
    }
}

/// The last event that a caller has seen after all of `messages`.
pub open spec fn seen_after_all<E, B>(messages: Seq<ServerMessage<E, B>>, last: u64) -> u64
    decreases messages.len(),
{
    if messages.len() == 0 {
        last
    } else {
        seen_after(messages.last(), seen_after_all(messages.drop_last(), last))
    }
}

/// The positions of the messages that are news to a caller.
pub open spec fn news<E, B>(messages: Seq<ServerMessage<E, B>>, last: u64) -> Seq<int>
    decreases messages.len(),
{
    if messages.len() == 0 {
        seq![]
    } else {
        let before = messages.drop_last();
        if is_news(messages.last(), seen_after_all(before, last)) {
            news(before, last).push(messages.len() - 1)
        } else {
            news(before, last)
        }
    }
}

/// `sent` is `message` under the observer's addresses.
pub open spec fn readdressed<E: Clone, B: Clone>(
    message: ServerMessage<E, B>,
    sent: ServerMessage<E, B>,
    observer: Subscription,
) -> bool {
    match (message, sent) {
        (ServerMessage::Event(event), ServerMessage::Event(copy)) => {
            &&& copy.protocol_version == event.protocol_version
            &&& copy.request_id@ == observer.event_request_id@
            &&& copy.project_id@ == observer.project_id@
            &&& copy.sequence == event.sequence
            &&& cloned(event.event, copy.event)
        },
        (ServerMessage::Result(result), ServerMessage::Result(copy)) => {
            &&& copy.protocol_version == result.protocol_version
            &&& copy.request_id@ == observer.observer_request_id@
            &&& copy.project_id@ == observer.project_id@
            &&& cloned(result.body, copy.body)
        },
        _ => false,
    }
}

/// `sent` is the messages at `positions`, under the observer's addresses.
pub open spec fn delivers<E: Clone, B: Clone>(
    sent: Seq<ServerMessage<E, B>>,
    messages: Seq<ServerMessage<E, B>>,
    positions: Seq<int>,
    observer: Subscription,
) -> bool {
    &&& sent.len() == positions.len()
    &&& forall|k: int|
        #![trigger sent[k]]
        #![trigger positions[k]]
        0 <= k < sent.len() ==> 0 <= positions[k] < messages.len() && readdressed(
            messages[positions[k]],
            sent[k],
            observer,
        )
}

/// The messages that are news to an observer, under its addresses. The observer
/// has seen them afterwards.
pub fn messages_for_observer<E: Clone, B: Clone>(
    messages: &[ServerMessage<E, B>],
    observer: &mut Subscription,
) -> (filtered: Vec<ServerMessage<E, B>>)
    ensures
        final(observer).event_request_id == old(observer).event_request_id,
        final(observer).observer_request_id == old(observer).observer_request_id,
        final(observer).project_id == old(observer).project_id,
        final(observer).last_sequence == seen_after_all(messages@, old(observer).last_sequence),
        delivers(
            filtered@,
            messages@,
            news(messages@, old(observer).last_sequence),
            *old(observer),
        ),
{
    let mut filtered: Vec<ServerMessage<E, B>> = Vec::new();
    let mut index: usize = 0;
    let ghost watcher = *observer;
    let ghost last = observer.last_sequence;
    assert(messages@.take(0) =~= Seq::<ServerMessage<E, B>>::empty());
    while index < messages.len()
        invariant
            index <= messages@.len(),
            watcher == *old(observer),
            last == watcher.last_sequence,
            observer.event_request_id == watcher.event_request_id,
            observer.observer_request_id == watcher.observer_request_id,
            observer.project_id == watcher.project_id,
            observer.last_sequence == seen_after_all(messages@.take(index as int), last),
            delivers(
                filtered@,
                messages@,
                news(messages@.take(index as int), last),
                watcher,
            ),
        decreases messages@.len() - index,
    {
        let message = &messages[index];
        let ghost kept = news(messages@.take(index as int), last);
        let ghost sent = filtered@;
        proof {
            let next = messages@.take(index + 1);
            assert(next.drop_last() =~= messages@.take(index as int));
            assert(next.last() == *message);
            assert(news(next, last) == if is_news(
                *message,
                seen_after_all(messages@.take(index as int), last),
            ) {
                kept.push(index as int)
            } else {
                kept
            });
        }
        match message {
            ServerMessage::Event(event) => {
                if event.sequence > observer.last_sequence {
                    observer.last_sequence = event.sequence;
                    filtered.push(
                        ServerMessage::Event(
                            EventEnvelope {
                                protocol_version: event.protocol_version,
                                request_id: observer.event_request_id.clone(),
                                project_id: observer.project_id.clone(),
                                sequence: event.sequence,
                                event: event.event.clone(),
                            },
                        ),
                    );
                }
            },
            ServerMessage::Result(result) => {
                filtered.push(
                    ServerMessage::Result(
                        ResultEnvelope {
                            protocol_version: result.protocol_version,
                            request_id: observer.observer_request_id.clone(),
                            project_id: observer.project_id.clone(),
                            body: result.body.clone(),
                        },
                    ),
                );
            },
        }
        index = index + 1;
        proof {
            let positions = news(messages@.take(index as int), last);
            assert forall|k: int|
                #![trigger filtered@[k]]
                #![trigger positions[k]]
                0 <= k < filtered@.len() implies 0 <= positions[k] < messages@.len()
                && readdressed(messages@[positions[k]], filtered@[k], watcher) by {
                if k < sent.len() {
                    assert(filtered@[k] == sent[k]);
                    assert(positions[k] == kept[k]);
                }
            }
        }
    }
    assert(messages@.take(messages@.len() as int) =~= messages@);
    filtered
}

proof fn lemma_seen_covers<E, B>(messages: Seq<ServerMessage<E, B>>, last: u64, index: int)
    requires
        0 <= index < messages.len(),
    ensures
        seen_after_all(messages, last) >= last,
        messages[index] matches ServerMessage::Event(event) ==> event.sequence
            <= seen_after_all(messages, last),
    decreases messages.len(),
{
    reveal_with_fuel(seen_after_all, 2);
    let before = messages.drop_last();
    if index < before.len() {
        lemma_seen_covers(before, last, index);
    } else if before.len() > 0 {
        lemma_seen_covers(before, last, 0);
    }
}

proof fn lemma_news_of_known<E, B>(messages: Seq<ServerMessage<E, B>>, last: u64)
    requires
        forall|i: int|
            0 <= i < messages.len() ==> (#[trigger] messages[i] matches ServerMessage::Event(event)
                ==> event.sequence <= last),
    ensures
        seen_after_all(messages, last) == last,
        forall|k: int|
            0 <= k < news(messages, last).len() ==> 0 <= #[trigger] news(messages, last)[k]
                < messages.len() && messages[news(messages, last)[k]] is Result,
    decreases messages.len(),
{
    if messages.len() > 0 {
        let before = messages.drop_last();
        lemma_news_of_known(before, last);
        assert(messages.last() == messages[messages.len() - 1]);
        assert forall|k: int| 0 <= k < news(messages, last).len() implies 0
            <= #[trigger] news(messages, last)[k] < messages.len() && messages[news(
            messages,
            last,
        )[k]] is Result by {
            if k < news(before, last).len() {
                assert(news(messages, last)[k] == news(before, last)[k]);
                assert(before[news(before, last)[k]] == messages[news(before, last)[k]]);
            }
        }
    }
}

/// No caller is told of an event twice: after a delivery, the same messages
/// hold no news but results.
pub proof fn law_events_are_delivered_once<E, B>(messages: Seq<ServerMessage<E, B>>, last: u64)
    ensures
        ({
            let seen = seen_after_all(messages, last);
            forall|k: int|
                0 <= k < news(messages, seen).len() ==> messages[#[trigger] news(
                    messages,
                    seen,
                )[k]] is Result
        }),
{
    let seen = seen_after_all(messages, last);
    assert forall|i: int| 0 <= i < messages.len() implies (
    #[trigger] messages[i] matches ServerMessage::Event(event) ==> event.sequence <= seen) by {
        lemma_seen_covers(messages, last, i);
    }
    lemma_news_of_known(messages, seen);
}

proof fn lemma_news_in_range<E, B>(messages: Seq<ServerMessage<E, B>>, last: u64)
    ensures
        forall|k: int|
            0 <= k < news(messages, last).len() ==> 0 <= #[trigger] news(messages, last)[k]
                < messages.len(),
        forall|k: int, m: int|
            0 <= k < m < news(messages, last).len() ==> #[trigger] news(messages, last)[k]
                < #[trigger] news(messages, last)[m],
    decreases messages.len(),
{
    if messages.len() > 0 {
        let before = messages.drop_last();
        lemma_news_in_range(before, last);
        let all = news(messages, last);
        let earlier = news(before, last);
        assert forall|k: int| 0 <= k < all.len() implies 0 <= #[trigger] all[k]
            < messages.len() by {
            if k < earlier.len() {
                assert(all[k] == earlier[k]);
            }
        }
        assert forall|k: int, m: int| 0 <= k < m < all.len() implies #[trigger] all[k]
            < #[trigger] all[m] by {
            assert(all[k] == earlier[k]);
            if m < earlier.len() {
                assert(all[m] == earlier[m]);
            }
        }
    }
}

proof fn lemma_news_are_new<E, B>(messages: Seq<ServerMessage<E, B>>, last: u64, k: int)
    requires
        0 <= k < news(messages, last).len(),
    ensures
        0 <= news(messages, last)[k] < messages.len(),
        messages[news(messages, last)[k]] matches ServerMessage::Event(event) ==> last
            < event.sequence <= seen_after_all(messages, last),
    decreases messages.len(),
{
    let before = messages.drop_last();
    lemma_news_in_range(messages, last);
    lemma_news_in_range(before, last);
    if k < news(before, last).len() {
        lemma_news_are_new(before, last, k);
        assert(news(messages, last)[k] == news(before, last)[k]);
        assert(messages[news(before, last)[k]] == before[news(before, last)[k]]);
    } else if before.len() > 0 {
        lemma_seen_covers(before, last, 0);
    }
}

/// The events that a caller is told of come in strictly increasing sequence,
/// all after the last one that it has seen.
pub proof fn law_events_are_delivered_in_order<E, B>(
    messages: Seq<ServerMessage<E, B>>,
    last: u64,
    k: int,
    m: int,
)
    requires
        0 <= k < m < news(messages, last).len(),
    ensures
        messages[news(messages, last)[k]] matches ServerMessage::Event(first) ==> {
            &&& last < first.sequence
            &&& messages[news(messages, last)[m]] matches ServerMessage::Event(second)
                ==> first.sequence < second.sequence
        },
    decreases messages.len(),
{
    let before = messages.drop_last();
    lemma_news_in_range(messages, last);
    lemma_news_are_new(messages, last, k);
    if m < news(before, last).len() {
        law_events_are_delivered_in_order(before, last, k, m);
        assert(news(messages, last)[k] == news(before, last)[k]);
        assert(news(messages, last)[m] == news(before, last)[m]);
        lemma_news_in_range(before, last);
        assert(messages[news(before, last)[k]] == before[news(before, last)[k]]);
        assert(messages[news(before, last)[m]] == before[news(before, last)[m]]);
    } else {
        assert(news(messages, last)[m] == messages.len() - 1);
        lemma_news_are_new(before, last, k);
        assert(news(messages, last)[k] == news(before, last)[k]);
        assert(messages[news(before, last)[k]] == before[news(before, last)[k]]);
    }
}

// Readdressing

/// `message` under other addresses.
pub open spec fn remapped<E, B>(
    message: ServerMessage<E, B>,
    sent: ServerMessage<E, B>,
    event_request_id: Seq<char>,
    observer_request_id: Seq<char>,
    project_id: Seq<char>,
) -> bool {
    match (message, sent) {
        (ServerMessage::Event(event), ServerMessage::Event(moved)) => {
            &&& moved.protocol_version == event.protocol_version
            &&& moved.request_id@ == event_request_id
            &&& moved.project_id@ == project_id
            &&& moved.sequence == event.sequence
            &&& moved.event == event.event
        },
        (ServerMessage::Result(result), ServerMessage::Result(moved)) => {
            &&& moved.protocol_version == result.protocol_version
            &&& moved.request_id@ == observer_request_id
            &&& moved.project_id@ == project_id
            &&& moved.body == result.body
        },
        _ => false,
    }
}

fn remap_message<E, B>(
    message: ServerMessage<E, B>,
    event_request_id: &str,
    observer_request_id: &str,
    project_id: &str,
) -> (sent: ServerMessage<E, B>)
    ensures
        remapped(message, sent, event_request_id@, observer_request_id@, project_id@),
{
    match message {
        ServerMessage::Event(event) => ServerMessage::Event(
            EventEnvelope {
                protocol_version: event.protocol_version,
                request_id: event_request_id.to_owned(),
                project_id: project_id.to_owned(),
                sequence: event.sequence,
                event: event.event,
            },
        ),
        ServerMessage::Result(result) => ServerMessage::Result(
            ResultEnvelope {
                protocol_version: result.protocol_version,
                request_id: observer_request_id.to_owned(),
                project_id: project_id.to_owned(),
                body: result.body,
            },
        ),
    }
}

/// Puts other addresses on messages. Their order, sequences and contents stay.
pub fn remap_messages<E, B>(
    messages: Vec<ServerMessage<E, B>>,
    event_request_id: &str,
    observer_request_id: &str,
    project_id: &str,
) -> (sent: Vec<ServerMessage<E, B>>)
    ensures
        sent@.len() == messages@.len(),
        forall|i: int|
            0 <= i < sent@.len() ==> remapped(
                messages@[i],
                #[trigger] sent@[i],
                event_request_id@,
                observer_request_id@,
                project_id@,
            ),
{
    let ghost given = messages@;
    let mut sent: Vec<ServerMessage<E, B>> = Vec::new();
    for message in iter: messages
        invariant
            iter.seq() == given,
            sent@.len() == iter.index(),
            forall|i: int|
                0 <= i < sent@.len() ==> remapped(
                    given[i],
                    #[trigger] sent@[i],
                    event_request_id@,
                    observer_request_id@,
                    project_id@,
                ),
    {
        sent.push(remap_message(message, event_request_id, observer_request_id, project_id));
    }
    sent
}

// Replay

/// What a stored event reports.
#[derive(Clone, Copy, Debug, PartialEq, Eq, Structural)]
pub enum StoredEvent {
    /// A transition of a flow, encoded in the record.
    FlowTransition,
    Accepted,
    Started,
    LeaseExpired,
    CancellationRequested,
    Cancelled,
    Completed,
    Failed,
}

/// The event that a stored kind stands for.
pub open spec fn event_of_kind(kind: Seq<char>) -> Option<StoredEvent> {
    if has_prefix(kind, "flow_"@) {
        Some(StoredEvent::FlowTransition)
    } else if kind == "accepted"@ {
        Some(StoredEvent::Accepted)
    } else if kind == "started"@ {
        Some(StoredEvent::Started)
    } else if kind == "lease_expired"@ {
        Some(StoredEvent::LeaseExpired)
    } else if kind == "cancellation_requested"@ {
        Some(StoredEvent::CancellationRequested)
    } else if kind == "cancelled"@ {
        Some(StoredEvent::Cancelled)
    } else if kind == "completed"@ {
        Some(StoredEvent::Completed)
    } else if kind == "failed"@ {
        Some(StoredEvent::Failed)
    } else {
        None
    }
}

/// Reads the kind of a stored event, or explains that it is unknown.
pub fn stored_event(kind: &str) -> (event: Result<StoredEvent, String>)
    ensures
        match event {
            Ok(found) => event_of_kind(kind@) == Some(found),
            Err(message) => event_of_kind(kind@) is None && message@ == "unknown event kind "@
                + kind@,
        },
{
    if starts_with(kind, "flow_") {
        Ok(StoredEvent::FlowTransition)
    } else if same_text(kind, "accepted") {
        Ok(StoredEvent::Accepted)
    } else if same_text(kind, "started") {
        Ok(StoredEvent::Started)
    } else if same_text(kind, "lease_expired") {
        Ok(StoredEvent::LeaseExpired)
    } else if same_text(kind, "cancellation_requested") {
        Ok(StoredEvent::CancellationRequested)
    } else if same_text(kind, "cancelled") {
        Ok(StoredEvent::Cancelled)
    } else if same_text(kind, "completed") {
        Ok(StoredEvent::Completed)
    } else if same_text(kind, "failed") {
        Ok(StoredEvent::Failed)
    } else {
        Err(concat2("unknown event kind ", kind))
    }
}

/// Why a stored result cannot be replayed.
#[derive(Clone, Copy, Debug, PartialEq, Eq, Structural)]
pub enum StoredResultError {
    NotAResult,
    UnsupportedVersion,
    FlowBeforeFlowProtocol,
    WrongRequest,
}

pub open spec fn stored_result_error_text(error: StoredResultError) -> Seq<char> {
    match error {
        StoredResultError::NotAResult => "stored result is not a result envelope"@,
        StoredResultError::UnsupportedVersion => {
            "stored result uses an unsupported protocol version"@
        },
        StoredResultError::FlowBeforeFlowProtocol => {
            "stored flow result predates the flow protocol"@
        },
        StoredResultError::WrongRequest => {
            "stored result correlation does not match its request"@
        },
    }
}

impl StoredResultError {
    pub fn text(self) -> (text: &'static str)
        ensures
            text@ == stored_result_error_text(self),
    {
        match self {
            StoredResultError::NotAResult => "stored result is not a result envelope",
            StoredResultError::UnsupportedVersion => {
                "stored result uses an unsupported protocol version"
            },
            StoredResultError::FlowBeforeFlowProtocol => {
                "stored flow result predates the flow protocol"
            },
            StoredResultError::WrongRequest => {
                "stored result correlation does not match its request"
            },
        }
    }
}

/// The first protocol version that carries flow results.
pub const FIRST_FLOW_PROTOCOL: u16 = 4;

/// What a stored message turns out to be.
#[derive(Clone, Copy, Debug, PartialEq, Eq, Structural)]
pub enum StoredMessage {
    Event,
    /// A result that is no flow result.
    Other { version: u16 },
    /// The result of a flow run, with the truth that its report supports.
    Flow { version: u16, supported_truth: OperationTruth },
}

/// How a stored result is replayed.
#[derive(Clone, Copy, Debug, PartialEq, Eq, Structural)]
pub struct Replayed {
    /// The version that the replay is enveloped in.
    pub version: u16,
    /// The truth that replaces the stored one, if it is replaced.
    pub truth: Option<OperationTruth>,
}

/// How a stored message is replayed under the current protocol.
pub open spec fn replay_of(message: StoredMessage, current: u16) -> Result<
    Replayed,
    StoredResultError,
> {
    match message {
        StoredMessage::Event => Err(StoredResultError::NotAResult),
        StoredMessage::Other { version } => if version == 0 || version > current {
            Err(StoredResultError::UnsupportedVersion)
        } else {
            Ok(Replayed { version: current, truth: None })
        },
        StoredMessage::Flow { version, supported_truth } => if version == 0 || version > current {
            Err(StoredResultError::UnsupportedVersion)
        } else if version < FIRST_FLOW_PROTOCOL {
            Err(StoredResultError::FlowBeforeFlowProtocol)
        } else {
            Ok(
                Replayed {
                    version: current,
                    truth: if version < current {
                        Some(supported_truth)
                    } else {
                        None
                    },
                },
            )
        },
    }
}

/// Decides how a stored result is replayed. Results outlive the protocol
/// version that first encoded them; a flow result from an older version keeps
/// only the truth that its report supports.
pub fn decode_stored_result(message: StoredMessage, current: u16) -> (replay: Result<
    Replayed,
    StoredResultError,
>)
    ensures
        replay == replay_of(message, current),
{
    match message {
        StoredMessage::Event => Err(StoredResultError::NotAResult),
        StoredMessage::Other { version } => {
            if version == 0 || version > current {
                Err(StoredResultError::UnsupportedVersion)
            } else {
                Ok(Replayed { version: current, truth: None })
            }
        },
        StoredMessage::Flow { version, supported_truth } => {
            if version == 0 || version > current {
                Err(StoredResultError::UnsupportedVersion)
            } else if version < FIRST_FLOW_PROTOCOL {
                Err(StoredResultError::FlowBeforeFlowProtocol)
            } else {
                let truth = if version < current {
                    Some(supported_truth)
                } else {
                    None
                };
                Ok(Replayed { version: current, truth })
            }
        },
    }
}

/// A stored event that has been read.
pub struct ReadEvent<E> {
    pub sequence: u64,
    pub event: E,
}

/// `message` reports `read` as an event of the request.
pub open spec fn reports_event<E, B>(
    message: ServerMessage<E, B>,
    read: ReadEvent<E>,
    version: u16,
    request_id: Seq<char>,
    project_id: Seq<char>,
) -> bool {
    message matches ServerMessage::Event(event) && event.protocol_version == version
        && event.request_id@ == request_id && event.project_id@ == project_id && event.sequence
        == read.sequence && event.event == read.event
}

/// Puts stored events into messages, in their order.
pub fn replay_messages_without_result<E, B>(
    version: u16,
    project_id: &str,
    request_id: &str,
    events: Vec<ReadEvent<E>>,
) -> (messages: Vec<ServerMessage<E, B>>)
    ensures
        messages@.len() == events@.len(),
        forall|i: int|
            0 <= i < messages@.len() ==> reports_event(
                #[trigger] messages@[i],
                events@[i],
                version,
                request_id@,
                project_id@,
            ),
{
    let ghost given = events@;
    let mut messages: Vec<ServerMessage<E, B>> = Vec::new();
    for read in iter: events
        invariant
            iter.seq() == given,
            messages@.len() == iter.index(),
            forall|i: int|
                0 <= i < messages@.len() ==> reports_event(
                    #[trigger] messages@[i],
                    given[i],
                    version,
                    request_id@,
                    project_id@,
                ),
    {
        messages.push(
            ServerMessage::Event(
                EventEnvelope {
                    protocol_version: version,
                    request_id: request_id.to_owned(),
                    project_id: project_id.to_owned(),
                    sequence: read.sequence,
                    event: read.event,
                },
            ),
        );
    }
    messages
}

/// Puts stored events and the stored result of a request into messages. A
/// result that belongs to another request or project is refused.
pub fn replay_messages<E, B>(
    version: u16,
    project_id: &str,
    request_id: &str,
    events: Vec<ReadEvent<E>>,
    result: Option<ResultEnvelope<B>>,
) -> (replay: Result<Vec<ServerMessage<E, B>>, StoredResultError>)
    ensures
        match replay {
            Ok(messages) => {
                &&& messages@.len() == events@.len() + (if result is Some {
                    1int
                } else {
                    0
                })
                &&& forall|i: int|
                    0 <= i < events@.len() ==> reports_event(
                        #[trigger] messages@[i],
                        events@[i],
                        version,
                        request_id@,
                        project_id@,
                    )
                &&& result matches Some(envelope) ==> envelope.request_id@ == request_id@
                    && envelope.project_id@ == project_id@ && messages@.last()
                    == ServerMessage::<E, B>::Result(envelope)
            },
            Err(error) => {
                &&& error == StoredResultError::WrongRequest
                &&& result matches Some(envelope) && (envelope.request_id@ != request_id@
                    || envelope.project_id@ != project_id@)
            },
        },
{
    let mut messages = replay_messages_without_result(version, project_id, request_id, events);
    match result {
        None => Ok(messages),
        Some(envelope) => {
            if !same_text(envelope.request_id.as_str(), request_id) || !same_text(
                envelope.project_id.as_str(),
                project_id,
            ) {
                return Err(StoredResultError::WrongRequest);
            }
            messages.push(ServerMessage::Result(envelope));
            Ok(messages)
        },
    }
}

// What reaches a caller

/// A caller is told of every result, and of exactly those events that come after
/// the last it has seen and after every event before them.
pub proof fn law_callers_are_told_of_all_news<E, B>(
    messages: Seq<ServerMessage<E, B>>,
    last: u64,
    index: int,
)
    requires
        0 <= index < messages.len(),
    ensures
        news(messages, last).contains(index) <==> match messages[index] {
            ServerMessage::Result(_) => true,
            ServerMessage::Event(event) => event.sequence > last && forall|j: int|
                0 <= j < index ==> (#[trigger] messages[j] matches ServerMessage::Event(earlier)
                    ==> earlier.sequence < event.sequence),
        },
    decreases messages.len(),
{
    let before = messages.drop_last();
    let all = news(messages, last);
    let earlier = news(before, last);
    lemma_news_in_range(messages, last);
    lemma_news_in_range(before, last);
    if index < before.len() {
        law_callers_are_told_of_all_news(before, last, index);
        assert(before[index] == messages[index]);
        assert forall|j: int| 0 <= j < index implies before[j] == #[trigger] messages[j] by {}
        if messages[index] is Event {
            let event = messages[index]->Event_0;
            if forall|j: int|
                0 <= j < index ==> (#[trigger] before[j] matches ServerMessage::Event(known)
                    ==> known.sequence < event.sequence) {
                assert forall|j: int| 0 <= j < index implies (
                #[trigger] messages[j] matches ServerMessage::Event(known) ==> known.sequence
                    < event.sequence) by {
                    assert(before[j] == messages[j]);
                }
            }
            if forall|j: int|
                0 <= j < index ==> (#[trigger] messages[j] matches ServerMessage::Event(known)
                    ==> known.sequence < event.sequence) {
                assert forall|j: int| 0 <= j < index implies (
                #[trigger] before[j] matches ServerMessage::Event(known) ==> known.sequence
                    < event.sequence) by {
                    assert(before[j] == messages[j]);
                }
            }
        }
        if all.contains(index) {
            let k = choose|k: int| 0 <= k < all.len() && all[k] == index;
            assert(earlier[k] == index);
        }
        if earlier.contains(index) {
            let k = choose|k: int| 0 <= k < earlier.len() && earlier[k] == index;
            assert(all[k] == index);
        }
    } else {
        lemma_seen_is_highest(before, last);
        if all.contains(index) {
            let k = choose|k: int| 0 <= k < all.len() && all[k] == index;
            if k < earlier.len() {
                assert(earlier[k] == index);
            }
        }
        if is_news(messages.last(), seen_after_all(before, last)) {
            assert(all[earlier.len() as int] == index);
        }
        if messages[index] is Event {
            let event = messages[index]->Event_0;
            let seen = seen_after_all(before, last);
            if event.sequence > seen {
                assert forall|j: int| 0 <= j < index implies (
                #[trigger] messages[j] matches ServerMessage::Event(known) ==> known.sequence
                    < event.sequence) by {
                    assert(before[j] == messages[j]);
                    lemma_seen_covers(before, last, j);
                }
            } else if event.sequence > last {
                let j = choose|j: int|
                    0 <= j < before.len() && (
                    #[trigger] before[j] matches ServerMessage::Event(known) && known.sequence
                        == seen);
                assert(before[j] == messages[j]);
            }
        }
    }
}

proof fn lemma_seen_is_highest<E, B>(messages: Seq<ServerMessage<E, B>>, last: u64)
    ensures
        seen_after_all(messages, last) >= last,
        seen_after_all(messages, last) == last || exists|j: int|
            0 <= j < messages.len() && (#[trigger] messages[j] matches ServerMessage::Event(known)
                && known.sequence == seen_after_all(messages, last)),
    decreases messages.len(),
{
    if messages.len() > 0 {
        let before = messages.drop_last();
        lemma_seen_is_highest(before, last);
        let seen = seen_after_all(before, last);
        if seen_after_all(messages, last) == seen {
            if seen != last {
                let j = choose|j: int|
                    0 <= j < before.len() && (
                    #[trigger] before[j] matches ServerMessage::Event(known) && known.sequence
                        == seen);
                assert(messages[j] == before[j]);
            }
        } else {
            assert(messages[messages.len() - 1] == messages.last());
        }
    }
}

/// What a caller has seen is the highest of what it had seen and of the events
/// that reached it.
pub proof fn law_callers_have_seen_the_highest<E, B>(
    messages: Seq<ServerMessage<E, B>>,
    last: u64,
    index: int,
)
    requires
        0 <= index < messages.len(),
    ensures
        seen_after_all(messages, last) >= last,
        messages[index] matches ServerMessage::Event(event) ==> event.sequence
            <= seen_after_all(messages, last),
        seen_after_all(messages, last) == last || exists|j: int|
            0 <= j < messages.len() && (#[trigger] messages[j] matches ServerMessage::Event(known)
                && known.sequence == seen_after_all(messages, last)),
{
    lemma_seen_covers(messages, last, index);
    lemma_seen_is_highest(messages, last);
}

/// A stored kind stands for the event of its own name, and no other does.
pub proof fn law_stored_kinds_name_their_event(kind: Seq<char>)
    ensures
        event_of_kind(kind) == Some(StoredEvent::FlowTransition) <==> has_prefix(kind, "flow_"@),
        event_of_kind(kind) == Some(StoredEvent::Accepted) <==> kind == "accepted"@,
        event_of_kind(kind) == Some(StoredEvent::Started) <==> kind == "started"@,
        event_of_kind(kind) == Some(StoredEvent::LeaseExpired) <==> kind == "lease_expired"@,
        event_of_kind(kind) == Some(StoredEvent::CancellationRequested) <==> kind
            == "cancellation_requested"@,
        event_of_kind(kind) == Some(StoredEvent::Cancelled) <==> kind == "cancelled"@,
        event_of_kind(kind) == Some(StoredEvent::Completed) <==> kind == "completed"@,
        event_of_kind(kind) == Some(StoredEvent::Failed) <==> kind == "failed"@,
{
    reveal_strlit("flow_");
    reveal_strlit("accepted");
    reveal_strlit("started");
    reveal_strlit("lease_expired");
    reveal_strlit("cancellation_requested");
    reveal_strlit("cancelled");
    reveal_strlit("completed");
    reveal_strlit("failed");
    if has_prefix(kind, "flow_"@) {
        assert(kind.take("flow_"@.len() as int)[0] == kind[0]);
        assert(kind.take("flow_"@.len() as int)[1] == kind[1]);
        assert("flow_"@[0] == 'f' && "flow_"@[1] == 'l');
    }
    assert("accepted"@[0] == 'a');
    assert("started"@[0] == 's');
    assert("lease_expired"@[0] == 'l');
    assert("cancellation_requested"@[0] == 'c');
    assert("cancellation_requested"@.len() == 22);
    assert("cancelled"@[0] == 'c' && "cancelled"@[1] == 'a' && "cancelled"@.len() == 9);
    assert("completed"@[0] == 'c' && "completed"@[1] == 'o' && "completed"@.len() == 9);
    assert("failed"@[0] == 'f' && "failed"@[1] == 'a');
}

/// A stored result is replayed under the current version, whichever version up to
/// it wrote it, except that no flow was before the fourth. Its truth is
/// replaced by what its report supports exactly where it is a flow's from an
/// older version.
pub proof fn law_old_results_are_replayed(message: StoredMessage, current: u16)
    ensures
        message is Event <==> replay_of(message, current) == Err::<Replayed, StoredResultError>(
            StoredResultError::NotAResult,
        ),
        message matches StoredMessage::Other { version } ==> {
            &&& replay_of(message, current) is Ok <==> 1 <= version <= current
            &&& replay_of(message, current) is Err ==> replay_of(message, current)->Err_0
                == StoredResultError::UnsupportedVersion
        },
        message matches StoredMessage::Flow { version, .. } ==> {
            &&& replay_of(message, current) is Ok <==> 4 <= version <= current
            &&& replay_of(message, current) == Err::<Replayed, StoredResultError>(
                StoredResultError::UnsupportedVersion,
            ) <==> version == 0 || version > current
            &&& replay_of(message, current) == Err::<Replayed, StoredResultError>(
                StoredResultError::FlowBeforeFlowProtocol,
            ) <==> 1 <= version < 4 && version <= current
        },
        replay_of(message, current) matches Ok(replayed) ==> {
            &&& replayed.version == current
            &&& replayed.truth is Some <==> (message matches StoredMessage::Flow { version, .. }
                && version < current)
            &&& replayed.truth is Some ==> (message matches StoredMessage::Flow {
                supported_truth,
                ..
            } && replayed.truth == Some(supported_truth))
        },
{
}

/// Each reason why a stored result is not replayed has its own words.
pub proof fn law_stored_result_errors_have_their_own_words(error: StoredResultError)
    ensures
        stored_result_error_text(error) == "stored result is not a result envelope"@ <==> error
            == StoredResultError::NotAResult,
        stored_result_error_text(error) == "stored result uses an unsupported protocol version"@
            <==> error == StoredResultError::UnsupportedVersion,
        stored_result_error_text(error) == "stored flow result predates the flow protocol"@
            <==> error == StoredResultError::FlowBeforeFlowProtocol,
        stored_result_error_text(error) == "stored result correlation does not match its request"@
            <==> error == StoredResultError::WrongRequest,
{
    reveal_strlit("stored result is not a result envelope");
    reveal_strlit("stored result uses an unsupported protocol version");
    reveal_strlit("stored flow result predates the flow protocol");
    reveal_strlit("stored result correlation does not match its request");
    assert("stored result is not a result envelope"@.len() == 38);
    assert("stored result uses an unsupported protocol version"@.len() == 50);
    assert("stored flow result predates the flow protocol"@.len() == 45);
    assert("stored result correlation does not match its request"@.len() == 52);
}

/// A caller gets an event as an event, under the request that it watches and with
/// its own sequence, and a result as a result, under the caller's own request;
/// both in the caller's project.
pub proof fn law_messages_are_addressed_to_their_caller<E: Clone, B: Clone>(
    message: ServerMessage<E, B>,
    sent: ServerMessage<E, B>,
    observer: Subscription,
)
    requires
        readdressed(message, sent, observer),
    ensures
        message is Event <==> sent is Event,
        sent matches ServerMessage::Event(event) ==> event.request_id@
            == observer.event_request_id@ && event.project_id@ == observer.project_id@
            && event.sequence == message->Event_0.sequence && event.protocol_version
            == message->Event_0.protocol_version,
        sent matches ServerMessage::Result(result) ==> result.request_id@
            == observer.observer_request_id@ && result.project_id@ == observer.project_id@
            && result.protocol_version == message->Result_0.protocol_version,
{
}

/// A message under another address is the same message: an event stays an event
/// with its sequence and what it tells, and a result a result with its body.
pub proof fn law_moved_messages_stay_the_same<E, B>(
    message: ServerMessage<E, B>,
    sent: ServerMessage<E, B>,
    event_request_id: Seq<char>,
    observer_request_id: Seq<char>,
    project_id: Seq<char>,
)
    requires
        remapped(message, sent, event_request_id, observer_request_id, project_id),
    ensures
        message is Event <==> sent is Event,
        sent matches ServerMessage::Event(event) ==> event.request_id@ == event_request_id
            && event.project_id@ == project_id && event.sequence == message->Event_0.sequence
            && event.event == message->Event_0.event,
        sent matches ServerMessage::Result(result) ==> result.request_id@ == observer_request_id
            && result.project_id@ == project_id && result.body == message->Result_0.body,
{
}

/// A stored event is told as an event of its own request, at its own place.
pub proof fn law_stored_events_keep_their_place<E, B>(
    message: ServerMessage<E, B>,
    read: ReadEvent<E>,
    version: u16,
    request_id: Seq<char>,
    project_id: Seq<char>,
)
    requires
        reports_event(message, read, version, request_id, project_id),
    ensures
        message matches ServerMessage::Event(event) && event.sequence == read.sequence
            && event.event == read.event && event.request_id@ == request_id && event.project_id@
            == project_id && event.protocol_version == version,
{
}

} // verus!

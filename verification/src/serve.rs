//! The daemon's service loop and the delivery of what it sends.

use vstd::prelude::*;

use crate::messages::{ResultEnvelope, ServerMessage, Subscription};
use crate::protocol::{Failure, FailureCode};
use crate::text::same_text;

verus! {

/// Receive failures in a row after which the listener counts as dead. One
/// misbehaving client is forgiven by the next healthy request.
pub const MAX_CONSECUTIVE_RECEIVE_FAILURES: u32 = 5;

/// How the delivery of one outbound item went.
#[derive(Clone, Copy, Debug, PartialEq, Eq, Structural)]
pub enum DeliveryEnd {
    Delivered,
    /// The answer to a stop request was delivered.
    StopAnswered,
    Failed,
}

/// What happened to the service.
#[derive(Clone, Copy, Debug, PartialEq, Eq, Structural)]
pub enum ServeEvent {
    Shutdown,
    Received,
    /// A client sent something that is no message.
    MalformedFrame,
    ReceiveFailed,
    OutboundClosed,
    /// `stopping` tells whether the item answered a stop request.
    Delivery { stopping: bool, end: DeliveryEnd },
    HandlerFinished,
    HandlerFailed,
    HandlerPanicked { cancelled: bool },
    SchedulerFinished,
    SchedulerFailed,
    SchedulerPanicked,
}

/// Why the service ends.
#[derive(Clone, Copy, Debug, PartialEq, Eq, Structural)]
pub enum ServeEnd {
    Orderly,
    DeliveryFailed,
    SchedulerFailed,
    SchedulerPanicked,
}

/// What the service does about an event.
#[derive(Clone, Copy, Debug, PartialEq, Eq, Structural)]
pub enum ServeAction {
    Continue,
    SpawnHandler,
    LogMalformedFrame,
    LogReceiveFailure { in_a_row: u32 },
    LogUndeliverable,
    LogHandlerFailure,
    LogHandlerPanic,
    Stop(ServeEnd),
    /// Log the last receive failure and stop.
    GiveUp { in_a_row: u32 },
}

/// What the service keeps in mind between events.
#[derive(Clone, Copy, Debug, PartialEq, Eq, Structural)]
pub struct ServeState {
    /// Receive failures since the last request.
    pub failures: u32,
    /// The scheduler's end has been seen, so it must not be awaited again.
    pub scheduler_joined: bool,
}

impl ServeState {
    /// The service has not given up yet.
    pub open spec fn serving(self) -> bool {
        self.failures < MAX_CONSECUTIVE_RECEIVE_FAILURES
    }

    /// A service that has just started.
    pub fn new() -> (state: ServeState)
        ensures
            state.failures == 0,
            !state.scheduler_joined,
            state.serving(),
    {
        ServeState { failures: 0, scheduler_joined: false }
    }
}

/// The failures in a row after an event.
pub open spec fn failures_after(failures: int, event: ServeEvent) -> int {
    match event {
        ServeEvent::Received => 0,
        ServeEvent::ReceiveFailed => failures + 1,
        _ => failures,
    }
}

/// What the service does about `event` after `failures` receive failures in a
/// row.
pub open spec fn serve_action(failures: int, event: ServeEvent) -> ServeAction {
    match event {
        ServeEvent::Shutdown | ServeEvent::OutboundClosed | ServeEvent::SchedulerFinished => {
            ServeAction::Stop(ServeEnd::Orderly)
        },
        ServeEvent::Received => ServeAction::SpawnHandler,
        ServeEvent::MalformedFrame => ServeAction::LogMalformedFrame,
        ServeEvent::ReceiveFailed => if failures + 1 >= MAX_CONSECUTIVE_RECEIVE_FAILURES {
            ServeAction::GiveUp { in_a_row: (failures + 1) as u32 }
        } else {
            ServeAction::LogReceiveFailure { in_a_row: (failures + 1) as u32 }
        },
        ServeEvent::Delivery { stopping, end } => match end {
            DeliveryEnd::Delivered => ServeAction::Continue,
            DeliveryEnd::StopAnswered => ServeAction::Stop(ServeEnd::Orderly),
            DeliveryEnd::Failed => if stopping {
                ServeAction::Stop(ServeEnd::DeliveryFailed)
            } else {
                ServeAction::LogUndeliverable
            },
        },
        ServeEvent::HandlerFinished => ServeAction::Continue,
        ServeEvent::HandlerFailed => ServeAction::LogHandlerFailure,
        ServeEvent::HandlerPanicked { cancelled } => if cancelled {
            ServeAction::Continue
        } else {
            ServeAction::LogHandlerPanic
        },
        ServeEvent::SchedulerFailed => ServeAction::Stop(ServeEnd::SchedulerFailed),
        ServeEvent::SchedulerPanicked => ServeAction::Stop(ServeEnd::SchedulerPanicked),
    }
}

/// The action ends the service.
pub open spec fn ends_service(action: ServeAction) -> bool {
    action is Stop || action is GiveUp
}

/// Decides what the service does about an event.
pub fn serve_step(state: ServeState, event: ServeEvent) -> (next: (ServeState, ServeAction))
    requires
        state.serving(),
    ensures
        next.1 == serve_action(state.failures as int, event),
        next.0.failures == failures_after(state.failures as int, event),
        next.0.scheduler_joined == (state.scheduler_joined || event == ServeEvent::SchedulerFinished
            || event == ServeEvent::SchedulerFailed || event == ServeEvent::SchedulerPanicked),
        !ends_service(next.1) ==> next.0.serving(),
{
    let mut next = state;
    let action = match event {
        ServeEvent::Shutdown | ServeEvent::OutboundClosed => ServeAction::Stop(ServeEnd::Orderly),
        ServeEvent::SchedulerFinished => {
            next.scheduler_joined = true;
            ServeAction::Stop(ServeEnd::Orderly)
        },
        ServeEvent::Received => {
            next.failures = 0;
            ServeAction::SpawnHandler
        },
        ServeEvent::MalformedFrame => ServeAction::LogMalformedFrame,
        ServeEvent::ReceiveFailed => {
            let in_a_row: u32 = state.failures + 1;
            next.failures = in_a_row;
            if in_a_row >= MAX_CONSECUTIVE_RECEIVE_FAILURES {
                ServeAction::GiveUp { in_a_row }
            } else {
                ServeAction::LogReceiveFailure { in_a_row }
            }
        },
        ServeEvent::Delivery { stopping, end } => match end {
            DeliveryEnd::Delivered => ServeAction::Continue,
            DeliveryEnd::StopAnswered => ServeAction::Stop(ServeEnd::Orderly),
            DeliveryEnd::Failed => {
                if stopping {
                    ServeAction::Stop(ServeEnd::DeliveryFailed)
                } else {
                    ServeAction::LogUndeliverable
                }
            },
        },
        ServeEvent::HandlerFinished => ServeAction::Continue,
        ServeEvent::HandlerFailed => ServeAction::LogHandlerFailure,
        ServeEvent::HandlerPanicked { cancelled } => {
            if cancelled {
                ServeAction::Continue
            } else {
                ServeAction::LogHandlerPanic
            }
        },
        ServeEvent::SchedulerFailed => {
            next.scheduler_joined = true;
            ServeAction::Stop(ServeEnd::SchedulerFailed)
        },
        ServeEvent::SchedulerPanicked => {
            next.scheduler_joined = true;
            ServeAction::Stop(ServeEnd::SchedulerPanicked)
        },
    };
    (next, action)
}

/// The receive failures in a row after `events`.
pub open spec fn failures_in_a_row(events: Seq<ServeEvent>) -> int
    decreases events.len(),
{
    if events.len() == 0 {
        0
    } else {
        failures_after(failures_in_a_row(events.drop_last()), events.last())
    }
}

/// The service went through `events` without ending.
pub open spec fn survives(events: Seq<ServeEvent>) -> bool
    decreases events.len(),
{
    events.len() == 0 || (survives(events.drop_last()) && !ends_service(
        serve_action(failures_in_a_row(events.drop_last()), events.last()),
    ))
}

/// The last `count` receive attempts of `events` all failed.
pub open spec fn last_receives_failed(events: Seq<ServeEvent>, count: int) -> bool
    decreases events.len(),
{
    if count <= 0 {
        true
    } else if events.len() == 0 {
        false
    } else {
        match events.last() {
            ServeEvent::Received => false,
            ServeEvent::ReceiveFailed => last_receives_failed(events.drop_last(), count - 1),
            _ => last_receives_failed(events.drop_last(), count),
        }
    }
}

proof fn lemma_failures_count(events: Seq<ServeEvent>, count: int)
    ensures
        failures_in_a_row(events) >= 0,
        count > 0 ==> (last_receives_failed(events, count) <==> failures_in_a_row(events) >= count),
    decreases events.len(),
{
    reveal_with_fuel(last_receives_failed, 2);
    if events.len() > 0 {
        lemma_failures_count(events.drop_last(), count);
        lemma_failures_count(events.drop_last(), count - 1);
    }
}

/// A misbehaving client cannot stop the daemon: it gives up on the listener
/// exactly when the last five receive attempts all failed, and then at once.
pub proof fn law_gives_up_after_failures_in_a_row(events: Seq<ServeEvent>, event: ServeEvent)
    requires
        survives(events),
    ensures
        failures_in_a_row(events) < MAX_CONSECUTIVE_RECEIVE_FAILURES,
        serve_action(failures_in_a_row(events), event) is GiveUp <==> last_receives_failed(
            events.push(event),
            MAX_CONSECUTIVE_RECEIVE_FAILURES as int,
        ) && event == ServeEvent::ReceiveFailed,
    decreases events.len(),
{
    assert(events.push(event).drop_last() =~= events);
    lemma_failures_count(events.push(event), MAX_CONSECUTIVE_RECEIVE_FAILURES as int);
    lemma_failures_count(events, 1);
    if events.len() > 0 {
        law_gives_up_after_failures_in_a_row(events.drop_last(), events.last());
        assert(events.drop_last().push(events.last()) =~= events);
    }
}

// Sending

/// What came of the last action.
#[derive(Clone, Copy, Debug, PartialEq, Eq, Structural)]
pub enum SendEvent {
    Encoded,
    TooLarge,
    EncodingFailed,
    Responded,
    Disconnected,
    ResponseFailed,
}

/// Work to perform before the next event.
#[derive(Clone, Copy, Debug, PartialEq, Eq, Structural)]
pub enum SendAction {
    Encode { index: usize },
    Respond { index: usize },
    /// Encode the failure that stands for the message that was too large.
    EncodeFallback { index: usize },
    RespondFallback,
    /// Everything was sent.
    Complete,
    /// The client will get nothing more.
    Abandon,
    FailEncoding,
    FailResponse,
    Ignore,
}

/// What the sender is waiting for.
#[derive(Clone, Copy, Debug, PartialEq, Eq, Structural)]
pub enum SendPhase {
    Encoding { index: usize },
    Responding { index: usize },
    EncodingFallback,
    RespondingFallback,
    Done,
}

pub open spec fn sending_from(index: usize, count: usize) -> (SendPhase, SendAction) {
    if index < count {
        (SendPhase::Encoding { index }, SendAction::Encode { index })
    } else {
        (SendPhase::Done, SendAction::Complete)
    }
}

/// The rule for sending `count` messages.
pub open spec fn spec_send_step(count: usize, phase: SendPhase, event: SendEvent) -> (
    SendPhase,
    SendAction,
) {
    match (phase, event) {
        (SendPhase::Encoding { index }, SendEvent::Encoded) => (
            SendPhase::Responding { index },
            SendAction::Respond { index },
        ),
        (SendPhase::Encoding { index }, SendEvent::TooLarge) => (
            SendPhase::EncodingFallback,
            SendAction::EncodeFallback { index },
        ),
        (SendPhase::Encoding { .. }, SendEvent::EncodingFailed) => (
            SendPhase::Done,
            SendAction::FailEncoding,
        ),
        (SendPhase::Responding { index }, SendEvent::Responded) => sending_from(
            (index + 1) as usize,
            count,
        ),
        (SendPhase::Responding { .. }, SendEvent::Disconnected) => (
            SendPhase::Done,
            SendAction::Abandon,
        ),
        (SendPhase::Responding { .. }, SendEvent::ResponseFailed) => (
            SendPhase::Done,
            SendAction::FailResponse,
        ),
        (SendPhase::EncodingFallback, SendEvent::Encoded) => (
            SendPhase::RespondingFallback,
            SendAction::RespondFallback,
        ),
        (SendPhase::EncodingFallback, SendEvent::TooLarge) => (
            SendPhase::Done,
            SendAction::Abandon,
        ),
        (SendPhase::EncodingFallback, SendEvent::EncodingFailed) => (
            SendPhase::Done,
            SendAction::Abandon,
        ),
        (SendPhase::RespondingFallback, SendEvent::Responded) => (
            SendPhase::Done,
            SendAction::Abandon,
        ),
        (SendPhase::RespondingFallback, SendEvent::Disconnected) => (
            SendPhase::Done,
            SendAction::Abandon,
        ),
        (SendPhase::RespondingFallback, SendEvent::ResponseFailed) => (
            SendPhase::Done,
            SendAction::FailResponse,
        ),
        _ => (phase, SendAction::Ignore),
    }
}

/// The first action for sending `count` messages.
pub fn send_start(count: usize) -> (next: (SendPhase, SendAction))
    ensures
        next == sending_from(0, count),
{
    if count > 0 {
        (SendPhase::Encoding { index: 0 }, SendAction::Encode { index: 0 })
    } else {
        (SendPhase::Done, SendAction::Complete)
    }
}

/// The message being sent is one of them.
pub open spec fn is_sending(phase: SendPhase, count: usize) -> bool {
    match phase {
        SendPhase::Encoding { index } => index < count,
        SendPhase::Responding { index } => index < count,
        _ => true,
    }
}

/// Decides what follows `event` while `count` messages are sent.
pub fn send_step(count: usize, phase: SendPhase, event: SendEvent) -> (next: (
    SendPhase,
    SendAction,
))
    requires
        is_sending(phase, count),
    ensures
        next == spec_send_step(count, phase, event),
        is_sending(next.0, count),
{
    match (phase, event) {
        (SendPhase::Encoding { index }, SendEvent::Encoded) => (
            SendPhase::Responding { index },
            SendAction::Respond { index },
        ),
        (SendPhase::Encoding { index }, SendEvent::TooLarge) => (
            SendPhase::EncodingFallback,
            SendAction::EncodeFallback { index },
        ),
        (SendPhase::Encoding { .. }, SendEvent::EncodingFailed) => (
            SendPhase::Done,
            SendAction::FailEncoding,
        ),
        (SendPhase::Responding { index }, SendEvent::Responded) => {
            let next: usize = index + 1;
            if next < count {
                (SendPhase::Encoding { index: next }, SendAction::Encode { index: next })
            } else {
                (SendPhase::Done, SendAction::Complete)
            }
        },
        (SendPhase::Responding { .. }, SendEvent::Disconnected) => (
            SendPhase::Done,
            SendAction::Abandon,
        ),
        (SendPhase::Responding { .. }, SendEvent::ResponseFailed) => (
            SendPhase::Done,
            SendAction::FailResponse,
        ),
        (SendPhase::EncodingFallback, SendEvent::Encoded) => (
            SendPhase::RespondingFallback,
            SendAction::RespondFallback,
        ),
        (SendPhase::EncodingFallback, SendEvent::TooLarge) => (
            SendPhase::Done,
            SendAction::Abandon,
        ),
        (SendPhase::EncodingFallback, SendEvent::EncodingFailed) => (
            SendPhase::Done,
            SendAction::Abandon,
        ),
        (SendPhase::RespondingFallback, SendEvent::Responded) => (
            SendPhase::Done,
            SendAction::Abandon,
        ),
        (SendPhase::RespondingFallback, SendEvent::Disconnected) => (
            SendPhase::Done,
            SendAction::Abandon,
        ),
        (SendPhase::RespondingFallback, SendEvent::ResponseFailed) => (
            SendPhase::Done,
            SendAction::FailResponse,
        ),
        _ => (phase, SendAction::Ignore),
    }
}

/// Phase and action after `events`, and how many messages were responded.
pub open spec fn send_run(count: usize, events: Seq<SendEvent>) -> (SendPhase, SendAction)
    decreases events.len(),
{
    if events.len() == 0 {
        sending_from(0, count)
    } else {
        spec_send_step(count, send_run(count, events.drop_last()).0, events.last())
    }
}

/// The number of messages that the client has received.
pub open spec fn responded(count: usize, events: Seq<SendEvent>) -> int
    decreases events.len(),
{
    if events.len() == 0 {
        0
    } else {
        let before = events.drop_last();
        responded(count, before) + (if send_run(count, before).0 is Responding && events.last()
            == SendEvent::Responded {
            1int
        } else {
            0
        })
    }
}

proof fn lemma_messages_go_in_order(count: usize, events: Seq<SendEvent>)
    ensures
        send_run(count, events).0 matches SendPhase::Encoding { index } ==> index == responded(
            count,
            events,
        ) && index < count,
        send_run(count, events).0 matches SendPhase::Responding { index } ==> index == responded(
            count,
            events,
        ) && index < count,
        send_run(count, events).1 == SendAction::Complete ==> responded(count, events) == count,
    decreases events.len(),
{
    if events.len() > 0 {
        lemma_messages_go_in_order(count, events.drop_last());
    }
}

/// Messages go out in order, none twice and none left out: the one that is sent
/// next is the first that the client has not received, and a complete delivery
/// has reached it with every message.
pub proof fn law_messages_go_out_in_order(count: usize, events: Seq<SendEvent>)
    ensures
        send_run(count, events).1 matches SendAction::Respond { index } ==> index == responded(
            count,
            events,
        ),
        send_run(count, events).1 == SendAction::Complete ==> responded(count, events) == count,
{
    lemma_messages_go_in_order(count, events);
    if events.len() > 0 {
        lemma_messages_go_in_order(count, events.drop_last());
    }
}

/// What a client gets in place of a message that is too large.
pub fn oversized_response_failure<E, B>(message: &ServerMessage<E, B>, version: u16) -> (failure:
    ResultEnvelope<Failure>)
    ensures
        failure.protocol_version == version,
        failure.body.says(
            FailureCode::FrameTooLarge,
            "response exceeded the local protocol frame limit"@,
            None,
        ),
        match *message {
            ServerMessage::Event(event) => failure.request_id@ == event.request_id@
                && failure.project_id@ == event.project_id@,
            ServerMessage::Result(result) => failure.request_id@ == result.request_id@
                && failure.project_id@ == result.project_id@,
        },
{
    let (request_id, project_id) = match message {
        ServerMessage::Event(event) => (event.request_id.clone(), event.project_id.clone()),
        ServerMessage::Result(result) => (result.request_id.clone(), result.project_id.clone()),
    };
    ResultEnvelope {
        protocol_version: version,
        request_id,
        project_id,
        body: Failure::new(
            FailureCode::FrameTooLarge,
            "response exceeded the local protocol frame limit",
        ),
    }
}

// Watching

/// A watching caller and the route to it.
pub struct Observer<R> {
    pub route: R,
    pub subscription: Subscription,
}

struct Watched<R> {
    request_id: String,
    observers: Vec<Observer<R>>,
}

/// The callers that watch each request.
pub struct Subscriptions<R> {
    watched: Vec<Watched<R>>,
}

impl<R> Subscriptions<R> {
    /// No request is listed twice, and none without a watching caller.
    pub closed spec fn well_formed(self) -> bool {
        &&& forall|i: int, j: int|
            0 <= i < j < self.watched@.len() ==> (#[trigger] self.watched@[i]).request_id@ != (
            #[trigger] self.watched@[j]).request_id@
        &&& forall|i: int|
            0 <= i < self.watched@.len() ==> (#[trigger] self.watched@[i]).observers@.len() > 0
    }

    /// The callers that watch `request_id`.
    pub closed spec fn observers(self, request_id: Seq<char>) -> Seq<Observer<R>> {
        if exists|i: int|
            0 <= i < self.watched@.len() && (#[trigger] self.watched@[i]).request_id@
                == request_id {
            let i = choose|i: int|
                0 <= i < self.watched@.len() && (#[trigger] self.watched@[i]).request_id@
                    == request_id;
            self.watched@[i].observers@
        } else {
            Seq::empty()
        }
    }

    /// Nobody watches anything.
    pub fn new() -> (subscriptions: Self)
        ensures
            subscriptions.well_formed(),
            forall|id: Seq<char>| #[trigger]
                subscriptions.observers(id) == Seq::<Observer<R>>::empty(),
    {
        Subscriptions { watched: Vec::new() }
    }

    fn position(&self, request_id: &str) -> (found: Option<usize>)
        requires
            self.well_formed(),
        ensures
            match found {
                Some(index) => {
                    &&& index < self.watched@.len()
                    &&& self.watched@[index as int].request_id@ == request_id@
                    &&& self.observers(request_id@) == self.watched@[index as int].observers@
                },
                None => {
                    &&& forall|i: int|
                        0 <= i < self.watched@.len() ==> (#[trigger] self.watched@[i]).request_id@
                            != request_id@
                    &&& self.observers(request_id@) == Seq::<Observer<R>>::empty()
                },
            },
    {
        let mut index: usize = 0;
        while index < self.watched.len()
            invariant
                self.well_formed(),
                index <= self.watched@.len(),
                forall|i: int|
                    0 <= i < index ==> (#[trigger] self.watched@[i]).request_id@ != request_id@,
            decreases self.watched@.len() - index,
        {
            if same_text(self.watched[index].request_id.as_str(), request_id) {
                return Some(index);
            }
            index = index + 1;
        }
        None
    }

    /// Adds a watching caller of a request after those that it already has.
    pub fn subscribe(&mut self, request_id: &str, observer: Observer<R>)
        requires
            old(self).well_formed(),
        ensures
            final(self).well_formed(),
            final(self).observers(request_id@) == old(self).observers(request_id@).push(observer),
            forall|id: Seq<char>|
                id != request_id@ ==> #[trigger] final(self).observers(id) == old(self).observers(
                    id,
                ),
    {
        let ghost before = *self;
        match self.position(request_id) {
            Some(index) => {
                let mut entry = self.watched.swap_remove(index);
                entry.observers.push(observer);
                self.watched.push(entry);
                proof {
                    assert(self.watched@.drop_last() =~= before.watched@.update(
                        index as int,
                        before.watched@.last(),
                    ).drop_last());
                    lemma_replaced(before, *self, index as int, request_id@);
                }
            },
            None => {
                let mut observers: Vec<Observer<R>> = Vec::new();
                observers.push(observer);
                self.watched.push(Watched { request_id: request_id.to_owned(), observers });
                proof {
                    lemma_added(before, *self, request_id@);
                    assert(self.observers(request_id@) =~= before.observers(request_id@).push(
                        observer,
                    ));
                }
            },
        }
    }

    /// Takes out all watching callers of a request.
    pub fn take(&mut self, request_id: &str) -> (observers: Vec<Observer<R>>)
        requires
            old(self).well_formed(),
        ensures
            final(self).well_formed(),
            observers@ == old(self).observers(request_id@),
            final(self).observers(request_id@) == Seq::<Observer<R>>::empty(),
            forall|id: Seq<char>|
                id != request_id@ ==> #[trigger] final(self).observers(id) == old(self).observers(
                    id,
                ),
    {
        let ghost before = *self;
        match self.position(request_id) {
            Some(index) => {
                let entry = self.watched.swap_remove(index);
                proof {
                    lemma_removed(before, *self, index as int, request_id@);
                }
                entry.observers
            },
            None => Vec::new(),
        }
    }
}

proof fn lemma_unique<R>(subscriptions: Subscriptions<R>, index: int)
    requires
        subscriptions.well_formed(),
        0 <= index < subscriptions.watched@.len(),
    ensures
        subscriptions.observers(subscriptions.watched@[index].request_id@)
            == subscriptions.watched@[index].observers@,
{
    let id = subscriptions.watched@[index].request_id@;
    let i = choose|i: int|
        0 <= i < subscriptions.watched@.len() && (
        #[trigger] subscriptions.watched@[i]).request_id@ == id;
    if i != index {
        if i < index {
            assert(subscriptions.watched@[i].request_id@ != subscriptions.watched@[index].request_id@);
        } else {
            assert(subscriptions.watched@[index].request_id@ != subscriptions.watched@[i].request_id@);
        }
    }
}

proof fn lemma_same_entries<R>(
    before: Subscriptions<R>,
    after: Subscriptions<R>,
    id: Seq<char>,
)
    requires
        before.well_formed(),
        after.well_formed(),
        forall|i: int|
            0 <= i < before.watched@.len() && (#[trigger] before.watched@[i]).request_id@ == id
                ==> exists|j: int|
                0 <= j < after.watched@.len() && #[trigger] after.watched@[j] == before.watched@[i],
        forall|j: int|
            0 <= j < after.watched@.len() && (#[trigger] after.watched@[j]).request_id@ == id
                ==> exists|i: int|
                0 <= i < before.watched@.len() && #[trigger] before.watched@[i] == after.watched@[j],
    ensures
        after.observers(id) == before.observers(id),
{
    if exists|i: int|
        0 <= i < before.watched@.len() && (#[trigger] before.watched@[i]).request_id@ == id {
        let i = choose|i: int|
            0 <= i < before.watched@.len() && (#[trigger] before.watched@[i]).request_id@ == id;
        let j = choose|j: int|
            0 <= j < after.watched@.len() && #[trigger] after.watched@[j] == before.watched@[i];
        lemma_unique(before, i);
        lemma_unique(after, j);
    } else {
        assert(!exists|j: int|
            0 <= j < after.watched@.len() && (#[trigger] after.watched@[j]).request_id@ == id);
    }
}

proof fn lemma_removed<R>(
    before: Subscriptions<R>,
    after: Subscriptions<R>,
    index: int,
    request_id: Seq<char>,
)
    requires
        before.well_formed(),
        0 <= index < before.watched@.len(),
        before.watched@[index].request_id@ == request_id,
        after.watched@ == before.watched@.update(index, before.watched@.last()).drop_last(),
    ensures
        after.well_formed(),
        after.observers(request_id) == Seq::<Observer<R>>::empty(),
        forall|id: Seq<char>|
            id != request_id ==> #[trigger] after.observers(id) == before.observers(id),
{
    let n = before.watched@.len() as int;
    assert forall|j: int| 0 <= j < after.watched@.len() implies {
        let k = if j == index {
            n - 1
        } else {
            j
        };
        #[trigger] after.watched@[j] == before.watched@[k] && k != index
    } by {}
    assert(after.well_formed()) by {
        assert forall|i: int, j: int| 0 <= i < j < after.watched@.len() implies (
        #[trigger] after.watched@[i]).request_id@ != (
        #[trigger] after.watched@[j]).request_id@ by {
            let a = if i == index {
                n - 1
            } else {
                i
            };
            let b = if j == index {
                n - 1
            } else {
                j
            };
            if a < b {
                assert(before.watched@[a].request_id@ != before.watched@[b].request_id@);
            } else {
                assert(before.watched@[b].request_id@ != before.watched@[a].request_id@);
            }
        }
    }
    assert forall|j: int| 0 <= j < after.watched@.len() implies (
    #[trigger] after.watched@[j]).request_id@ != request_id by {
        let k = if j == index {
            n - 1
        } else {
            j
        };
        if k < index {
            assert(before.watched@[k].request_id@ != before.watched@[index].request_id@);
        } else {
            assert(before.watched@[index].request_id@ != before.watched@[k].request_id@);
        }
    }
    assert forall|id: Seq<char>| id != request_id implies #[trigger] after.observers(id)
        == before.observers(id) by {
        assert forall|i: int|
            0 <= i < n && (#[trigger] before.watched@[i]).request_id@ == id implies exists|j: int|
            0 <= j < after.watched@.len() && #[trigger] after.watched@[j]
                == before.watched@[i] by {
            let j = if i == n - 1 {
                index
            } else {
                i
            };
            assert(after.watched@[j] == before.watched@[i]);
        }
        lemma_same_entries(before, after, id);
    }
}

proof fn lemma_added<R>(before: Subscriptions<R>, after: Subscriptions<R>, request_id: Seq<char>)
    requires
        before.well_formed(),
        forall|i: int|
            0 <= i < before.watched@.len() ==> (#[trigger] before.watched@[i]).request_id@
                != request_id,
        after.watched@.len() == before.watched@.len() + 1,
        forall|i: int|
            0 <= i < before.watched@.len() ==> #[trigger] after.watched@[i] == before.watched@[i],
        after.watched@.last().request_id@ == request_id,
        after.watched@.last().observers@.len() > 0,
    ensures
        after.well_formed(),
        before.observers(request_id) == Seq::<Observer<R>>::empty(),
        after.observers(request_id) == after.watched@.last().observers@,
        forall|id: Seq<char>|
            id != request_id ==> #[trigger] after.observers(id) == before.observers(id),
{
    let n = before.watched@.len() as int;
    assert(after.well_formed());
    lemma_unique(after, n);
    assert forall|id: Seq<char>| id != request_id implies #[trigger] after.observers(id)
        == before.observers(id) by {
        assert forall|i: int|
            0 <= i < n && (#[trigger] before.watched@[i]).request_id@ == id implies exists|j: int|
            0 <= j < after.watched@.len() && #[trigger] after.watched@[j]
                == before.watched@[i] by {
            assert(after.watched@[i] == before.watched@[i]);
        }
        assert forall|j: int|
            0 <= j < after.watched@.len() && (#[trigger] after.watched@[j]).request_id@
                == id implies exists|i: int|
            0 <= i < before.watched@.len() && #[trigger] before.watched@[i]
                == after.watched@[j] by {
            assert(before.watched@[j] == after.watched@[j]);
        }
        lemma_same_entries(before, after, id);
    }
}

proof fn lemma_replaced<R>(
    before: Subscriptions<R>,
    after: Subscriptions<R>,
    index: int,
    request_id: Seq<char>,
)
    requires
        before.well_formed(),
        0 <= index < before.watched@.len(),
        before.watched@[index].request_id@ == request_id,
        after.watched@.len() == before.watched@.len(),
        after.watched@.drop_last() == before.watched@.update(
            index,
            before.watched@.last(),
        ).drop_last(),
        after.watched@.last().request_id@ == request_id,
        after.watched@.last().observers@.len() > 0,
    ensures
        after.well_formed(),
        after.observers(request_id) == after.watched@.last().observers@,
        forall|id: Seq<char>|
            id != request_id ==> #[trigger] after.observers(id) == before.observers(id),
{
    let n = before.watched@.len() as int;
    assert forall|j: int| 0 <= j < n - 1 implies #[trigger] after.watched@[j]
        == before.watched@[if j == index {
        n - 1
    } else {
        j
    }] by {
        assert(after.watched@.drop_last()[j] == after.watched@[j]);
    }
    assert forall|j: int| 0 <= j < n - 1 implies (#[trigger] after.watched@[j]).request_id@
        != request_id by {
        let k = if j == index {
            n - 1
        } else {
            j
        };
        if k < index {
            assert(before.watched@[k].request_id@ != before.watched@[index].request_id@);
        } else {
            assert(before.watched@[index].request_id@ != before.watched@[k].request_id@);
        }
    }
    assert(after.well_formed()) by {
        assert forall|i: int, j: int| 0 <= i < j < after.watched@.len() implies (
        #[trigger] after.watched@[i]).request_id@ != (
        #[trigger] after.watched@[j]).request_id@ by {
            if j < n - 1 {
                let a = if i == index {
                    n - 1
                } else {
                    i
                };
                let b = if j == index {
                    n - 1
                } else {
                    j
                };
                if a < b {
                    assert(before.watched@[a].request_id@ != before.watched@[b].request_id@);
                } else {
                    assert(before.watched@[b].request_id@ != before.watched@[a].request_id@);
                }
            }
        }
    }
    lemma_unique(after, n - 1);
    assert forall|id: Seq<char>| id != request_id implies #[trigger] after.observers(id)
        == before.observers(id) by {
        assert forall|i: int|
            0 <= i < n && (#[trigger] before.watched@[i]).request_id@ == id implies exists|j: int|
            0 <= j < after.watched@.len() && #[trigger] after.watched@[j]
                == before.watched@[i] by {
            let j = if i == n - 1 {
                index
            } else {
                i
            };
            assert(after.watched@[j] == before.watched@[i]);
        }
        assert forall|j: int|
            0 <= j < after.watched@.len() && (#[trigger] after.watched@[j]).request_id@
                == id implies exists|i: int|
            0 <= i < before.watched@.len() && #[trigger] before.watched@[i]
                == after.watched@[j] by {
            let k = if j == index {
                n - 1
            } else {
                j
            };
            assert(before.watched@[k] == after.watched@[j]);
        }
        lemma_same_entries(before, after, id);
    }
}

/// A caller watches on after a delivery.
pub open spec fn watches_on(delivered: bool, terminal: bool) -> bool {
    delivered && !terminal
}

/// Whether a caller keeps watching after a delivery: not once it is gone, and
/// not after the result.
pub fn keeps_watching(delivered: bool, terminal: bool) -> (keeps: bool)
    ensures
        keeps == watches_on(delivered, terminal),
{
    delivered && !terminal
}

// What the service does, told by what happened alone

/// The service does about each event what belongs to it, and nothing that
/// belongs to another. It ends in order on a shutdown, when nothing more can be
/// sent, when the scheduler is done and when a stop is answered; with an error
/// where that answer cannot be delivered or the scheduler broke down. A client
/// that cannot be reached is only logged.
pub proof fn law_events_are_answered_in_kind(events: Seq<ServeEvent>, event: ServeEvent)
    ensures
        ({
            let action = serve_action(failures_in_a_row(events), event);
            &&& action == ServeAction::SpawnHandler <==> event == ServeEvent::Received
            &&& action == ServeAction::LogMalformedFrame <==> event == ServeEvent::MalformedFrame
            &&& action is LogReceiveFailure || action is GiveUp <==> event
                == ServeEvent::ReceiveFailed
            &&& action == ServeAction::LogUndeliverable <==> event == ServeEvent::Delivery {
                stopping: false,
                end: DeliveryEnd::Failed,
            }
            &&& action == ServeAction::LogHandlerFailure <==> event == ServeEvent::HandlerFailed
            &&& action == ServeAction::LogHandlerPanic <==> event == ServeEvent::HandlerPanicked {
                cancelled: false,
            }
            &&& action == ServeAction::Stop(ServeEnd::Orderly) <==> event == ServeEvent::Shutdown
                || event == ServeEvent::OutboundClosed || event == ServeEvent::SchedulerFinished
                || (event matches ServeEvent::Delivery { end, .. } && end
                == DeliveryEnd::StopAnswered)
            &&& action == ServeAction::Stop(ServeEnd::DeliveryFailed) <==> event
                == ServeEvent::Delivery { stopping: true, end: DeliveryEnd::Failed }
            &&& action == ServeAction::Stop(ServeEnd::SchedulerFailed) <==> event
                == ServeEvent::SchedulerFailed
            &&& action == ServeAction::Stop(ServeEnd::SchedulerPanicked) <==> event
                == ServeEvent::SchedulerPanicked
        }),
{
}

/// Each receive failure is logged with its number in a row, which counts from the
/// last request; the fifth is the last.
pub proof fn law_receive_failures_are_numbered(events: Seq<ServeEvent>)
    requires
        survives(events),
    ensures
        ({
            let action = serve_action(failures_in_a_row(events), ServeEvent::ReceiveFailed);
            let after = events.push(ServeEvent::ReceiveFailed);
            &&& action matches ServeAction::LogReceiveFailure { in_a_row } ==> 1 <= in_a_row <= 4
                && last_receives_failed(after, in_a_row as int) && !last_receives_failed(
                after,
                in_a_row + 1,
            )
            &&& action matches ServeAction::GiveUp { in_a_row } ==> in_a_row == 5
                && last_receives_failed(after, 5)
            &&& action is GiveUp <==> last_receives_failed(after, 5)
        }),
{
    let after = events.push(ServeEvent::ReceiveFailed);
    assert(after.drop_last() =~= events);
    law_gives_up_after_failures_in_a_row(events, ServeEvent::ReceiveFailed);
    lemma_failures_count(events, 1);
    let failed = failures_in_a_row(events) + 1;
    lemma_failures_count(after, failed);
    lemma_failures_count(after, failed + 1);
    lemma_failures_count(after, 5);
}

/// The event can come of the action.
pub open spec fn send_fits(action: SendAction, event: SendEvent) -> bool {
    match action {
        SendAction::Encode { .. } | SendAction::EncodeFallback { .. } => event
            == SendEvent::Encoded || event == SendEvent::TooLarge || event
            == SendEvent::EncodingFailed,
        SendAction::Respond { .. } | SendAction::RespondFallback => event == SendEvent::Responded
            || event == SendEvent::Disconnected || event == SendEvent::ResponseFailed,
        _ => false,
    }
}

/// Every one of `events` came of the action before it.
pub open spec fn send_told(count: usize, events: Seq<SendEvent>) -> bool
    decreases events.len(),
{
    events.len() == 0 || {
        &&& send_told(count, events.drop_last())
        &&& send_fits(send_run(count, events.drop_last()).1, events.last())
    }
}

spec fn send_waits(count: usize, phase: SendPhase, action: SendAction) -> bool {
    match phase {
        SendPhase::Encoding { index } => action == (SendAction::Encode { index }) && index < count,
        SendPhase::Responding { index } => action == (SendAction::Respond { index }) && index
            < count,
        SendPhase::EncodingFallback => action is EncodeFallback,
        SendPhase::RespondingFallback => action is RespondFallback,
        SendPhase::Done => action is Complete || action is Abandon || action is FailEncoding
            || action is FailResponse,
    }
}

proof fn lemma_send_told(count: usize, events: Seq<SendEvent>)
    requires
        send_told(count, events),
    ensures
        send_waits(count, send_run(count, events).0, send_run(count, events).1),
    decreases events.len(),
{
    if events.len() > 0 {
        lemma_send_told(count, events.drop_last());
    }
}

/// Each message is encoded and sent in turn. One that is too large is replaced by
/// a failure, and with it the delivery is over. A client that is gone is
/// abandoned; that a message cannot be encoded, or that sending fails, is an
/// error. Only a delivery that sent everything is complete.
pub proof fn law_deliveries_go_on_message_by_message(count: usize, events: Seq<SendEvent>)
    requires
        send_told(count, events),
    ensures
        events.len() == 0 ==> send_run(count, events).1 == if count == 0 {
            SendAction::Complete
        } else {
            SendAction::Encode { index: 0 }
        },
        events.len() > 0 ==> {
            let asked = send_run(count, events.drop_last()).1;
            let next = send_run(count, events).1;
            let last = events.last();
            &&& next is Respond <==> asked is Encode && last == SendEvent::Encoded
            &&& next matches SendAction::Respond { index } ==> asked == (SendAction::Encode {
                index,
            })
            &&& next is EncodeFallback <==> asked is Encode && last == SendEvent::TooLarge
            &&& next matches SendAction::EncodeFallback { index } ==> asked
                == (SendAction::Encode { index })
            &&& next == SendAction::RespondFallback <==> asked is EncodeFallback && last
                == SendEvent::Encoded
            &&& next is Encode || next == SendAction::Complete <==> asked is Respond && last
                == SendEvent::Responded
            &&& asked matches SendAction::Respond { index } ==> last == SendEvent::Responded
                ==> next == if index + 1 < count {
                SendAction::Encode { index: (index + 1) as usize }
            } else {
                SendAction::Complete
            }
            &&& next == SendAction::Abandon <==> last == SendEvent::Disconnected || (
            asked is EncodeFallback && last != SendEvent::Encoded) || (asked is RespondFallback
                && last == SendEvent::Responded)
            &&& next == SendAction::FailEncoding <==> asked is Encode && last
                == SendEvent::EncodingFailed
            &&& next == SendAction::FailResponse <==> last == SendEvent::ResponseFailed
            &&& next != SendAction::Ignore
        },
{
    lemma_send_told(count, events);
    if events.len() > 0 {
        lemma_send_told(count, events.drop_last());
    }
}

/// What did not come of what was asked is passed over and changes nothing, and
/// once a delivery is over it is not taken up again.
pub proof fn law_stray_deliveries_are_passed_over(
    count: usize,
    events: Seq<SendEvent>,
    event: SendEvent,
)
    requires
        send_told(count, events),
        !send_fits(send_run(count, events).1, event),
    ensures
        send_run(count, events.push(event)).1 == SendAction::Ignore,
        send_run(count, events.push(event)).0 == send_run(count, events).0,
{
    lemma_send_told(count, events);
    assert(events.push(event).drop_last() =~= events);
}

/// A caller watches until it has the result or is gone.
pub proof fn law_callers_watch_until_the_result(delivered: bool, terminal: bool)
    ensures
        terminal ==> !watches_on(delivered, terminal),
        !delivered ==> !watches_on(delivered, terminal),
        watches_on(true, false),
{
}

} // verus!

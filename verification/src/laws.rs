//! What holds of a connection and of a subscription as a whole.

use crate::channel::{dropped, kept, offered_to_all, responded, EventSender, ReplySender};
use crate::client::{
    advances, answers, is_join_request, join_granted, refusal_reason, JoinPayload,
    SubscribeAction, SubscribeError, SubscribeEvent, SubscribePhase,
};
use crate::connection::{
    carries, fits, lemma_heartbeat_sent_valid, lemma_next_not_issued, lemma_request_sent_valid,
    poll_step, receives, refused, request_text, sends, sync_begins, sync_ends, takes_in,
    takes_subscription, Asked, ConnectionInternalRequest, ConnectionInternalSubscription,
    ConnectionState, ConnectionView, Incoming, Notice, PollStep, Polled, Progress, ReceiveStep,
    RequestSendError, SendAction, SendEvent, SendStep, SinkPoll, SubscriptionStep, Task,
    WebsocketError,
};
use crate::json::{escaped, json_text, quoted};
use crate::message::{message_text, MessageIn};
use crate::reference::{decimal, digit, issued, lemma_decimal_injective};
use crate::subscriber::{attempted, delivered, views, Delivery, SubscriberView};
use crate::table::{subscribers, TopicEvent};
use vstd::prelude::*;

verus! {

/// One step of one of the tasks of a connection.
pub enum Transition {
    Subscription(Polled<ConnectionInternalSubscription>, SubscriptionStep),
    Send(SendEvent, SendStep),
    Receive(Incoming, ReceiveStep),
}

/// `t` leads from `pre` to `post`. The other tasks run while the sending task is at
/// rest.
pub open spec fn happens(pre: ConnectionView, t: Transition, post: ConnectionView) -> bool {
    match t {
        Transition::Subscription(polled, step) => pre.asked is Nothing && takes_subscription(
            pre,
            polled,
            post,
            step,
        ),
        Transition::Send(event, step) => fits(pre, event) && sends(pre, event, post, step),
        Transition::Receive(incoming, step) => pre.asked is Nothing && takes_in(
            pre,
            incoming,
            post,
            step,
        ),
    }
}

/// `ts` leads through `states`, one after the other.
pub open spec fn is_run(states: Seq<ConnectionView>, ts: Seq<Transition>) -> bool {
    &&& states.len() == ts.len() + 1
    &&& forall|i: int|
        0 <= i < ts.len() ==> happens(states[i], #[trigger] ts[i], states[i + 1])
}

/// `t` takes in a message with the given reference.
pub open spec fn takes_reference(t: Transition, reference: Seq<char>) -> bool {
    t matches Transition::Receive(Incoming::Text(Ok(msg)), _) && (msg.reference matches Some(r)
        && r@ == reference)
}

/// `t` offers an event to a subscription of `key` with the channel `tx`, and the
/// channel answers that it is closed.
pub open spec fn finds_closed(
    pre: ConnectionView,
    t: Transition,
    key: TopicEvent,
    tx: EventSender,
) -> bool {
    &&& is_event(t, key)
    &&& t matches Transition::Receive(_, step)
    &&& attempted(tx, payload_of(t), Delivery::Closed)
    &&& step.notice matches Notice::Event(outcomes, _)
    &&& exists|i: int|
        0 <= i < subscribers(pre.subscriptions, key).len() && (#[trigger] subscribers(
            pre.subscriptions,
            key,
        )[i]).tx == tx && outcomes@[i] == Delivery::Closed
}

/// `t` takes in an event of `key`.
pub open spec fn is_event(t: Transition, key: TopicEvent) -> bool {
    t matches Transition::Receive(Incoming::Text(Ok(msg)), _) && msg.reference is None && (
        msg.topic@,
        msg.event@,
    ) == key
}

/// The payload of the message that `t` takes in.
pub open spec fn payload_of(t: Transition) -> serde_json::Value {
    t->Receive_0->Text_0->Ok_0.payload
}

/// The payloads of the events of `key` that come in during `ts`, in order.
pub open spec fn event_payloads(ts: Seq<Transition>, key: TopicEvent) -> Seq<serde_json::Value>
    decreases ts.len(),
{
    if ts.len() == 0 {
        Seq::empty()
    } else if is_event(ts.last(), key) {
        event_payloads(ts.drop_last(), key).push(payload_of(ts.last()))
    } else {
        event_payloads(ts.drop_last(), key)
    }
}

/// `t` takes in a subscription to `key` with the channel `tx`.
pub open spec fn subscribes(t: Transition, key: TopicEvent, tx: EventSender) -> bool {
    t matches Transition::Subscription(Polled::Item((topic, event, sender)), _) && (
        topic@,
        event@,
    ) == key && sender == tx
}

/// `t` hands a message to the socket.
pub open spec fn starts(t: Transition) -> bool {
    t matches Transition::Send(_, step) && (step.action is StartHeartbeat
        || step.action is StartRequest)
}

/// `t` asks the timer or the queue of requests.
pub open spec fn asks_timer_or_queue(t: Transition) -> bool {
    t matches Transition::Send(_, step) && (step.action is PollTimer || step.action is PollQueue)
}

/// `t` learns that the socket took the message that was handed to it.
pub open spec fn accepted(t: Transition) -> bool {
    t matches Transition::Send(event, _) && match event {
        SendEvent::HeartbeatStarted(started) => started is Ok,
        SendEvent::RequestStarted(_, started) => started is Ok,
        _ => false,
    }
}

/// The text that was handed to the socket and is not answered yet.
pub open spec fn text_on_its_way(asked: Asked) -> Seq<char> {
    match asked {
        Asked::Message(text) => text,
        Asked::Request(text, _) => text,
        _ => Seq::empty(),
    }
}

/// The texts that the socket took during `ts`, in order.
pub open spec fn accepted_texts(states: Seq<ConnectionView>, ts: Seq<Transition>) -> Seq<Seq<char>>
    decreases ts.len(),
{
    if ts.len() == 0 {
        Seq::empty()
    } else {
        let before = accepted_texts(states.drop_last(), ts.drop_last());
        if accepted(ts.last()) {
            before.push(text_on_its_way(states[ts.len() - 1].asked))
        } else {
            before
        }
    }
}

/// `t` learns that the socket has room for one message.
pub open spec fn finds_room(t: Transition) -> bool {
    t matches Transition::Send(event, _) && event == SendEvent::Sink(SinkPoll::Ready)
}

/// Where the task stands after `t`, unless it is still under way.
pub open spec fn progress_of(t: Transition) -> Option<Progress> {
    match t {
        Transition::Subscription(_, step) => Some(step.progress),
        Transition::Send(_, step) => match step.action {
            SendAction::Return(progress) => Some(progress),
            _ => None,
        },
        Transition::Receive(_, step) => Some(step.progress),
    }
}

pub open spec fn task_of(t: Transition) -> Task {
    match t {
        Transition::Subscription(_, _) => Task::Subscriptions,
        Transition::Send(_, _) => Task::Send,
        Transition::Receive(_, _) => Task::Receive,
    }
}

/// What comes after the first `i` steps of a turn: a task that is under way goes
/// on, otherwise the connection says.
pub open spec fn next_in_turn(ts: Seq<Transition>, i: int) -> PollStep {
    if i == 0 {
        poll_step(None)
    } else {
        match progress_of(ts[i - 1]) {
            Some(progress) => poll_step(Some((task_of(ts[i - 1]), progress))),
            None => PollStep::Run(task_of(ts[i - 1])),
        }
    }
}

/// `ts` is one turn of the connection: from rest, each task in its place, until the
/// connection returns.
pub open spec fn is_turn(states: Seq<ConnectionView>, ts: Seq<Transition>) -> bool {
    &&& is_run(states, ts)
    &&& states.first().asked is Nothing
    &&& forall|i: int|
        0 <= i < ts.len() ==> #[trigger] next_in_turn(ts, i) == PollStep::Run(task_of(ts[i]))
    &&& next_in_turn(ts, ts.len() as int) is Return
}

/// `ts` is one turn of the sending task: from rest until it returns, and no longer.
pub open spec fn is_send_turn(states: Seq<ConnectionView>, ts: Seq<Transition>) -> bool {
    &&& is_run(states, ts)
    &&& ts.len() > 0
    &&& states.first().asked is Nothing
    &&& forall|i: int| 0 <= i < ts.len() ==> (#[trigger] ts[i]) is Send
    &&& forall|i: int|
        0 <= i < ts.len() - 1 ==> progress_of(#[trigger] ts[i]) is None
    &&& progress_of(ts.last()) is Some
}

proof fn lemma_run_drop_last(states: Seq<ConnectionView>, ts: Seq<Transition>)
    requires
        is_run(states, ts),
        ts.len() > 0,
    ensures
        is_run(states.drop_last(), ts.drop_last()),
        states.drop_last().first() == states.first(),
        states.drop_last().last() == states[ts.len() - 1],
        states.last() == states[ts.len() as int],
        happens(states[ts.len() - 1], ts.last(), states.last()),
{
    let before = states.drop_last();
    let earlier = ts.drop_last();
    assert forall|i: int| 0 <= i < earlier.len() implies happens(
        before[i],
        #[trigger] earlier[i],
        before[i + 1],
    ) by {
        assert(earlier[i] == ts[i]);
    }
    assert(happens(states[ts.len() - 1], ts[ts.len() - 1], states[ts.len() as int]));
}

/// Different messages carry different references.
pub proof fn law_references_are_distinct(m: nat, n: nat)
    requires
        m != n,
    ensures
        decimal(m) != decimal(n),
{
    if decimal(m) == decimal(n) {
        lemma_decimal_injective(m, n);
    }
}

proof fn lemma_decimal_unescaped(n: nat)
    ensures
        escaped(decimal(n)) == decimal(n),
    decreases n,
{
    let d = decimal(n);
    if n < 10 {
        assert(d.drop_last() =~= Seq::<char>::empty());
        assert(d.last() == digit(n));
        assert(escaped(d.drop_last()) =~= Seq::<char>::empty());
        assert(escaped(d) =~= d);
    } else {
        lemma_decimal_unescaped(n / 10);
        assert(d.drop_last() =~= decimal(n / 10));
        assert(d.last() == digit(n % 10));
        assert(escaped(d) =~= d);
    }
}

/// A reference stands in the text of a message as it is, in quotes.
pub proof fn law_references_stand_unescaped(n: nat)
    ensures
        quoted(decimal(n)) == seq!['"'] + decimal(n) + seq!['"'],
{
    lemma_decimal_unescaped(n);
}

/// No step breaks the rule that everything that waits does so under a reference
/// that was handed out, and the heartbeat under one of its own.
pub proof fn law_steps_keep_connections_valid(
    pre: ConnectionView,
    t: Transition,
    post: ConnectionView,
)
    requires
        pre.valid(),
        happens(pre, t, post),
    ensures
        post.valid(),
        post.reference >= pre.reference,
{
    match t {
        Transition::Send(SendEvent::HeartbeatStarted(Ok(_)), _) => {
            lemma_heartbeat_sent_valid(pre);
        },
        Transition::Send(SendEvent::RequestStarted(tx, Ok(_)), _) => {
            lemma_request_sent_valid(pre, tx);
        },
        Transition::Send(SendEvent::Timer(true), step) => {
            let text = step.action->StartHeartbeat_0@;
            assert(text == message_text("phoenix"@, "heartbeat"@, "null"@, decimal(pre.reference)));
        },
        Transition::Send(SendEvent::Queue(Polled::Item((req, _))), step) => {
            assert(request_text(req, pre.reference) == message_text(
                req.topic@,
                req.event@,
                json_text(req.payload),
                decimal(pre.reference),
            ));
        },
        _ => {
            assert forall|r: Seq<char>| #[trigger] post.pending.contains_key(r) implies issued(
                r,
                post.reference,
            ) by {
                assert(pre.pending.contains_key(r));
            }
            vstd::set_lib::lemma_set_subset_finite(pre.pending.dom(), post.pending.dom());
        },
    }
}

/// On the way from one state to another, connections stay valid and the numbers
/// of messages only grow.
pub proof fn law_runs_keep_connections_valid(states: Seq<ConnectionView>, ts: Seq<Transition>)
    requires
        is_run(states, ts),
        states.first().valid(),
    ensures
        states.last().valid(),
        states.last().reference >= states.first().reference,
    decreases ts.len(),
{
    if ts.len() > 0 {
        let before = states.drop_last();
        lemma_run_drop_last(states, ts);
        law_runs_keep_connections_valid(before, ts.drop_last());
        law_steps_keep_connections_valid(before.last(), ts.last(), states.last());
    }
}

/// Whatever has happened to a connection since it was made, it is valid.
pub proof fn law_connections_are_valid(states: Seq<ConnectionView>, ts: Seq<Transition>)
    requires
        is_run(states, ts),
        states.first() == ConnectionView::initial(),
    ensures
        states.last().valid(),
{
    law_runs_keep_connections_valid(states, ts);
}

/// A request that the socket takes waits for its reply under the reference that
/// its text carries, and takes that place from nobody.
pub proof fn law_requests_wait_under_their_reference(
    pre: ConnectionView,
    req: ConnectionInternalRequest,
    response_tx: ReplySender,
    mid: ConnectionView,
    begun: SendStep,
    post: ConnectionView,
    done: SendStep,
)
    requires
        pre.valid(),
        sends(pre, SendEvent::Queue(Polled::Item((req, response_tx))), mid, begun),
        sends(mid, SendEvent::RequestStarted(response_tx, Ok(())), post, done),
    ensures
        begun.action matches SendAction::StartRequest(text, tx) && text@ == request_text(
            req,
            pre.reference,
        ) && tx == response_tx,
        post.pending == pre.pending.insert(decimal(pre.reference), response_tx),
        !pre.pending.contains_key(decimal(pre.reference)),
        pre.heartbeat != Some(decimal(pre.reference)),
{
    lemma_next_not_issued(pre.reference);
}

/// A request waits through everything but a message with its reference.
pub proof fn law_requests_wait_until_answered(
    states: Seq<ConnectionView>,
    ts: Seq<Transition>,
    reference: Seq<char>,
)
    requires
        is_run(states, ts),
        states.first().valid(),
        states.first().pending.contains_key(reference),
        forall|i: int| 0 <= i < ts.len() ==> !takes_reference(#[trigger] ts[i], reference),
    ensures
        states.last().pending.contains_key(reference),
        states.last().pending[reference] == states.first().pending[reference],
    decreases ts.len(),
{
    if ts.len() > 0 {
        let before = states.drop_last();
        lemma_run_drop_last(states, ts);
        assert forall|i: int| 0 <= i < ts.drop_last().len() implies !takes_reference(
            #[trigger] ts.drop_last()[i],
            reference,
        ) by {
            assert(ts.drop_last()[i] == ts[i]);
        }
        assert(!takes_reference(ts[ts.len() - 1], reference));
        law_requests_wait_until_answered(before, ts.drop_last(), reference);
        law_runs_keep_connections_valid(before, ts.drop_last());
        lemma_next_not_issued(before.last().reference);
    }
}

/// The reply to a waiting request goes to that request with its payload, and to
/// nothing else; it comes back unchanged where nobody waits for it. The request waits
/// no longer.
pub proof fn law_replies_reach_their_request(
    pre: ConnectionView,
    msg: MessageIn,
    post: ConnectionView,
    notice: Notice,
)
    requires
        pre.valid(),
        receives(pre, msg, post, notice),
        msg.reference is Some,
        pre.pending.contains_key(msg.reference->0@),
    ensures
        notice matches Notice::Reply(outcome) && responded(
            pre.pending[msg.reference->0@],
            Ok(msg.payload),
            outcome,
        ),
        notice matches Notice::Reply(Err(back)) ==> back == Ok::<_, RequestSendError>(
            msg.payload,
        ),
        post == (ConnectionView { pending: pre.pending.remove(msg.reference->0@), ..pre }),
{
}

/// Whatever happens after a request is sent, the first message with its reference
/// is its reply: its payload is handed to the request.
pub proof fn law_requests_get_their_reply(
    pre: ConnectionView,
    response_tx: ReplySender,
    step: SendStep,
    states: Seq<ConnectionView>,
    ts: Seq<Transition>,
    msg: MessageIn,
    post: ConnectionView,
    notice: Notice,
)
    requires
        pre.valid(),
        is_run(states, ts),
        sends(pre, SendEvent::RequestStarted(response_tx, Ok(())), states.first(), step),
        forall|i: int|
            0 <= i < ts.len() ==> !takes_reference(#[trigger] ts[i], decimal(pre.reference)),
        msg.reference is Some,
        msg.reference->0@ == decimal(pre.reference),
        receives(states.last(), msg, post, notice),
    ensures
        notice matches Notice::Reply(outcome) && responded(response_tx, Ok(msg.payload), outcome),
        !post.pending.contains_key(decimal(pre.reference)),
{
    lemma_request_sent_valid(pre, response_tx);
    law_requests_wait_until_answered(states, ts, decimal(pre.reference));
    law_runs_keep_connections_valid(states, ts);
    law_replies_reach_their_request(states.last(), msg, post, notice);
}

/// What does not wait under a reference that was handed out never does again: a
/// reply is delivered once.
pub proof fn law_replies_are_delivered_once(
    states: Seq<ConnectionView>,
    ts: Seq<Transition>,
    reference: Seq<char>,
)
    requires
        is_run(states, ts),
        states.first().valid(),
        issued(reference, states.first().reference),
        !states.first().pending.contains_key(reference),
    ensures
        !states.last().pending.contains_key(reference),
    decreases ts.len(),
{
    if ts.len() > 0 {
        let before = states.drop_last();
        lemma_run_drop_last(states, ts);
        law_replies_are_delivered_once(before, ts.drop_last(), reference);
        law_runs_keep_connections_valid(before, ts.drop_last());
        let next = before.last().reference;
        lemma_next_not_issued(next);
        let n = choose|n: nat|
            n < states.first().reference && #[trigger] decimal(n) == reference;
        assert(n < next && decimal(n) == reference);
        assert(issued(reference, next));
    }
}

/// A request that the socket refuses is answered so, waits for nothing, and
/// leaves its number to the next message.
pub proof fn law_refused_requests_are_answered(
    pre: ConnectionView,
    response_tx: ReplySender,
    error: WebsocketError,
    post: ConnectionView,
    step: SendStep,
)
    requires
        sends(pre, SendEvent::RequestStarted(response_tx, Err(error)), post, step),
    ensures
        refused(step, response_tx, Err(RequestSendError::Send(error))),
        post.pending == pre.pending,
        post.reference == pre.reference,
        post.state == ConnectionState::Unknown,
        step.action == SendAction::Return(Progress::Pending),
{
}

/// The reply to the heartbeat is for the connection alone: it ends the wait for
/// that reply and changes nothing else, and a second one is for nobody.
pub proof fn law_heartbeat_replies_stay_inside(
    pre: ConnectionView,
    sent: ConnectionView,
    step: SendStep,
    msg: MessageIn,
    post: ConnectionView,
    notice: Notice,
    again: ConnectionView,
    second: Notice,
)
    requires
        pre.valid(),
        sends(pre, SendEvent::HeartbeatStarted(Ok(())), sent, step),
        msg.reference is Some,
        msg.reference->0@ == decimal(pre.reference),
        receives(sent, msg, post, notice),
        receives(post, msg, again, second),
    ensures
        notice == Notice::HeartbeatReply,
        post == (ConnectionView { heartbeat: None, ..sent }),
        post.pending == pre.pending,
        post.subscriptions == pre.subscriptions,
        second == Notice::NotPending,
        again == post,
{
    lemma_next_not_issued(pre.reference);
}

/// A reference that was handed out and is not that of the awaited heartbeat never
/// becomes so again.
pub proof fn law_heartbeats_are_awaited_once(
    states: Seq<ConnectionView>,
    ts: Seq<Transition>,
    reference: Seq<char>,
)
    requires
        is_run(states, ts),
        states.first().valid(),
        issued(reference, states.first().reference),
        states.first().heartbeat != Some(reference),
    ensures
        states.last().heartbeat != Some(reference),
    decreases ts.len(),
{
    if ts.len() > 0 {
        let before = states.drop_last();
        lemma_run_drop_last(states, ts);
        law_heartbeats_are_awaited_once(before, ts.drop_last(), reference);
        law_runs_keep_connections_valid(before, ts.drop_last());
        let next = before.last().reference;
        lemma_next_not_issued(next);
        let n = choose|n: nat|
            n < states.first().reference && #[trigger] decimal(n) == reference;
        assert(n < next && decimal(n) == reference);
        assert(issued(reference, next));
    }
}

/// `t` learns that the socket took a heartbeat.
pub open spec fn sends_heartbeat(t: Transition) -> bool {
    t matches Transition::Send(SendEvent::HeartbeatStarted(started), _) && started is Ok
}

/// Of two heartbeats only the later one is waited for.
pub proof fn law_later_heartbeats_take_over(
    pre: ConnectionView,
    step: SendStep,
    states: Seq<ConnectionView>,
    ts: Seq<Transition>,
    i: int,
)
    requires
        pre.valid(),
        sends(pre, SendEvent::HeartbeatStarted(Ok(())), states.first(), step),
        is_run(states, ts),
        0 <= i < ts.len(),
        sends_heartbeat(ts[i]),
    ensures
        states.last().heartbeat != Some(decimal(pre.reference)),
{
    lemma_heartbeat_sent_valid(pre);
    let before = states.take(i + 1);
    let earlier = ts.take(i);
    assert forall|k: int| 0 <= k < earlier.len() implies happens(
        before[k],
        #[trigger] earlier[k],
        before[k + 1],
    ) by {
        assert(earlier[k] == ts[k]);
    }
    law_runs_keep_connections_valid(before, earlier);
    assert(happens(states[i], ts[i], states[i + 1]));
    law_steps_keep_connections_valid(states[i], ts[i], states[i + 1]);
    law_references_are_distinct(pre.reference, states[i].reference);
    let after = states.skip(i + 1);
    let later = ts.skip(i + 1);
    assert forall|k: int| 0 <= k < later.len() implies happens(
        after[k],
        #[trigger] later[k],
        after[k + 1],
    ) by {
        assert(later[k] == ts[k + i + 1]);
    }
    assert(pre.reference < after.first().reference && decimal(pre.reference) == decimal(
        pre.reference,
    ));
    assert(issued(decimal(pre.reference), after.first().reference));
    law_heartbeats_are_awaited_once(after, later, decimal(pre.reference));
}

/// Whatever happens after a heartbeat is sent, once it is not waited for any more a
/// reply to it changes nothing.
pub proof fn law_late_heartbeat_replies_are_ignored(
    pre: ConnectionView,
    step: SendStep,
    states: Seq<ConnectionView>,
    ts: Seq<Transition>,
    msg: MessageIn,
    post: ConnectionView,
    notice: Notice,
)
    requires
        pre.valid(),
        sends(pre, SendEvent::HeartbeatStarted(Ok(())), states.first(), step),
        is_run(states, ts),
        states.last().heartbeat != Some(decimal(pre.reference)),
        msg.reference is Some,
        msg.reference->0@ == decimal(pre.reference),
        receives(states.last(), msg, post, notice),
    ensures
        notice == Notice::NotPending,
        post == states.last(),
{
    lemma_heartbeat_sent_valid(pre);
    lemma_next_not_issued(pre.reference);
    law_replies_are_delivered_once(states, ts, decimal(pre.reference));
}

/// A message with a reference is never an event: no subscription is offered anything.
pub proof fn law_replies_are_no_events(
    pre: ConnectionView,
    msg: MessageIn,
    post: ConnectionView,
    notice: Notice,
)
    requires
        receives(pre, msg, post, notice),
        msg.reference is Some,
    ensures
        post.subscriptions == pre.subscriptions,
        !(notice is Event),
{
}

/// An event answers nothing, and is offered only to the subscriptions of its topic
/// and name.
pub proof fn law_events_answer_nothing(
    pre: ConnectionView,
    msg: MessageIn,
    post: ConnectionView,
    notice: Notice,
    key: TopicEvent,
)
    requires
        receives(pre, msg, post, notice),
        msg.reference is None,
        key != (msg.topic@, msg.event@),
    ensures
        post.pending == pre.pending,
        post.heartbeat == pre.heartbeat,
        post.reference == pre.reference,
        post.state == pre.state,
        subscribers(post.subscriptions, key) == subscribers(pre.subscriptions, key),
{
}

/// Nothing but an event of its topic and name is offered to a subscription, and
/// nothing but a subscription adds one.
pub proof fn law_only_events_reach_subscriptions(
    pre: ConnectionView,
    t: Transition,
    post: ConnectionView,
    key: TopicEvent,
)
    requires
        happens(pre, t, post),
        !is_event(t, key),
        !(t matches Transition::Subscription(Polled::Item((topic, event, _)), _) && (
            topic@,
            event@,
        ) == key),
    ensures
        subscribers(post.subscriptions, key) == subscribers(pre.subscriptions, key),
{
}

/// Every subscription of its topic and name is offered the payload of an event, once.
/// It is kept unless its channel answers that it is closed, and taken out then.
pub proof fn law_events_reach_every_subscription(
    pre: ConnectionView,
    msg: MessageIn,
    post: ConnectionView,
    notice: Notice,
    i: int,
)
    requires
        receives(pre, msg, post, notice),
        msg.reference is None,
        0 <= i < subscribers(pre.subscriptions, (msg.topic@, msg.event@)).len(),
    ensures
        notice matches Notice::Event(outcomes, gone) && {
            let key = (msg.topic@, msg.event@);
            let subscriber = subscribers(pre.subscriptions, key)[i];
            let after = subscriber.offered(msg.payload, outcomes@[i]);
            &&& outcomes@.len() == subscribers(pre.subscriptions, key).len()
            &&& attempted(subscriber.tx, msg.payload, outcomes@[i])
            &&& outcomes@[i] != Delivery::Closed ==> subscribers(
                post.subscriptions,
                key,
            ).contains(after)
            &&& outcomes@[i] == Delivery::Closed ==> views(gone@).contains(after)
        },
{
    let outcomes = notice->Event_0@;
    let list = subscribers(pre.subscriptions, (msg.topic@, msg.event@));
    let after = offered_to_all(list, msg.payload, outcomes);
    assert(after[i] == list[i].offered(msg.payload, outcomes[i]));
    if outcomes[i] != Delivery::Closed {
        lemma_kept_at(after, outcomes, i);
    } else {
        lemma_dropped_at(after, outcomes, i);
    }
}

/// A subscription whose channel does not answer that it is closed is kept, also where
/// its channel is full.
pub proof fn law_only_closed_subscriptions_are_removed(
    pre: ConnectionView,
    msg: MessageIn,
    post: ConnectionView,
    notice: Notice,
    i: int,
)
    requires
        receives(pre, msg, post, notice),
        msg.reference is None,
        0 <= i < subscribers(pre.subscriptions, (msg.topic@, msg.event@)).len(),
        !attempted(
            subscribers(pre.subscriptions, (msg.topic@, msg.event@))[i].tx,
            msg.payload,
            Delivery::Closed,
        ),
    ensures
        ({
            let key = (msg.topic@, msg.event@);
            let subscriber = subscribers(pre.subscriptions, key)[i];
            exists|outcome: Delivery|
                #![trigger attempted(subscriber.tx, msg.payload, outcome)]
                attempted(subscriber.tx, msg.payload, outcome) && subscribers(
                    post.subscriptions,
                    key,
                ).contains(subscriber.offered(msg.payload, outcome))
        }),
{
    law_events_reach_every_subscription(pre, msg, post, notice, i);
}

/// A channel gets the payload of an offer behind what it got before where the offer
/// is delivered, and nothing where it is full or closed.
pub proof fn law_channels_get_what_is_delivered(
    subscriber: SubscriberView,
    payload: serde_json::Value,
    outcome: Delivery,
)
    ensures
        delivered(subscriber.offered(payload, outcome).log) == (if outcome == Delivery::Delivered {
            delivered(subscriber.log).push(payload)
        } else {
            delivered(subscriber.log)
        }),
{
    assert(subscriber.offered(payload, outcome).log.drop_last() =~= subscriber.log);
}

proof fn lemma_kept_at<S>(senders: Seq<S>, outcomes: Seq<Delivery>, i: int)
    requires
        senders.len() == outcomes.len(),
        0 <= i < senders.len(),
        outcomes[i] != Delivery::Closed,
    ensures
        kept(senders, outcomes).contains(senders[i]),
    decreases senders.len(),
{
    let before = kept(senders.drop_last(), outcomes.drop_last());
    if i == senders.len() - 1 {
        assert(kept(senders, outcomes)[before.len() as int] == senders[i]);
    } else {
        lemma_kept_at(senders.drop_last(), outcomes.drop_last(), i);
        let j = choose|j: int| 0 <= j < before.len() && before[j] == senders[i];
        assert(kept(senders, outcomes)[j] == senders[i]);
    }
}

proof fn lemma_dropped_at<S>(senders: Seq<S>, outcomes: Seq<Delivery>, i: int)
    requires
        senders.len() == outcomes.len(),
        0 <= i < senders.len(),
        outcomes[i] == Delivery::Closed,
    ensures
        dropped(senders, outcomes).contains(senders[i]),
    decreases senders.len(),
{
    let before = dropped(senders.drop_last(), outcomes.drop_last());
    if i == senders.len() - 1 {
        assert(dropped(senders, outcomes)[before.len() as int] == senders[i]);
    } else {
        lemma_dropped_at(senders.drop_last(), outcomes.drop_last(), i);
        let j = choose|j: int| 0 <= j < before.len() && before[j] == senders[i];
        assert(dropped(senders, outcomes)[j] == senders[i]);
    }
}

/// A subscription is kept unless it is found closed, and none is made up.
pub proof fn law_open_subscriptions_are_kept<S>(
    senders: Seq<S>,
    outcomes: Seq<Delivery>,
    sender: S,
)
    requires
        senders.len() == outcomes.len(),
    ensures
        kept(senders, outcomes).contains(sender) <==> exists|i: int|
            0 <= i < senders.len() && #[trigger] senders[i] == sender && outcomes[i]
                != Delivery::Closed,
    decreases senders.len(),
{
    if exists|i: int|
        0 <= i < senders.len() && #[trigger] senders[i] == sender && outcomes[i]
            != Delivery::Closed {
        let i = choose|i: int|
            0 <= i < senders.len() && #[trigger] senders[i] == sender && outcomes[i]
                != Delivery::Closed;
        lemma_kept_at(senders, outcomes, i);
    }
    if senders.len() > 0 && kept(senders, outcomes).contains(sender) {
        let before = kept(senders.drop_last(), outcomes.drop_last());
        law_open_subscriptions_are_kept(senders.drop_last(), outcomes.drop_last(), sender);
        if before.contains(sender) {
            let i = choose|i: int|
                0 <= i < senders.len() - 1 && #[trigger] senders.drop_last()[i] == sender
                    && outcomes.drop_last()[i] != Delivery::Closed;
            assert(senders[i] == sender);
        } else {
            assert(senders[senders.len() - 1] == sender);
        }
    }
}

/// Where no subscription is closed, all are kept in their order.
pub proof fn law_full_subscriptions_are_kept<S>(senders: Seq<S>, outcomes: Seq<Delivery>)
    requires
        senders.len() == outcomes.len(),
        forall|i: int| 0 <= i < outcomes.len() ==> #[trigger] outcomes[i] != Delivery::Closed,
    ensures
        kept(senders, outcomes) == senders,
    decreases senders.len(),
{
    if senders.len() > 0 {
        assert forall|i: int|
            0 <= i < outcomes.drop_last().len() implies #[trigger] outcomes.drop_last()[i]
            != Delivery::Closed by {
            assert(outcomes.drop_last()[i] == outcomes[i]);
        }
        law_full_subscriptions_are_kept(senders.drop_last(), outcomes.drop_last());
        assert(outcomes[outcomes.len() - 1] != Delivery::Closed);
        assert(kept(senders, outcomes) =~= senders);
    } else {
        assert(kept(senders, outcomes) =~= senders);
    }
}

/// A new subscription is the last of its topic and event and was offered nothing yet;
/// the others stay as they are.
pub proof fn law_subscriptions_are_added(
    pre: ConnectionView,
    topic: String,
    event: String,
    sender: EventSender,
    post: ConnectionView,
    step: SubscriptionStep,
    other: TopicEvent,
)
    requires
        takes_subscription(pre, Polled::Item((topic, event, sender)), post, step),
        other != (topic@, event@),
    ensures
        subscribers(post.subscriptions, (topic@, event@)) == subscribers(
            pre.subscriptions,
            (topic@, event@),
        ).push(SubscriberView::fresh(sender)),
        subscribers(post.subscriptions, other) == subscribers(pre.subscriptions, other),
        post.pending == pre.pending,
        post.heartbeat == pre.heartbeat,
        post.reference == pre.reference,
        post.state == pre.state,
{
}

/// A subscription lasts until an event finds it closed, and is offered exactly the
/// payloads of the events of its topic and name, in order.
pub proof fn law_subscriptions_last_until_closed(
    states: Seq<ConnectionView>,
    ts: Seq<Transition>,
    key: TopicEvent,
    subscriber: SubscriberView,
)
    requires
        is_run(states, ts),
        subscribers(states.first().subscriptions, key).contains(subscriber),
        forall|i: int|
            0 <= i < ts.len() ==> !finds_closed(states[i], #[trigger] ts[i], key, subscriber.tx),
    ensures
        exists|s: SubscriberView| #[trigger]
            subscribers(states.last().subscriptions, key).contains(s) && s.tx == subscriber.tx
                && s.payloads() == subscriber.payloads() + event_payloads(ts, key),
    decreases ts.len(),
{
    if ts.len() == 0 {
        assert(subscriber.payloads() =~= subscriber.payloads() + event_payloads(ts, key));
    } else {
        let before = states.drop_last();
        lemma_run_drop_last(states, ts);
        assert forall|i: int| 0 <= i < ts.drop_last().len() implies !finds_closed(
            before[i],
            #[trigger] ts.drop_last()[i],
            key,
            subscriber.tx,
        ) by {
            assert(!finds_closed(states[i], ts[i], key, subscriber.tx));
        }
        law_subscriptions_last_until_closed(before, ts.drop_last(), key, subscriber);
        let pre = before.last();
        let post = states.last();
        let t = ts.last();
        let list = subscribers(pre.subscriptions, key);
        let now = choose|s: SubscriberView| #[trigger]
            list.contains(s) && s.tx == subscriber.tx && s.payloads() == subscriber.payloads()
                + event_payloads(ts.drop_last(), key);
        let at = choose|i: int| 0 <= i < list.len() && list[i] == now;
        if is_event(t, key) {
            assert(!finds_closed(states[ts.len() - 1], ts[ts.len() - 1], key, subscriber.tx));
            let msg = t->Receive_0->Text_0->Ok_0;
            let notice = t->Receive_1.notice;
            let outcomes = notice->Event_0@;
            law_events_reach_every_subscription(pre, msg, post, notice, at);
            assert(list[at].tx == subscriber.tx && outcomes[at] != Delivery::Closed);
            let next = now.offered(msg.payload, outcomes[at]);
            assert(next.payloads() =~= now.payloads().push(msg.payload));
            assert(next.payloads() =~= subscriber.payloads() + event_payloads(ts, key));
            assert(subscribers(post.subscriptions, key).contains(next));
        } else {
            assert(subscribers(post.subscriptions, key)[at] == now);
            assert(subscribers(post.subscriptions, key).contains(now));
        }
    }
}

/// Whatever happens after a subscription is taken in, as long as it is not found
/// closed it is there and was offered exactly the payloads of the events of its topic
/// and name, in order.
pub proof fn law_subscriptions_get_their_events(
    pre: ConnectionView,
    topic: String,
    event: String,
    sender: EventSender,
    step: SubscriptionStep,
    states: Seq<ConnectionView>,
    ts: Seq<Transition>,
)
    requires
        is_run(states, ts),
        takes_subscription(pre, Polled::Item((topic, event, sender)), states.first(), step),
        forall|i: int|
            0 <= i < ts.len() ==> !finds_closed(
                states[i],
                #[trigger] ts[i],
                (topic@, event@),
                sender,
            ),
    ensures
        exists|s: SubscriberView| #[trigger]
            subscribers(states.last().subscriptions, (topic@, event@)).contains(s) && s.tx == sender
                && s.payloads() == event_payloads(ts, (topic@, event@)),
{
    let key = (topic@, event@);
    let fresh = SubscriberView::fresh(sender);
    let list = subscribers(states.first().subscriptions, key);
    assert(list[list.len() - 1] == fresh);
    law_subscriptions_last_until_closed(states, ts, key, fresh);
    let s = choose|s: SubscriberView| #[trigger]
        subscribers(states.last().subscriptions, key).contains(s) && s.tx == sender && s.payloads()
            == fresh.payloads() + event_payloads(ts, key);
    assert(s.payloads() =~= event_payloads(ts, key));
}

/// The subscriber `s` of `key`, there at the end of `ts`, came during `ts` and was
/// offered exactly the payloads of the events since.
pub open spec fn came_during(ts: Seq<Transition>, key: TopicEvent, s: SubscriberView) -> bool {
    exists|j: int|
        0 <= j < ts.len() && #[trigger] subscribes(ts[j], key, s.tx) && s.payloads()
            == event_payloads(ts.skip(j + 1), key)
}

/// The subscriber `s` of `key`, there at the end of `ts`, was in `list` before and was
/// offered exactly the payloads of the events since.
pub open spec fn was_there(
    list: Seq<SubscriberView>,
    ts: Seq<Transition>,
    key: TopicEvent,
    s: SubscriberView,
) -> bool {
    exists|o: SubscriberView| #[trigger]
        list.contains(o) && o.tx == s.tx && s.payloads() == o.payloads() + event_payloads(ts, key)
}

/// Every subscription there is was offered exactly the payloads of the events of its
/// topic and name since it came, in order, and nothing else.
pub proof fn law_subscriptions_get_nothing_else(
    states: Seq<ConnectionView>,
    ts: Seq<Transition>,
    key: TopicEvent,
    subscriber: SubscriberView,
)
    requires
        is_run(states, ts),
        subscribers(states.last().subscriptions, key).contains(subscriber),
    ensures
        came_during(ts, key, subscriber) || was_there(
            subscribers(states.first().subscriptions, key),
            ts,
            key,
            subscriber,
        ),
    decreases ts.len(),
{
    let first = subscribers(states.first().subscriptions, key);
    if ts.len() == 0 {
        assert(first.contains(subscriber));
        assert(subscriber.payloads() =~= subscriber.payloads() + event_payloads(ts, key));
    } else {
        lemma_run_drop_last(states, ts);
        let pre = states.drop_last().last();
        let t = ts.last();
        let list = subscribers(pre.subscriptions, key);
        if is_event(t, key) {
            let msg = t->Receive_0->Text_0->Ok_0;
            let outcomes = t->Receive_1.notice->Event_0@;
            let after = offered_to_all(list, msg.payload, outcomes);
            law_open_subscriptions_are_kept(after, outcomes, subscriber);
            let i = choose|i: int|
                0 <= i < after.len() && #[trigger] after[i] == subscriber && outcomes[i]
                    != Delivery::Closed;
            let old = list[i];
            assert(subscriber == old.offered(msg.payload, outcomes[i]));
            assert(list.contains(old));
            assert(subscriber.payloads() =~= old.payloads().push(msg.payload));
            law_subscriptions_get_nothing_else(states.drop_last(), ts.drop_last(), key, old);
            lemma_log_grows(first, ts, key, old, subscriber);
        } else if list.contains(subscriber) {
            law_subscriptions_get_nothing_else(states.drop_last(), ts.drop_last(), key, subscriber);
            lemma_log_grows(first, ts, key, subscriber, subscriber);
        } else {
            let sender = t->Subscription_0->Item_0.2;
            let post = subscribers(states.last().subscriptions, key);
            let i = choose|i: int| 0 <= i < post.len() && post[i] == subscriber;
            if i < list.len() {
                assert(list[i] == subscriber);
            }
            assert(subscriber == SubscriberView::fresh(sender));
            let j = ts.len() - 1;
            assert(subscribes(ts[j], key, subscriber.tx));
            assert(ts.skip(j + 1).len() == 0);
            assert(subscriber.payloads() =~= event_payloads(ts.skip(j + 1), key));
        }
    }
}

proof fn lemma_log_grows(
    first: Seq<SubscriberView>,
    ts: Seq<Transition>,
    key: TopicEvent,
    old: SubscriberView,
    new: SubscriberView,
)
    requires
        ts.len() > 0,
        old.tx == new.tx,
        new.payloads() == (if is_event(ts.last(), key) {
            old.payloads().push(payload_of(ts.last()))
        } else {
            old.payloads()
        }),
        came_during(ts.drop_last(), key, old) || was_there(first, ts.drop_last(), key, old),
    ensures
        came_during(ts, key, new) || was_there(first, ts, key, new),
{
    let earlier = ts.drop_last();
    if came_during(earlier, key, old) {
        let j = choose|j: int|
            0 <= j < earlier.len() && #[trigger] subscribes(earlier[j], key, old.tx)
                && old.payloads() == event_payloads(earlier.skip(j + 1), key);
        assert(ts.skip(j + 1).drop_last() =~= earlier.skip(j + 1));
        assert(ts.skip(j + 1).last() == ts.last());
        assert(subscribes(ts[j], key, new.tx));
        assert(new.payloads() == event_payloads(ts.skip(j + 1), key));
    } else {
        let o = choose|o: SubscriberView| #[trigger]
            first.contains(o) && o.tx == old.tx && old.payloads() == o.payloads() + event_payloads(
                earlier,
                key,
            );
        assert(new.payloads() =~= o.payloads() + event_payloads(ts, key));
    }
}

/// A message is handed to the socket only when it is ready, and after the socket
/// took one it is asked again.
pub proof fn law_one_message_for_each_readiness(
    pre: ConnectionView,
    event: SendEvent,
    post: ConnectionView,
    step: SendStep,
)
    requires
        pre.valid(),
        fits(pre, event),
        sends(pre, event, post, step),
    ensures
        step.action is StartHeartbeat || step.action is StartRequest ==> pre.state
            == ConnectionState::Ready,
        post.reference > pre.reference ==> pre.state == ConnectionState::Ready && post.state
            == ConnectionState::Unknown,
{
}

/// One turn of the sending task hands at most one message to the socket, only if the
/// socket was ready when it began, and asks the socket again before the next one.
pub proof fn law_send_turns_start_one_message(states: Seq<ConnectionView>, ts: Seq<Transition>)
    requires
        is_send_turn(states, ts),
        states.first().valid(),
    ensures
        ts.len() <= 4,
        forall|i: int, j: int|
            0 <= i < ts.len() && 0 <= j < ts.len() && #[trigger] starts(ts[i]) && #[trigger] starts(
                ts[j],
            ) ==> i == j,
        forall|i: int|
            0 <= i < ts.len() && #[trigger] starts(ts[i]) ==> {
                &&& states.first().state == ConnectionState::Ready
                &&& progress_of(ts.last()) == Some(Progress::Pending) ==> states.last().state
                    == ConnectionState::Unknown
            },
        states.first().reference <= states.last().reference <= states.first().reference + 1,
        states.last().asked is Nothing,
{
    assert(happens(states[0], ts[0], states[1]));
    if ts.len() > 1 {
        assert(progress_of(ts[0]) is None);
        assert(ts[1] is Send);
        assert(happens(states[1], ts[1], states[2]));
    }
    if ts.len() > 2 {
        assert(progress_of(ts[1]) is None);
        assert(ts[2] is Send);
        assert(happens(states[2], ts[2], states[3]));
    }
    if ts.len() > 3 {
        assert(progress_of(ts[2]) is None);
        assert(ts[3] is Send);
        assert(happens(states[3], ts[3], states[4]));
    }
    if ts.len() > 4 {
        assert(progress_of(ts[3]) is None);
    }
}

/// `t` takes a request from the queue.
pub open spec fn takes_request(t: Transition) -> bool {
    t matches Transition::Send(SendEvent::Queue(polled), _) && polled is Item
}

/// What the sending task waits to be told before and after `t`, and what that says
/// of `t`.
spec fn fits_between(from: Asked, t: Transition, to: Asked) -> bool {
    if t is Send {
        match from {
            Asked::Nothing => {
                &&& !starts(t)
                &&& !takes_request(t)
                &&& progress_of(t) is None ==> to is Sink || to is Timer || to is Close
            },
            Asked::Timer => {
                &&& !takes_request(t)
                &&& progress_of(t) is None
                &&& if starts(t) {
                    to is Message
                } else {
                    to is Queue
                }
            },
            Asked::Queue => {
                &&& starts(t) == takes_request(t)
                &&& !(t->Send_1.action is StartHeartbeat)
                &&& if starts(t) {
                    progress_of(t) is None && to is Request
                } else {
                    progress_of(t) is Some
                }
            },
            _ => !starts(t) && !takes_request(t) && progress_of(t) is Some,
        }
    } else {
        from is Nothing && to is Nothing && (t is Subscription ==> progress_of(t) == Some(
            Progress::Pending,
        ))
    }
}

proof fn lemma_fits_between(pre: ConnectionView, t: Transition, post: ConnectionView)
    requires
        happens(pre, t, post),
    ensures
        fits_between(pre.asked, t, post.asked),
{
}

/// The steps of a turn, one after the other.
proof fn lemma_turn(asked: Seq<Asked>, ts: Seq<Transition>)
    requires
        asked.len() == ts.len() + 1,
        asked[0] is Nothing,
        forall|i: int|
            0 <= i < ts.len() ==> fits_between(asked[i], #[trigger] ts[i], asked[i + 1]),
        forall|i: int|
            0 <= i < ts.len() ==> #[trigger] next_in_turn(ts, i) == PollStep::Run(task_of(ts[i])),
        next_in_turn(ts, ts.len() as int) is Return,
    ensures
        2 <= ts.len() <= 6,
        forall|i: int| 0 <= i < ts.len() ==> ((#[trigger] ts[i]) is Subscription <==> i == 0),
        forall|i: int|
            0 <= i < ts.len() && (#[trigger] ts[i]) is Receive ==> i == ts.len() - 1,
        forall|i: int, j: int|
            0 <= i < ts.len() && 0 <= j < ts.len() && #[trigger] takes_request(ts[i])
                && #[trigger] takes_request(ts[j]) ==> i == j,
        forall|i: int, j: int|
            0 <= i < ts.len() && 0 <= j < ts.len() && #[trigger] starts(ts[i]) && #[trigger] starts(
                ts[j],
            ) ==> i == j,
        forall|i: int, j: int|
            0 <= i < ts.len() && 0 <= j < ts.len() && #[trigger] starts(ts[i])
                && ts[i]->Send_1.action is StartHeartbeat ==> !(#[trigger] takes_request(ts[j])),
{
    assert(next_in_turn(ts, 0) == PollStep::Run(Task::Subscriptions));
    assert(ts.len() > 0);
    assert(ts[0] is Subscription);
    assert(next_in_turn(ts, 1) == PollStep::Run(Task::Send));
    assert(ts.len() > 1);
    assert(ts[1] is Send);
    if ts.len() > 2 {
        assert(next_in_turn(ts, 2) == PollStep::Run(task_of(ts[2])));
        assert(fits_between(asked[1], ts[1], asked[2]));
    }
    if ts.len() > 3 {
        assert(next_in_turn(ts, 3) == PollStep::Run(task_of(ts[3])));
        assert(fits_between(asked[2], ts[2], asked[3]));
    }
    if ts.len() > 4 {
        assert(next_in_turn(ts, 4) == PollStep::Run(task_of(ts[4])));
        assert(fits_between(asked[3], ts[3], asked[4]));
    }
    if ts.len() > 5 {
        assert(next_in_turn(ts, 5) == PollStep::Run(task_of(ts[5])));
        assert(fits_between(asked[4], ts[4], asked[5]));
    }
    if ts.len() > 6 {
        assert(next_in_turn(ts, 6) == PollStep::Run(task_of(ts[6])));
        assert(fits_between(asked[5], ts[5], asked[6]));
    }
}

/// One turn of the connection takes at most one subscription and one request from
/// their queues and one frame from the socket, in this order, and hands at most one
/// message to the socket; where that is a heartbeat, it takes no request.
pub proof fn law_turns_take_one_of_each(states: Seq<ConnectionView>, ts: Seq<Transition>)
    requires
        is_turn(states, ts),
    ensures
        2 <= ts.len() <= 6,
        forall|i: int| 0 <= i < ts.len() ==> ((#[trigger] ts[i]) is Subscription <==> i == 0),
        forall|i: int|
            0 <= i < ts.len() && (#[trigger] ts[i]) is Receive ==> i == ts.len() - 1,
        forall|i: int, j: int|
            0 <= i < ts.len() && 0 <= j < ts.len() && #[trigger] takes_request(ts[i])
                && #[trigger] takes_request(ts[j]) ==> i == j,
        forall|i: int, j: int|
            0 <= i < ts.len() && 0 <= j < ts.len() && #[trigger] starts(ts[i]) && #[trigger] starts(
                ts[j],
            ) ==> i == j,
        forall|i: int, j: int|
            0 <= i < ts.len() && 0 <= j < ts.len() && #[trigger] starts(ts[i])
                && ts[i]->Send_1.action is StartHeartbeat ==> !(#[trigger] takes_request(ts[j])),
{
    let asked = states.map_values(|state: ConnectionView| state.asked);
    assert forall|i: int| 0 <= i < ts.len() implies fits_between(
        asked[i],
        #[trigger] ts[i],
        asked[i + 1],
    ) by {
        lemma_fits_between(states[i], ts[i], states[i + 1]);
    }
    lemma_turn(asked, ts);
}

/// The socket was found ready at `j`, and since then no message was handed to it.
pub open spec fn room_since(ts: Seq<Transition>, j: int) -> bool {
    &&& 0 <= j < ts.len()
    &&& finds_room(ts[j])
    &&& forall|k: int| j < k < ts.len() ==> !starts(#[trigger] ts[k])
}

/// The sending task does not end the connection in `t`.
pub open spec fn goes_on(t: Transition) -> bool {
    t is Send ==> !(progress_of(t) matches Some(progress) && progress is Finished)
}

proof fn lemma_room(states: Seq<ConnectionView>, ts: Seq<Transition>)
    requires
        is_run(states, ts),
        states.first().valid(),
        states.first().state != ConnectionState::Ready,
        forall|i: int| 0 <= i < ts.len() ==> goes_on(#[trigger] ts[i]),
        states.last().state == ConnectionState::Ready,
        !(states.last().asked is Message),
        !(states.last().asked is Request),
    ensures
        exists|j: int| #[trigger] room_since(ts, j),
    decreases ts.len(),
{
    assert(ts.len() > 0);
    lemma_run_drop_last(states, ts);
    law_runs_keep_connections_valid(states.drop_last(), ts.drop_last());
    let earlier = ts.drop_last();
    let t = ts.last();
    assert(goes_on(ts[ts.len() - 1]));
    if finds_room(t) {
        assert(room_since(ts, ts.len() - 1));
    } else {
        assert forall|i: int| 0 <= i < earlier.len() implies goes_on(#[trigger] earlier[i]) by {
            assert(earlier[i] == ts[i]);
        }
        lemma_room(states.drop_last(), earlier);
        let j = choose|j: int| #[trigger] room_since(earlier, j);
        assert forall|k: int| j < k < ts.len() implies !starts(#[trigger] ts[k]) by {
            if k < earlier.len() {
                assert(earlier[k] == ts[k]);
            }
        }
        assert(room_since(ts, j));
    }
}

/// Before each message that is handed to the socket, the socket was found ready, and
/// no other message was handed to it since.
pub proof fn law_room_precedes_each_message(
    states: Seq<ConnectionView>,
    ts: Seq<Transition>,
    i: int,
)
    requires
        is_run(states, ts),
        states.first().valid(),
        states.first().state != ConnectionState::Ready,
        forall|k: int| 0 <= k < ts.len() ==> goes_on(#[trigger] ts[k]),
        0 <= i < ts.len(),
        starts(ts[i]),
    ensures
        exists|j: int| #[trigger] room_since(ts.take(i), j),
{
    let earlier = ts.take(i);
    let before = states.take(i + 1);
    assert forall|k: int| 0 <= k < earlier.len() implies happens(
        before[k],
        #[trigger] earlier[k],
        before[k + 1],
    ) && goes_on(earlier[k]) by {
        assert(earlier[k] == ts[k]);
    }
    law_runs_keep_connections_valid(before, earlier);
    assert(happens(states[i], ts[i], states[i + 1]));
    lemma_room(before, earlier);
}

/// The messages that the socket takes carry consecutive numbers, in order and without
/// gaps; one that it refuses uses up none.
pub proof fn law_accepted_messages_are_numbered(states: Seq<ConnectionView>, ts: Seq<Transition>)
    requires
        is_run(states, ts),
        states.first().valid(),
    ensures
        states.last().reference == states.first().reference + accepted_texts(states, ts).len(),
        forall|k: int|
            0 <= k < accepted_texts(states, ts).len() ==> carries(
                #[trigger] accepted_texts(states, ts)[k],
                (states.first().reference + k) as nat,
            ),
    decreases ts.len(),
{
    if ts.len() > 0 {
        lemma_run_drop_last(states, ts);
        let before = accepted_texts(states.drop_last(), ts.drop_last());
        law_accepted_messages_are_numbered(states.drop_last(), ts.drop_last());
        law_runs_keep_connections_valid(states.drop_last(), ts.drop_last());
        assert forall|k: int| 0 <= k < accepted_texts(states, ts).len() implies carries(
            #[trigger] accepted_texts(states, ts)[k],
            (states.first().reference + k) as nat,
        ) by {
            if k < before.len() {
                assert(accepted_texts(states, ts)[k] == before[k]);
            }
        }
    }
}

/// The messages that the socket takes from a new connection carry 0, 1, 2 and so on.
pub proof fn law_numbers_begin_at_zero(states: Seq<ConnectionView>, ts: Seq<Transition>)
    requires
        is_run(states, ts),
        states.first() == ConnectionView::initial(),
    ensures
        states.last().reference == accepted_texts(states, ts).len(),
        forall|k: int|
            0 <= k < accepted_texts(states, ts).len() ==> carries(
                #[trigger] accepted_texts(states, ts)[k],
                k as nat,
            ),
{
    law_accepted_messages_are_numbered(states, ts);
}

proof fn lemma_decimal_has_no_quote(n: nat, i: int)
    requires
        0 <= i < decimal(n).len(),
    ensures
        decimal(n)[i] != '"',
    decreases n,
{
    if n >= 10 && i < decimal(n).len() - 1 {
        lemma_decimal_has_no_quote(n / 10, i);
    }
}

/// How a message with the given number ends.
proof fn lemma_text_end(text: Seq<char>, n: nat)
    requires
        carries(text, n),
    ensures
        text.len() >= decimal(n).len() + 3,
        text[text.len() - decimal(n).len() - 3] == '"',
        text.subrange(text.len() - decimal(n).len() - 2, text.len() - 2) == decimal(n),
{
    let (topic, event, payload) = choose|
        topic: Seq<char>,
        event: Seq<char>,
        payload: Seq<char>,
    | text == #[trigger] message_text(topic, event, payload, decimal(n));
    let head = "{\"topic\":"@ + quoted(topic) + ",\"event\":"@ + quoted(event) + ",\"payload\":"@
        + payload + ",\"ref\":"@;
    law_references_stand_unescaped(n);
    reveal_strlit("}");
    assert(text == head + quoted(decimal(n)) + "}"@);
    let d = decimal(n);
    assert(text.len() == head.len() + d.len() + 3);
    assert(text.subrange(text.len() - d.len() - 2, text.len() - 2) =~= d);
}

/// A message carries one number only.
pub proof fn law_messages_carry_one_number(text: Seq<char>, m: nat, n: nat)
    requires
        carries(text, m),
        carries(text, n),
    ensures
        m == n,
{
    lemma_text_end(text, m);
    lemma_text_end(text, n);
    let dm = decimal(m);
    let dn = decimal(n);
    let tail_m = text.subrange(text.len() - dm.len() - 2, text.len() - 2);
    let tail_n = text.subrange(text.len() - dn.len() - 2, text.len() - 2);
    if dm.len() < dn.len() {
        let i = dn.len() - dm.len() - 1;
        assert(tail_n[i] == text[text.len() - dm.len() - 3]);
        lemma_decimal_has_no_quote(n, i);
    } else if dn.len() < dm.len() {
        let i = dm.len() - dn.len() - 1;
        assert(tail_m[i] == text[text.len() - dn.len() - 3]);
        lemma_decimal_has_no_quote(m, i);
    } else {
        lemma_decimal_injective(m, n);
    }
}

/// A request that the socket takes makes one more wait, and none less; one that it
/// refuses changes nothing in who waits.
pub proof fn law_accepted_requests_add_one(
    pre: ConnectionView,
    response_tx: ReplySender,
    started: Result<(), WebsocketError>,
    post: ConnectionView,
    step: SendStep,
)
    requires
        pre.valid(),
        sends(pre, SendEvent::RequestStarted(response_tx, started), post, step),
    ensures
        started is Ok ==> post.pending.len() == pre.pending.len() + 1,
        started is Err ==> post.pending == pre.pending,
        forall|r: Seq<char>| #[trigger]
            pre.pending.contains_key(r) ==> post.pending.contains_key(r) && post.pending[r]
                == pre.pending[r],
{
    lemma_next_not_issued(pre.reference);
    if started is Ok {
        assert(post.pending.dom() =~= pre.pending.dom().insert(decimal(pre.reference)));
    }
}

/// Whether somebody waits for the reply makes no difference to the text of a message
/// nor to the count; only who waits, and for what, is another matter.
pub proof fn law_waiting_does_not_change_the_message(
    alone: ConnectionView,
    alone_mid: ConnectionView,
    alone_post: ConnectionView,
    waited: ConnectionView,
    waited_mid: ConnectionView,
    waited_post: ConnectionView,
    req: ConnectionInternalRequest,
    response_tx: ReplySender,
    started: Result<(), WebsocketError>,
    text: Seq<char>,
    result: Result<(), RequestSendError>,
    begun: SendStep,
    done: SendStep,
)
    requires
        alone.reference == waited.reference,
        sync_begins(alone, req, alone_mid, text),
        sync_ends(alone_mid, started, alone_post, result),
        sends(waited, SendEvent::Queue(Polled::Item((req, response_tx))), waited_mid, begun),
        sends(waited_mid, SendEvent::RequestStarted(response_tx, started), waited_post, done),
    ensures
        begun.action matches SendAction::StartRequest(t, _) && t@ == text,
        alone_post.reference == waited_post.reference,
        result is Ok <==> started is Ok,
        alone_post.reference == alone.reference + (if started is Ok {
            1nat
        } else {
            0nat
        }),
        alone_post.pending == alone.pending,
        alone_post.heartbeat == alone.heartbeat,
        alone_post.subscriptions == alone.subscriptions,
        alone_post.state == alone.state,
{
}

/// The queue of requests is asked only when no heartbeat is due.
pub proof fn law_heartbeats_go_first(
    pre: ConnectionView,
    event: SendEvent,
    post: ConnectionView,
    step: SendStep,
)
    requires
        sends(pre, event, post, step),
        step.action is PollQueue,
    ensures
        event == SendEvent::Timer(false),
{
}

/// The sending task runs again soon exactly when it took a message on itself.
pub proof fn law_sending_goes_on(
    pre: ConnectionView,
    event: SendEvent,
    post: ConnectionView,
    step: SendStep,
)
    requires
        sends(pre, event, post, step),
    ensures
        step.wake <==> (step.action is StartHeartbeat || step.action is StartRequest),
{
}

/// A connection that begins to close takes no request, sends nothing more and never
/// gets out of it; nothing is added to what waits for a reply.
pub proof fn law_closing_is_final(states: Seq<ConnectionView>, ts: Seq<Transition>)
    requires
        is_run(states, ts),
        states.first().valid(),
        states.first().state == ConnectionState::Closing || states.first().state
            == ConnectionState::Closed,
    ensures
        states.last().state == ConnectionState::Closing || states.last().state
            == ConnectionState::Closed,
        states.last().reference == states.first().reference,
        states.last().pending.dom().subset_of(states.first().pending.dom()),
        forall|i: int| 0 <= i < ts.len() ==> !asks_timer_or_queue(#[trigger] ts[i]),
        forall|i: int| 0 <= i < ts.len() ==> !takes_request(#[trigger] ts[i]),
        forall|i: int| 0 <= i < ts.len() ==> !starts(#[trigger] ts[i]),
    decreases ts.len(),
{
    if ts.len() > 0 {
        let earlier = ts.drop_last();
        lemma_run_drop_last(states, ts);
        law_closing_is_final(states.drop_last(), earlier);
        law_runs_keep_connections_valid(states.drop_last(), earlier);
        assert forall|i: int| 0 <= i < ts.len() implies !starts(#[trigger] ts[i])
            && !takes_request(ts[i]) && !asks_timer_or_queue(ts[i]) by {
            if i < earlier.len() {
                assert(earlier[i] == ts[i]);
            }
        }
    }
}

/// When there are no more requests or subscriptions to come, or the server says
/// so, the connection begins to close.
pub proof fn law_closing_begins(
    pre: ConnectionView,
    post: ConnectionView,
    queue: SendStep,
    subscriptions: SubscriptionStep,
    frame: ReceiveStep,
)
    requires
        sends(pre, SendEvent::Queue(Polled::Closed), post, queue) || takes_subscription(
            pre,
            Polled::Closed,
            post,
            subscriptions,
        ) || takes_in(pre, Incoming::Close, post, frame),
    ensures
        post == pre.with_state(ConnectionState::Closing).asking(post.asked),
{
}

/// A connection ends when one of its tasks does, and then without an error.
pub proof fn law_connections_end_well(last: Option<(Task, Progress)>)
    ensures
        poll_step(last) matches PollStep::Return(Progress::Finished(result)) ==> result is Ok,
        poll_step(last) == PollStep::Return(Progress::Finished(Ok(()))) <==> (last matches Some(
            (_, progress),
        ) && progress is Finished),
{
}

/// A subscription that meets no obstacle asks to join its topic, reads the
/// payload of the reply, and ends as the server says.
pub proof fn law_subscriptions_end_as_the_server_says(
    topic: Seq<char>,
    reply: serde_json::Value,
    payload: JoinPayload,
    phases: Seq<SubscribePhase>,
    actions: Seq<SubscribeAction>,
)
    requires
        phases.len() == 4,
        actions.len() == 4,
        advances(topic, SubscribeEvent::Registered(true), phases[0], actions[0]),
        advances(topic, SubscribeEvent::Requested(true), phases[1], actions[1]),
        advances(topic, SubscribeEvent::Replied(Some(Ok(reply))), phases[2], actions[2]),
        advances(topic, SubscribeEvent::Read(Ok(payload)), phases[3], actions[3]),
    ensures
        answers(SubscribeEvent::Requested(true), phases[0]),
        answers(SubscribeEvent::Replied(Some(Ok(reply))), phases[1]),
        answers(SubscribeEvent::Read(Ok(payload)), phases[2]),
        actions[0] matches SubscribeAction::Request(req) && is_join_request(req, topic),
        actions[1] == SubscribeAction::Wait,
        actions[2] == SubscribeAction::Read(reply),
        join_granted(payload) ==> actions[3] == SubscribeAction::Return(Ok(())),
        !join_granted(payload) ==> (actions[3] matches SubscribeAction::Return(
            Err(SubscribeError::Join(reason)),
        ) && reason@ == refusal_reason(payload)),
{
}

/// The topic is joined only once the connection has the subscription, so that no
/// event of the topic comes before it.
pub proof fn law_subscriptions_are_registered_before_joining(
    topic: Seq<char>,
    event: SubscribeEvent,
    phase: SubscribePhase,
    action: SubscribeAction,
)
    requires
        advances(topic, event, phase, action),
        action is Request,
    ensures
        event == SubscribeEvent::Registered(true),
        action matches SubscribeAction::Request(req) && is_join_request(req, topic),
{
}

/// A subscription is over exactly when it returns, and is told nothing more then.
pub proof fn law_subscriptions_end_once(
    topic: Seq<char>,
    event: SubscribeEvent,
    phase: SubscribePhase,
    action: SubscribeAction,
    next: SubscribeEvent,
)
    requires
        advances(topic, event, phase, action),
    ensures
        action is Return <==> phase == SubscribePhase::Finished,
        action is Return ==> !answers(next, phase),
{
}

} // verus!

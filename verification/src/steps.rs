//! What each step of a connection does, field by field, and what it leaves alone.

use crate::channel::{dropped, kept, offered_to_all, responded, EventSender, ReplySender};
use crate::connection::{
    fits, lemma_request_sent_valid, poll_step, receives, sends, sync_begins, sync_ends, takes_in,
    takes_subscription, Asked, ConnectionError, ConnectionInternalRequest, ConnectionState,
    ConnectionView, Incoming, Notice, PollStep, Polled, Progress, ReceiveStep, RequestSendError,
    SendAction, SendEvent, SendStep, SinkPoll, SubscriptionStep, Task, WebsocketError,
};
use crate::json::json_text;
use crate::laws::{
    is_run, law_requests_wait_until_answered, law_runs_keep_connections_valid, takes_reference,
    Transition,
};
use crate::message::{message_text, MessageIn};
use crate::reference::decimal;
use crate::subscriber::{attempted, views, SubscriberView};
use crate::table::TopicEvent;
use crate::texts::law_issued_references_are_the_numbers_below;
use vstd::prelude::*;

verus! {

/// `t` leads from `pre` to `post`, whatever the sending task waits for.
pub open spec fn leads(pre: ConnectionView, t: Transition, post: ConnectionView) -> bool {
    match t {
        Transition::Subscription(polled, step) => takes_subscription(pre, polled, post, step),
        Transition::Send(event, step) => sends(pre, event, post, step),
        Transition::Receive(incoming, step) => takes_in(pre, incoming, post, step),
    }
}

/// A new connection has sent nothing, waits for nothing and has no subscription; it
/// does not know yet whether the socket is ready.
pub proof fn law_connections_begin_empty(reference: Seq<char>, key: TopicEvent)
    ensures
        ConnectionView::initial().state == ConnectionState::Unknown,
        !ConnectionView::initial().pending.contains_key(reference),
        !ConnectionView::initial().subscriptions.contains_key(key),
        ConnectionView::initial().heartbeat is None,
        ConnectionView::initial().reference == 0,
        ConnectionView::initial().asked is Nothing,
{
}

/// A connection begins to close only when a queue has nothing more to come or a close
/// frame comes in. It is ready only when the socket says so, does not know any more
/// after each message that was handed to the socket, and is closed only when the
/// socket is. Nothing else changes its state.
pub proof fn law_states_change_only_when_told(
    pre: ConnectionView,
    t: Transition,
    post: ConnectionView,
)
    requires
        leads(pre, t, post),
    ensures
        post.state == match t {
            Transition::Subscription(Polled::Closed, _) => ConnectionState::Closing,
            Transition::Send(SendEvent::Queue(Polled::Closed), _) => ConnectionState::Closing,
            Transition::Receive(Incoming::Close, _) => ConnectionState::Closing,
            Transition::Send(SendEvent::Sink(SinkPoll::Ready), _) => ConnectionState::Ready,
            Transition::Send(SendEvent::HeartbeatStarted(Ok(_)), _) => ConnectionState::Unknown,
            Transition::Send(SendEvent::RequestStarted(_, _), _) => ConnectionState::Unknown,
            Transition::Send(SendEvent::Close(true), _) => ConnectionState::Closed,
            Transition::Send(SendEvent::Close(false), _) => ConnectionState::Closing,
            _ => pre.state,
        },
{
}

/// A step from a state that is not closing to one that is was told so, by one of the
/// two queues or by the server.
pub proof fn law_open_connections_stay_open(
    pre: ConnectionView,
    t: Transition,
    post: ConnectionView,
)
    requires
        pre.valid(),
        leads(pre, t, post),
        t matches Transition::Send(event, _) ==> fits(pre, event),
        pre.state == ConnectionState::Unknown || pre.state == ConnectionState::Ready,
        post.state != ConnectionState::Unknown,
        post.state != ConnectionState::Ready,
    ensures
        post.state == ConnectionState::Closing,
        t matches Transition::Subscription(polled, _) ==> polled is Closed,
        t matches Transition::Send(event, _) ==> (event matches SendEvent::Queue(polled)
            && polled is Closed),
        t matches Transition::Receive(incoming, _) ==> incoming is Close,
{
}

/// The number of the next message grows by one when the socket takes a message, and
/// never otherwise.
pub proof fn law_numbers_count_what_the_socket_takes(
    pre: ConnectionView,
    t: Transition,
    post: ConnectionView,
)
    requires
        leads(pre, t, post),
    ensures
        post.reference == match t {
            Transition::Send(SendEvent::HeartbeatStarted(Ok(_)), _) => pre.reference + 1,
            Transition::Send(SendEvent::RequestStarted(_, Ok(_)), _) => pre.reference + 1,
            _ => pre.reference,
        },
{
}

/// Who waits changes in two ways only: a request that the socket takes begins to wait
/// under its number, and a message with that number as its reference ends the wait,
/// unless it answers the heartbeat.
pub proof fn law_requests_wait_from_sending_to_reply(
    pre: ConnectionView,
    t: Transition,
    post: ConnectionView,
)
    requires
        leads(pre, t, post),
    ensures
        post.pending == match t {
            Transition::Send(SendEvent::RequestStarted(response_tx, Ok(_)), _) => pre.pending.insert(
                decimal(pre.reference),
                response_tx,
            ),
            Transition::Receive(Incoming::Text(Ok(msg)), _) => match msg.reference {
                Some(reference) => if pre.heartbeat != Some(reference@) {
                    pre.pending.remove(reference@)
                } else {
                    pre.pending
                },
                None => pre.pending,
            },
            _ => pre.pending,
        },
{
    assert forall|r: Seq<char>| !pre.pending.contains_key(r) implies #[trigger] pre.pending.remove(r)
        == pre.pending by {
        assert(pre.pending.remove(r) =~= pre.pending);
    }
}

/// A heartbeat is awaited from when the socket takes it, under its number, until a
/// message with that number as its reference comes in.
pub proof fn law_heartbeats_wait_from_sending_to_reply(
    pre: ConnectionView,
    t: Transition,
    post: ConnectionView,
)
    requires
        leads(pre, t, post),
    ensures
        post.heartbeat == match t {
            Transition::Send(SendEvent::HeartbeatStarted(Ok(_)), _) => Some(
                decimal(pre.reference),
            ),
            Transition::Receive(Incoming::Text(Ok(msg)), _) => match msg.reference {
                Some(reference) => if pre.heartbeat == Some(reference@) {
                    None
                } else {
                    pre.heartbeat
                },
                None => pre.heartbeat,
            },
            _ => pre.heartbeat,
        },
{
}

/// Subscriptions come in through their queue and are changed by events; nothing else
/// touches them.
pub proof fn law_only_subscriptions_and_events_touch_subscriptions(
    pre: ConnectionView,
    t: Transition,
    post: ConnectionView,
)
    requires
        leads(pre, t, post),
        !(t matches Transition::Subscription(polled, _) && polled is Item),
        !(t matches Transition::Receive(Incoming::Text(Ok(msg)), _) && msg.reference is None),
    ensures
        post.subscriptions == pre.subscriptions,
{
}

/// What the sending task waits to be told is what it was last told to ask, and the
/// other tasks ask nothing.
pub proof fn law_what_is_asked_is_awaited(pre: ConnectionView, t: Transition, post: ConnectionView)
    requires
        leads(pre, t, post),
    ensures
        match t {
            Transition::Send(_, step) => match step.action {
                SendAction::PollSink => post.asked is Sink,
                SendAction::PollTimer => post.asked is Timer,
                SendAction::PollQueue => post.asked is Queue,
                SendAction::StartHeartbeat(text) => post.asked == Asked::Message(text@),
                SendAction::StartRequest(text, tx) => post.asked == Asked::Request(text@, tx),
                SendAction::PollClose => post.asked is Close,
                SendAction::Return(_) => post.asked is Nothing,
            },
            _ => post.asked == pre.asked,
        },
{
}

/// Whatever the sending task asks, every answer to it is one that it takes; a message
/// that the socket takes needs a number for the next one.
pub proof fn law_every_answer_fits(
    pre: ConnectionView,
    sink: SinkPoll,
    due: bool,
    polled: Polled<(ConnectionInternalRequest, ReplySender)>,
    response_tx: ReplySender,
    started: Result<(), WebsocketError>,
    closed: bool,
)
    ensures
        fits(pre, SendEvent::Poll) <==> pre.asked is Nothing,
        fits(pre, SendEvent::Sink(sink)) <==> pre.asked is Sink,
        fits(pre, SendEvent::Timer(due)) <==> pre.asked is Timer,
        fits(pre, SendEvent::Queue(polled)) <==> pre.asked is Queue,
        fits(pre, SendEvent::HeartbeatStarted(started)) <==> pre.asked is Message && (started is Err
            || pre.reference < u64::MAX),
        fits(pre, SendEvent::RequestStarted(response_tx, started)) <==> (
        pre.asked matches Asked::Request(_, tx) && tx == response_tx) && (started is Err
            || pre.reference < u64::MAX),
        fits(pre, SendEvent::Close(closed)) <==> pre.asked is Close,
{
}

/// The sending task first asks for room where it does not know of any, then for the
/// timer, goes on closing where it is closing, and ends where the socket is closed.
pub proof fn law_sending_begins_as_the_state_says(
    pre: ConnectionView,
    post: ConnectionView,
    step: SendStep,
)
    requires
        sends(pre, SendEvent::Poll, post, step),
    ensures
        step.action is PollSink <==> pre.state == ConnectionState::Unknown,
        step.action is PollTimer <==> pre.state == ConnectionState::Ready,
        step.action is PollClose <==> pre.state == ConnectionState::Closing,
        step.action == SendAction::Return(Progress::Finished(Ok(()))) <==> pre.state
            == ConnectionState::Closed,
        !step.wake,
        step.refusal is None,
{
}

/// When a heartbeat is due, the text handed to the socket is the heartbeat with the
/// number of the next message, whatever that number is.
pub proof fn law_due_heartbeats_are_sent(pre: ConnectionView, post: ConnectionView, step: SendStep)
    requires
        sends(pre, SendEvent::Timer(true), post, step),
    ensures
        step.action matches SendAction::StartHeartbeat(text) && text@ == message_text(
            "phoenix"@,
            "heartbeat"@,
            "null"@,
            decimal(pre.reference),
        ),
        post == (ConnectionView {
            asked: Asked::Message(
                message_text("phoenix"@, "heartbeat"@, "null"@, decimal(pre.reference)),
            ),
            ..pre
        }),
        step.wake,
        step.refusal is None,
{
}

/// When no heartbeat is due, the queue is asked and nothing else happens.
pub proof fn law_queues_are_asked_between_heartbeats(
    pre: ConnectionView,
    post: ConnectionView,
    step: SendStep,
)
    requires
        sends(pre, SendEvent::Timer(false), post, step),
    ensures
        step.action is PollQueue,
        post == (ConnectionView { asked: Asked::Queue, ..pre }),
        !step.wake,
        step.refusal is None,
{
}

/// A request from the queue is handed to the socket under its own topic and event,
/// with its own payload and the number of the next message, for the one who waits.
pub proof fn law_requests_are_sent_as_they_are(
    pre: ConnectionView,
    req: ConnectionInternalRequest,
    response_tx: ReplySender,
    post: ConnectionView,
    step: SendStep,
)
    requires
        sends(pre, SendEvent::Queue(Polled::Item((req, response_tx))), post, step),
    ensures
        step.action matches SendAction::StartRequest(text, tx) && text@ == message_text(
            req.topic@,
            req.event@,
            json_text(req.payload),
            decimal(pre.reference),
        ) && tx == response_tx,
        post == (ConnectionView {
            asked: Asked::Request(
                message_text(
                    req.topic@,
                    req.event@,
                    json_text(req.payload),
                    decimal(pre.reference),
                ),
                response_tx,
            ),
            ..pre
        }),
        step.wake,
        step.refusal is None,
{
}

/// A message that nobody waits for is written in the same way, and only counted.
pub proof fn law_unawaited_messages_are_sent_as_they_are(
    pre: ConnectionView,
    req: ConnectionInternalRequest,
    mid: ConnectionView,
    text: Seq<char>,
    started: Result<(), WebsocketError>,
    post: ConnectionView,
    result: Result<(), RequestSendError>,
)
    requires
        sync_begins(pre, req, mid, text),
        sync_ends(mid, started, post, result),
    ensures
        text == message_text(
            req.topic@,
            req.event@,
            json_text(req.payload),
            decimal(pre.reference),
        ),
        mid == (ConnectionView { asked: Asked::Message(text), ..pre }),
        started matches Ok(_) ==> result is Ok && post == (ConnectionView {
            reference: pre.reference + 1,
            asked: Asked::Nothing,
            ..pre
        }),
        started matches Err(e) ==> result == Err::<(), _>(RequestSendError::Send(e)) && post == (
        ConnectionView { asked: Asked::Nothing, ..pre }),
{
}

/// Every other answer ends the turn of the sending task: with an error where the
/// socket fails or refuses a heartbeat, and otherwise so that it is run again.
pub proof fn law_other_answers_end_the_turn(
    pre: ConnectionView,
    event: SendEvent,
    post: ConnectionView,
    step: SendStep,
)
    requires
        sends(pre, event, post, step),
        !(event is Poll),
        !(event is Timer),
        !(event matches SendEvent::Queue(polled) && polled is Item),
    ensures
        step.action == SendAction::Return(
            match event {
                SendEvent::Sink(SinkPoll::Failed(e)) => Progress::Finished(
                    Err(ConnectionError::Websocket(e)),
                ),
                SendEvent::HeartbeatStarted(Err(_)) => Progress::Finished(
                    Err(ConnectionError::Heartbeat),
                ),
                _ => Progress::Pending,
            },
        ),
        !step.wake,
        step.refusal is Some <==> (event matches SendEvent::RequestStarted(_, started)
            && started is Err),
{
}

/// One who waits for a request that the socket refuses is told the error of the
/// socket; where nobody waits any more, that answer comes back.
pub proof fn law_refusals_name_the_error(
    pre: ConnectionView,
    response_tx: ReplySender,
    error: WebsocketError,
    post: ConnectionView,
    step: SendStep,
)
    requires
        sends(pre, SendEvent::RequestStarted(response_tx, Err(error)), post, step),
    ensures
        step.refusal matches Some(outcome) && responded(
            response_tx,
            Err(RequestSendError::Send(error)),
            outcome,
        ),
        step.refusal matches Some(Err(back)) ==> back == Err::<serde_json::Value, _>(
            RequestSendError::Send(error),
        ),
        post == (ConnectionView {
            state: ConnectionState::Unknown,
            asked: Asked::Nothing,
            ..pre
        }),
{
}

/// While nothing comes through its queue, the subscription task leaves the connection
/// exactly as it was.
pub proof fn law_idle_subscription_queues_change_nothing(
    pre: ConnectionView,
    post: ConnectionView,
    step: SubscriptionStep,
)
    requires
        takes_subscription(pre, Polled::Pending, post, step),
    ensures
        post == pre,
        !step.wake,
        step.progress == Progress::Pending,
{
}

/// When the subscription queue has nothing more to come, the connection begins to
/// close, and nothing else changes.
pub proof fn law_ended_subscription_queues_close(
    pre: ConnectionView,
    post: ConnectionView,
    step: SubscriptionStep,
)
    requires
        takes_subscription(pre, Polled::Closed, post, step),
    ensures
        post == (ConnectionView { state: ConnectionState::Closing, ..pre }),
        !step.wake,
        step.progress == Progress::Pending,
{
}

/// A subscription from the queue stands behind those of its topic and event, with its
/// own channel and nothing offered yet; every other subscription stays as it is.
pub proof fn law_subscriptions_come_in_last(
    pre: ConnectionView,
    topic: String,
    event: String,
    sender: EventSender,
    post: ConnectionView,
    step: SubscriptionStep,
)
    requires
        takes_subscription(pre, Polled::Item((topic, event, sender)), post, step),
    ensures
        post.subscriptions.dom() == pre.subscriptions.dom().insert((topic@, event@)),
        post.subscriptions[(topic@, event@)] == (if pre.subscriptions.contains_key(
            (topic@, event@),
        ) {
            pre.subscriptions[(topic@, event@)]
        } else {
            Seq::empty()
        }).push(SubscriberView { tx: sender, log: Seq::empty() }),
        forall|other: TopicEvent|
            other != (topic@, event@) && #[trigger] pre.subscriptions.contains_key(other)
                ==> post.subscriptions[other] == pre.subscriptions[other],
        post == (ConnectionView { subscriptions: post.subscriptions, ..pre }),
        step.wake,
        step.progress == Progress::Pending,
{
}

/// The heartbeat never waits under a reference that a request waits under, and both wait
/// only under numbers that were handed out.
pub proof fn law_heartbeats_and_requests_wait_apart(pre: ConnectionView, n: nat)
    requires
        pre.valid(),
    ensures
        pre.pending.contains_key(decimal(n)) ==> n < pre.reference && pre.heartbeat != Some(
            decimal(n),
        ),
        pre.heartbeat == Some(decimal(n)) ==> n < pre.reference && !pre.pending.contains_key(
            decimal(n),
        ),
{
    law_issued_references_are_the_numbers_below(n, pre.reference);
}

/// The receiving task hands a reply to the request that waits for it, in every state
/// of the connection: the payload goes to that request, and comes back where nobody
/// waits for it. The request waits no longer, and nothing else changes.
pub proof fn law_received_replies_reach_their_request(
    pre: ConnectionView,
    msg: MessageIn,
    reference: String,
    post: ConnectionView,
    step: ReceiveStep,
)
    requires
        pre.valid() || pre.heartbeat != Some(reference@),
        takes_in(pre, Incoming::Text(Ok(msg)), post, step),
        msg.reference == Some(reference),
        pre.pending.contains_key(reference@),
    ensures
        step.notice matches Notice::Reply(outcome) && responded(
            pre.pending[reference@],
            Ok(msg.payload),
            outcome,
        ),
        step.notice matches Notice::Reply(Err(back)) ==> back == Ok::<_, RequestSendError>(
            msg.payload,
        ),
        post == (ConnectionView { pending: pre.pending.remove(reference@), ..pre }),
        step.progress == Progress::Pending,
        step.wake,
{
}

/// The receiving task keeps the reply to the heartbeat to itself, in every state of
/// the connection: the heartbeat is awaited no longer, and nothing else changes.
pub proof fn law_received_heartbeat_replies_stay_inside(
    pre: ConnectionView,
    msg: MessageIn,
    reference: String,
    post: ConnectionView,
    step: ReceiveStep,
)
    requires
        takes_in(pre, Incoming::Text(Ok(msg)), post, step),
        msg.reference == Some(reference),
        pre.heartbeat == Some(reference@),
    ensures
        step.notice == Notice::HeartbeatReply,
        post == (ConnectionView { heartbeat: None, ..pre }),
        step.progress == Progress::Pending,
        step.wake,
{
}

/// A reply that nobody waits for changes nothing.
pub proof fn law_unexpected_replies_change_nothing(
    pre: ConnectionView,
    msg: MessageIn,
    reference: String,
    post: ConnectionView,
    step: ReceiveStep,
)
    requires
        takes_in(pre, Incoming::Text(Ok(msg)), post, step),
        msg.reference == Some(reference),
        !pre.pending.contains_key(reference@),
        pre.heartbeat != Some(reference@),
    ensures
        step.notice == Notice::NotPending,
        post == pre,
        step.progress == Progress::Pending,
        step.wake,
{
}

/// The receiving task offers an event to the subscriptions of its topic and name, in
/// every state of the connection: each of them is offered the payload once, in order.
/// Those whose channel is closed go, the others stay in their order, and no other
/// subscription nor anything else changes.
pub proof fn law_received_events_reach_their_subscriptions(
    pre: ConnectionView,
    msg: MessageIn,
    post: ConnectionView,
    step: ReceiveStep,
)
    requires
        takes_in(pre, Incoming::Text(Ok(msg)), post, step),
        msg.reference is None,
        pre.subscriptions.contains_key((msg.topic@, msg.event@)),
    ensures
        step.notice matches Notice::Event(outcomes, gone) && {
            let list = pre.subscriptions[(msg.topic@, msg.event@)];
            let offered = Seq::new(
                list.len(),
                |i: int|
                    SubscriberView {
                        tx: list[i].tx,
                        log: list[i].log.push((msg.payload, outcomes@[i])),
                    },
            );
            &&& outcomes@.len() == list.len()
            &&& forall|i: int|
                0 <= i < list.len() ==> attempted(
                    list[i].tx,
                    msg.payload,
                    #[trigger] outcomes@[i],
                )
            &&& post == (ConnectionView {
                subscriptions: pre.subscriptions.insert(
                    (msg.topic@, msg.event@),
                    kept(offered, outcomes@),
                ),
                ..pre
            })
            &&& views(gone@) == dropped(offered, outcomes@)
        },
        step.progress == Progress::Pending,
        step.wake,
{
    let outcomes = step.notice->Event_0@;
    let list = pre.subscriptions[(msg.topic@, msg.event@)];
    let offered = Seq::new(
        list.len(),
        |i: int|
            SubscriberView { tx: list[i].tx, log: list[i].log.push((msg.payload, outcomes[i])) },
    );
    assert(offered_to_all(list, msg.payload, outcomes) =~= offered);
}

/// An event that nobody ever subscribed to changes nothing.
pub proof fn law_unknown_events_change_nothing(
    pre: ConnectionView,
    msg: MessageIn,
    post: ConnectionView,
    step: ReceiveStep,
)
    requires
        takes_in(pre, Incoming::Text(Ok(msg)), post, step),
        msg.reference is None,
        !pre.subscriptions.contains_key((msg.topic@, msg.event@)),
    ensures
        step.notice == Notice::NoSubscription,
        post == pre,
        step.progress == Progress::Pending,
        step.wake,
{
}

/// What the receiving task makes of a message is what the connection makes of it.
pub proof fn law_every_message_is_received(
    pre: ConnectionView,
    msg: MessageIn,
    post: ConnectionView,
    step: ReceiveStep,
)
    requires
        takes_in(pre, Incoming::Text(Ok(msg)), post, step),
    ensures
        receives(pre, msg, post, step.notice),
{
}

/// A close frame begins the closing and changes nothing else; what is no message
/// changes nothing at all. The receiving task ends with the socket, and with its error
/// where it fails, and runs again soon after everything that came in.
pub proof fn law_other_frames_change_nothing(
    pre: ConnectionView,
    incoming: Incoming,
    post: ConnectionView,
    step: ReceiveStep,
)
    requires
        takes_in(pre, incoming, post, step),
        !(incoming matches Incoming::Text(read) && read is Ok),
    ensures
        incoming is Close ==> post == (ConnectionView { state: ConnectionState::Closing, ..pre }),
        !(incoming is Close) ==> post == pre,
        step.progress == match incoming {
            Incoming::Ended => Progress::Finished(Ok(())),
            Incoming::Failed(e) => Progress::Finished(Err(ConnectionError::Websocket(e))),
            _ => Progress::Pending,
        },
        step.notice == match incoming {
            Incoming::Text(Err(e)) => Notice::Undecodable(e),
            _ => Notice::Nothing,
        },
        step.wake <==> !(incoming is Pending),
{
}

/// A request that is taken from the queue and handed to the socket gets its reply:
/// whatever happens after the socket took it, the first frame that carries its number
/// goes to the one who waits, with its payload.
pub proof fn law_sent_requests_are_answered(
    pre: ConnectionView,
    req: ConnectionInternalRequest,
    response_tx: ReplySender,
    mid: ConnectionView,
    begun: SendStep,
    done: SendStep,
    states: Seq<ConnectionView>,
    ts: Seq<Transition>,
    msg: MessageIn,
    reference: String,
    post: ConnectionView,
    step: ReceiveStep,
)
    requires
        pre.valid(),
        sends(pre, SendEvent::Queue(Polled::Item((req, response_tx))), mid, begun),
        sends(mid, SendEvent::RequestStarted(response_tx, Ok(())), states.first(), done),
        is_run(states, ts),
        forall|i: int|
            0 <= i < ts.len() ==> !takes_reference(#[trigger] ts[i], decimal(pre.reference)),
        takes_in(states.last(), Incoming::Text(Ok(msg)), post, step),
        msg.reference == Some(reference),
        reference@ == decimal(pre.reference),
    ensures
        begun.action matches SendAction::StartRequest(text, _) && text@ == message_text(
            req.topic@,
            req.event@,
            json_text(req.payload),
            reference@,
        ),
        step.notice matches Notice::Reply(outcome) && responded(
            response_tx,
            Ok(msg.payload),
            outcome,
        ),
        post == (ConnectionView {
            pending: states.last().pending.remove(reference@),
            ..states.last()
        }),
{
    lemma_request_sent_valid(pre, response_tx);
    law_requests_wait_until_answered(states, ts, reference@);
    law_runs_keep_connections_valid(states, ts);
    law_received_replies_reach_their_request(states.last(), msg, reference, post, step);
}

/// The tasks run in turn, subscriptions first, then sending, then receiving; after the
/// last one the connection rests. Once a task is finished the connection is, too.
pub proof fn law_tasks_run_in_turn(last: Option<(Task, Progress)>)
    ensures
        last is None ==> poll_step(last) == PollStep::Run(Task::Subscriptions),
        last == Some((Task::Subscriptions, Progress::Pending)) ==> poll_step(last)
            == PollStep::Run(Task::Send),
        last == Some((Task::Send, Progress::Pending)) ==> poll_step(last) == PollStep::Run(
            Task::Receive,
        ),
        last == Some((Task::Receive, Progress::Pending)) ==> poll_step(last) == PollStep::Return(
            Progress::Pending,
        ),
        last matches Some((_, progress)) && progress is Finished ==> poll_step(last)
            == PollStep::Return(Progress::Finished(Ok(()))),
{
}

} // verus!

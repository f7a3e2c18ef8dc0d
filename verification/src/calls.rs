//! What a caller can rely on: what each operation takes, and what its results are in
//! terms of what it was given.

use crate::channel::{
    dropped, keep_open, kept, offer_to_all, offered_to_all, responded, send_reply, EventSender,
    Reply, ReplySender,
};
use crate::client::{
    advances, answers, Client, JoinPayload, RequestError, SubscribeAction, SubscribeError,
    SubscribeEvent, SubscribePhase, Subscribing,
};
use crate::connection::{
    carries, fits, poll_step, receives, sends, sync_begins, sync_ends, takes_in,
    takes_subscription, Asked, Connection, ConnectionError, ConnectionInternalRequest,
    ConnectionInternalSubscription, ConnectionState, ConnectionView, Incoming, Notice, PollStep,
    Polled, Progress, ReceiveStep, RequestSendError, SendAction, SendEvent, SendStep,
    SubscriptionStep, Task, WebsocketError, CHANNEL_CAPACITY, HEARTBEAT_INTERVAL_SECS,
};
use crate::json::{escaped, json_text};
use crate::laws::{happens, Transition};
use crate::message::{message_text, MessageIn, MessageOut};
use crate::reference::{decimal, decimal_string};
use crate::subscriber::{attempted, views, Delivery, Subscriber, SubscriberView};
use crate::table::{PendingRequests, Subscriptions, TopicEvent};
use crate::texts::{law_messages_have_four_fields, law_numbers_read_as_written, read_number};
use vstd::prelude::*;

verus! {

/// A client connects to the path `websocket` below its address.
pub proof fn law_clients_connect_to_the_websocket(url: &str, res: String)
    requires
        call_ensures(Client::connect, (url,), res),
    ensures
        res@ == url@ + "/websocket"@,
        call_requires(Client::connect, (url,)),
{
}

/// A join that the server refuses ends with the reason that it gives, whatever that
/// is, and with an empty one where it gives none. Every other status grants the join.
pub proof fn law_joins_end_as_the_server_says(
    payload: JoinPayload,
    res: Result<(), SubscribeError>,
)
    requires
        call_ensures(Client::joined, (payload,), res),
    ensures
        payload.status@ == "error"@ ==> (res matches Err(SubscribeError::Join(reason)) && (
        payload.response.reason matches Some(given) ==> reason@ == given@) && (
        payload.response.reason is None ==> reason@.len() == 0)),
        payload.status@ != "error"@ ==> res == Ok::<(), SubscribeError>(()),
        call_requires(Client::joined, (payload,)),
{
}

/// Only the status decides whether a join is granted, and only the reason what a
/// refusal says.
pub proof fn law_status_decides_and_reason_explains(
    payload: JoinPayload,
    res: Result<(), SubscribeError>,
    other: JoinPayload,
    other_res: Result<(), SubscribeError>,
)
    requires
        call_ensures(Client::joined, (payload,), res),
        call_ensures(Client::joined, (other,), other_res),
        payload.status@ == other.status@,
    ensures
        res is Ok <==> other_res is Ok,
        res is Err && payload.response.reason == other.response.reason ==> (
        res matches Err(SubscribeError::Join(a)) && other_res matches Err(SubscribeError::Join(b))
            && a@ == b@),
{
}

/// A request carries the topic, the event and the payload that it was made with, and
/// is not made where the payload has no JSON value.
pub proof fn law_requests_carry_what_they_are_made_with(
    topic: String,
    event: String,
    payload: Result<serde_json::Value, serde_json::Error>,
    res: Result<ConnectionInternalRequest, RequestError>,
)
    requires
        call_ensures(Client::request, (topic, event, payload), res),
    ensures
        payload matches Ok(value) ==> (res matches Ok(req) && req.topic == topic && req.event
            == event && req.payload == value),
        payload matches Err(e) ==> res == Err::<ConnectionInternalRequest, _>(
            RequestError::SerializePayload(e),
        ),
        call_requires(Client::request, (topic, event, payload)),
{
}

/// A request gets the payload of its reply, the reason why it was not sent, or the news
/// that the connection is gone.
pub proof fn law_requests_get_what_was_replied(
    reply: Option<Reply>,
    res: Result<serde_json::Value, RequestError>,
)
    requires
        call_ensures(Client::request_replied, (reply,), res),
    ensures
        reply matches Some(Ok(payload)) ==> res == Ok::<_, RequestError>(payload),
        reply matches Some(Err(e)) ==> res == Err::<serde_json::Value, _>(RequestError::Send(e)),
        reply is None ==> res == Err::<serde_json::Value, _>(RequestError::ConnectionClosed),
        call_requires(Client::request_replied, (reply,)),
{
}

/// A reply is what was read of it, or the reason why it could not be read.
pub proof fn law_replies_are_what_was_read<R>(
    read: Result<R, serde_json::Error>,
    res: Result<R, RequestError>,
)
    requires
        call_ensures(Client::request_read::<R>, (read,), res),
    ensures
        read matches Ok(payload) ==> res == Ok::<R, RequestError>(payload),
        read matches Err(e) ==> res == Err::<R, _>(RequestError::DeserializePayload(e)),
        call_requires(Client::request_read::<R>, (read,)),
{
}

/// A subscription begins by telling the connection of its own topic, event and channel.
pub proof fn law_subscribing_begins_with_registration(
    topic: &str,
    event: &str,
    sub_tx: EventSender,
    res: (Subscribing, SubscribeAction),
)
    requires
        call_ensures(Client::subscribe, (topic, event, sub_tx), res),
    ensures
        res.0.topic() == topic@,
        res.0.phase() == SubscribePhase::Registering,
        res.1 matches SubscribeAction::Register(registration) && registration.0@ == topic@
            && registration.1@ == event@ && registration.2 == sub_tx,
        call_requires(Client::subscribe, (topic, event, sub_tx)),
{
}

/// Each thing that a subscription under way can be told leads to one next step. Told
/// that it is registered it asks to join its own topic, and once the request is taken
/// it waits; it reads the payload of the reply as it came. The server refuses with the
/// status `error` only, and the reason is passed on as it is. Whatever goes wrong ends
/// the subscription with that.
pub proof fn law_subscribing_goes_step_by_step(
    topic: Seq<char>,
    event: SubscribeEvent,
    phase: SubscribePhase,
    action: SubscribeAction,
)
    requires
        advances(topic, event, phase, action),
    ensures
        event matches SubscribeEvent::Registered(taken) ==> if taken {
            &&& phase == SubscribePhase::Requesting
            &&& action matches SubscribeAction::Request(req)
            &&& req.topic@ == topic
            &&& req.event@ == "phx_join"@
            &&& json_text(req.payload) == "null"@
        } else {
            &&& phase == SubscribePhase::Finished
            &&& action matches SubscribeAction::Return(Err(e))
            &&& e is ConnectionClosed
        },
        event matches SubscribeEvent::Requested(taken) ==> if taken {
            &&& phase == SubscribePhase::Waiting
            &&& action is Wait
        } else {
            &&& phase == SubscribePhase::Finished
            &&& action matches SubscribeAction::Return(Err(SubscribeError::Request(e)))
            &&& e is ConnectionClosed
        },
        event matches SubscribeEvent::Replied(Some(Ok(payload))) ==> phase
            == SubscribePhase::Reading && action == SubscribeAction::Read(payload),
        event matches SubscribeEvent::Replied(Some(Err(e))) ==> phase == SubscribePhase::Finished
            && action == SubscribeAction::Return(
            Err(SubscribeError::Request(RequestError::Send(e))),
        ),
        event matches SubscribeEvent::Replied(None) ==> {
            &&& phase == SubscribePhase::Finished
            &&& action matches SubscribeAction::Return(Err(SubscribeError::Request(e)))
            &&& e is ConnectionClosed
        },
        event matches SubscribeEvent::Read(Err(e)) ==> phase == SubscribePhase::Finished && action
            == SubscribeAction::Return(
            Err(SubscribeError::Request(RequestError::DeserializePayload(e))),
        ),
        event matches SubscribeEvent::Read(Ok(payload)) ==> {
            &&& phase == SubscribePhase::Finished
            &&& payload.status@ != "error"@ ==> action == SubscribeAction::Return(Ok(()))
            &&& payload.status@ == "error"@ ==> {
                &&& action matches SubscribeAction::Return(Err(SubscribeError::Join(reason)))
                &&& payload.response.reason matches Some(given) ==> reason@ == given@
                &&& payload.response.reason is None ==> reason@.len() == 0
            }
        },
{
}

/// A subscription under way is told only what it waits for, one thing in each phase.
pub proof fn law_phases_wait_for_one_thing(event: SubscribeEvent, phase: SubscribePhase)
    ensures
        answers(event, phase) <==> match phase {
            SubscribePhase::Registering => event is Registered,
            SubscribePhase::Requesting => event is Requested,
            SubscribePhase::Waiting => event is Replied,
            SubscribePhase::Reading => event is Read,
            SubscribePhase::Finished => false,
        },
{
}

/// A subscription under way takes everything that it waits for, goes on from there, and
/// stays one to the same topic.
pub proof fn law_subscribing_keeps_its_topic(
    s: &mut Subscribing,
    event: SubscribeEvent,
    res: SubscribeAction,
)
    requires
        call_ensures(Subscribing::advance, (s, event), res),
    ensures
        final(s).topic() == old(s).topic(),
        advances(old(s).topic(), event, final(s).phase(), res),
        answers(event, old(s).phase()) ==> call_requires(Subscribing::advance, (s, event)),
{
}

/// The request to join is for the topic of the subscription and carries the payload
/// that it was given; without one the subscription ends.
pub proof fn law_join_requests_are_for_the_topic(
    s: &mut Subscribing,
    payload: Result<serde_json::Value, serde_json::Error>,
    res: SubscribeAction,
)
    requires
        call_ensures(Subscribing::join, (s, payload), res),
    ensures
        final(s).topic() == old(s).topic(),
        payload matches Ok(value) ==> {
            &&& final(s).phase() == SubscribePhase::Requesting
            &&& res matches SubscribeAction::Request(req)
            &&& req.topic@ == old(s).topic()
            &&& req.event@ == "phx_join"@
            &&& req.payload == value
        },
        payload matches Err(e) ==> {
            &&& final(s).phase() == SubscribePhase::Finished
            &&& res == SubscribeAction::Return(
                Err(SubscribeError::Request(RequestError::SerializePayload(e))),
            )
        },
        old(s).phase() == SubscribePhase::Registering ==> call_requires(
            Subscribing::join,
            (s, payload),
        ),
{
}

/// A number is written so that it reads as that number.
pub proof fn law_written_numbers_read_back(n: u64, res: String)
    requires
        call_ensures(decimal_string, (n,), res),
    ensures
        read_number(res@) == n,
        forall|i: int| 0 <= i < res@.len() ==> '0' <= #[trigger] res@[i] <= '9',
        res@.len() > 0,
        res@[0] == '0' ==> res@.len() == 1,
        call_requires(decimal_string, (n,)),
{
    law_numbers_read_as_written(n as nat);
}

/// A message is written as one JSON object of its own topic, event, payload and
/// reference, and this never fails.
pub proof fn law_messages_are_written_whole(
    msg: MessageOut,
    res: Result<String, serde_json::Error>,
)
    requires
        call_ensures(MessageOut::to_json, (&msg,), res),
    ensures
        res matches Ok(text) && text@ == "{\"topic\":\""@ + escaped(msg.topic@)
            + "\",\"event\":\""@ + escaped(msg.event@) + "\",\"payload\":"@ + json_text(msg.payload)
            + ",\"ref\":\""@ + escaped(msg.reference@) + "\"}"@,
        call_requires(MessageOut::to_json, (&msg,)),
{
    law_messages_have_four_fields(
        msg.topic@,
        msg.event@,
        json_text(msg.payload),
        msg.reference@,
    );
}

/// A reply is handed to its channel, once, and comes back unchanged where nobody waits
/// for it.
pub proof fn law_replies_go_to_their_channel(
    sender: ReplySender,
    reply: Reply,
    res: Result<(), Reply>,
)
    requires
        call_ensures(send_reply, (sender, reply), res),
    ensures
        responded(sender, reply, res),
        res matches Err(back) ==> back == reply,
        call_requires(send_reply, (sender, reply)),
{
}

/// An offer goes to the subscription's own channel, and the record says what came of
/// it.
pub proof fn law_offers_go_to_their_channel(
    s: &mut Subscriber,
    payload: serde_json::Value,
    res: Delivery,
)
    requires
        call_ensures(Subscriber::offer, (s, &payload), res),
    ensures
        attempted(old(s)@.tx, payload, res),
        final(s)@.tx == old(s)@.tx,
        final(s)@.log == old(s)@.log.push((payload, res)),
        call_requires(Subscriber::offer, (s, &payload)),
{
}

/// A new subscriber has the channel that it was made with.
pub proof fn law_subscribers_have_their_channel(tx: EventSender, res: Subscriber)
    requires
        call_ensures(Subscriber::new, (tx,), res),
    ensures
        res@.tx == tx,
        res@.log.len() == 0,
        call_requires(Subscriber::new, (tx,)),
{
}

/// Every subscriber of a list is offered the payload, once and in order, and none is
/// added or lost.
pub proof fn law_every_subscriber_is_offered(
    list: &mut Vec<Subscriber>,
    payload: serde_json::Value,
    outcomes: Vec<Delivery>,
    i: int,
)
    requires
        call_ensures(offer_to_all, (list, &payload), outcomes),
        0 <= i < old(list)@.len(),
    ensures
        final(list)@.len() == old(list)@.len(),
        outcomes@.len() == old(list)@.len(),
        attempted(old(list)@[i]@.tx, payload, outcomes@[i]),
        final(list)@[i]@.tx == old(list)@[i]@.tx,
        final(list)@[i]@.log == old(list)@[i]@.log.push((payload, outcomes@[i])),
        call_requires(offer_to_all, (list, &payload)),
{
    assert(views(final(list)@)[i] == final(list)@[i]@);
    assert(views(old(list)@)[i] == old(list)@[i]@);
}

/// The senders that turned out to be closed are taken out and handed back, the others
/// stay.
pub proof fn law_closed_senders_are_taken_out<S>(
    senders: &mut Vec<S>,
    outcomes: Vec<Delivery>,
    gone: Vec<S>,
)
    requires
        call_ensures(keep_open::<S>, (senders, &outcomes), gone),
    ensures
        final(senders)@ == kept(old(senders)@, outcomes@),
        gone@ == dropped(old(senders)@, outcomes@),
        old(senders)@.len() == outcomes@.len() ==> call_requires(
            keep_open::<S>,
            (senders, &outcomes),
        ),
{
}

/// A request that was noted under a reference is found under it, and only there; what
/// waited there before is handed out. Once taken out, it is gone.
pub proof fn law_noted_requests_are_found(
    p: &mut PendingRequests,
    reference: String,
    response_tx: ReplySender,
    replaced: Option<ReplySender>,
    q: &mut PendingRequests,
    asked: String,
    found: Option<ReplySender>,
    r: &mut PendingRequests,
    again: Option<ReplySender>,
)
    requires
        old(p).wf(),
        call_ensures(PendingRequests::insert, (p, reference, response_tx), replaced),
        *old(q) == *final(p),
        call_ensures(PendingRequests::remove, (q, &asked), found),
        *old(r) == *final(q),
        call_ensures(PendingRequests::remove, (r, &asked), again),
    ensures
        asked@ == reference@ ==> found == Some(response_tx),
        asked@ != reference@ && old(p)@.contains_key(asked@) ==> found == Some(
            old(p)@[asked@],
        ),
        asked@ != reference@ && !old(p)@.contains_key(asked@) ==> found is None,
        again is None,
        replaced == (if old(p)@.contains_key(reference@) {
            Some(old(p)@[reference@])
        } else {
            None
        }),
        call_requires(PendingRequests::insert, (p, reference, response_tx)),
        call_requires(PendingRequests::remove, (q, &asked)),
        call_requires(PendingRequests::remove, (r, &asked)),
{
}

/// In a new table nothing is found.
pub proof fn law_new_tables_are_empty(
    pending: PendingRequests,
    subscriptions: Subscriptions,
    p: &mut PendingRequests,
    reference: String,
    found: Option<ReplySender>,
    s: &mut Subscriptions,
    topic: String,
    event: String,
    payload: serde_json::Value,
    published: Option<(Vec<Delivery>, Vec<Subscriber>)>,
)
    requires
        call_ensures(PendingRequests::new, (), pending),
        call_ensures(Subscriptions::new, (), subscriptions),
        *old(p) == pending,
        *old(s) == subscriptions,
        call_ensures(PendingRequests::remove, (p, &reference), found),
        call_ensures(Subscriptions::publish, (s, &topic, &event, &payload), published),
    ensures
        found is None,
        published is None,
        call_requires(PendingRequests::remove, (p, &reference)),
        call_requires(Subscriptions::publish, (s, &topic, &event, &payload)),
{
}

/// A subscription that was added is offered the next event of its topic and name, last
/// in the list and through its own channel; an event of another topic or name leaves it
/// alone.
pub proof fn law_added_subscriptions_are_offered_events(
    s: &mut Subscriptions,
    topic: String,
    event: String,
    sender: EventSender,
    t: &mut Subscriptions,
    other_topic: String,
    other_event: String,
    payload: serde_json::Value,
    published: Option<(Vec<Delivery>, Vec<Subscriber>)>,
)
    requires
        old(s).wf(),
        call_ensures(Subscriptions::insert, (s, topic, event, sender), ()),
        *old(t) == *final(s),
        call_ensures(Subscriptions::publish, (t, &other_topic, &other_event, &payload), published),
    ensures
        (other_topic@, other_event@) == (topic@, event@) ==> {
            &&& published matches Some((outcomes, _))
            &&& outcomes@.len() > 0
            &&& attempted(sender, payload, outcomes@.last())
        },
        (other_topic@, other_event@) != (topic@, event@) ==> {
            &&& final(t)@.contains_key((topic@, event@))
            &&& final(t)@[(topic@, event@)].last() == (SubscriberView {
                tx: sender,
                log: Seq::empty(),
            })
        },
        call_requires(Subscriptions::insert, (s, topic, event, sender)),
        call_requires(Subscriptions::publish, (t, &other_topic, &other_event, &payload)),
{
    let key = (topic@, event@);
    assert(final(s)@[key].last() == SubscriberView::fresh(sender));
    if (other_topic@, other_event@) == key {
        let outcomes = published->Some_0.0;
        let last = outcomes@.len() - 1;
        assert(attempted(final(s)@[key][last].tx, payload, outcomes@[last]));
    }
}

/// A subscription that was added stands behind those of its topic and event, and no
/// other is touched.
pub proof fn law_subscriptions_are_added_last(
    s: &mut Subscriptions,
    topic: String,
    event: String,
    sender: EventSender,
    other: TopicEvent,
)
    requires
        call_ensures(Subscriptions::insert, (s, topic, event, sender), ()),
        other != (topic@, event@),
    ensures
        final(s)@.contains_key((topic@, event@)),
        final(s)@[(topic@, event@)] == (if old(s)@.contains_key((topic@, event@)) {
            old(s)@[(topic@, event@)]
        } else {
            Seq::empty()
        }).push(SubscriberView { tx: sender, log: Seq::empty() }),
        final(s)@.contains_key(other) <==> old(s)@.contains_key(other),
        old(s)@.contains_key(other) ==> final(s)@[other] == old(s)@[other],
{
}

/// An event is offered to the subscriptions of its topic and name and to no others, and
/// those that turn out to be closed are handed out.
pub proof fn law_events_go_to_their_subscriptions(
    s: &mut Subscriptions,
    topic: String,
    event: String,
    payload: serde_json::Value,
    published: Option<(Vec<Delivery>, Vec<Subscriber>)>,
    other: TopicEvent,
)
    requires
        call_ensures(Subscriptions::publish, (s, &topic, &event, &payload), published),
        other != (topic@, event@),
    ensures
        published is Some <==> old(s)@.contains_key((topic@, event@)),
        published is None ==> final(s)@ == old(s)@,
        published matches Some((outcomes, gone)) ==> {
            let list = old(s)@[(topic@, event@)];
            let offered = Seq::new(
                list.len(),
                |i: int|
                    SubscriberView {
                        tx: list[i].tx,
                        log: list[i].log.push((payload, outcomes@[i])),
                    },
            );
            &&& outcomes@.len() == list.len()
            &&& forall|i: int|
                0 <= i < list.len() ==> attempted(list[i].tx, payload, #[trigger] outcomes@[i])
            &&& final(s)@.contains_key((topic@, event@))
            &&& final(s)@[(topic@, event@)] == kept(offered, outcomes@)
            &&& views(gone@) == dropped(offered, outcomes@)
        },
        final(s)@.contains_key(other) <==> old(s)@.contains_key(other),
        old(s)@.contains_key(other) ==> final(s)@[other] == old(s)@[other],
{
    if let Some((outcomes, _)) = published {
        let list = old(s)@[(topic@, event@)];
        let offered = Seq::new(
            list.len(),
            |i: int|
                SubscriberView { tx: list[i].tx, log: list[i].log.push((payload, outcomes@[i])) },
        );
        assert(offered_to_all(list, payload, outcomes@) =~= offered);
    }
}

/// A new connection has sent nothing, waits for nothing and has no subscription.
pub proof fn law_new_connections_are_empty(c: Connection, reference: Seq<char>, key: TopicEvent)
    requires
        call_ensures(Connection::new, (), c),
    ensures
        c.wf(),
        c@ == ConnectionView::initial(),
        c@.state == ConnectionState::Unknown,
        c@.reference == 0,
        c@.heartbeat is None,
        c@.asked is Nothing,
        !c@.pending.contains_key(reference),
        !c@.subscriptions.contains_key(key),
{
}

/// A connection says truly which state it is in and what the next number is.
pub proof fn law_connections_say_where_they_are(
    c: Connection,
    state: ConnectionState,
    reference: u64,
)
    requires
        call_ensures(Connection::state, (&c,), state),
        call_ensures(Connection::reference, (&c,), reference),
    ensures
        state == c@.state,
        reference == c@.reference,
{
}

/// Each task takes everything that it can be told while it is its turn.
pub proof fn law_tasks_take_what_they_are_told(
    c: &mut Connection,
    polled: Polled<ConnectionInternalSubscription>,
    event: SendEvent,
    incoming: Incoming,
    msg: MessageIn,
)
    requires
        old(c).wf(),
    ensures
        old(c)@.asked is Nothing ==> call_requires(
            Connection::poll_subscription_receiver,
            (c, polled),
        ),
        fits(old(c)@, event) ==> call_requires(Connection::poll_send, (c, event)),
        old(c)@.asked is Nothing ==> call_requires(
            Connection::poll_request_receiver,
            (c, incoming),
        ),
        call_requires(Connection::receive, (c, msg)),
{
}

/// A run of the subscription task is a step of the connection.
pub proof fn law_taking_subscriptions_is_a_step(
    c: &mut Connection,
    polled: Polled<ConnectionInternalSubscription>,
    step: SubscriptionStep,
)
    requires
        old(c)@.asked is Nothing,
        call_ensures(Connection::poll_subscription_receiver, (c, polled), step),
    ensures
        final(c).wf(),
        takes_subscription(old(c)@, polled, final(c)@, step),
        happens(old(c)@, Transition::Subscription(polled, step), final(c)@),
{
}

/// A run of the sending task is a step of the connection.
pub proof fn law_sending_is_a_step(c: &mut Connection, event: SendEvent, step: SendStep)
    requires
        fits(old(c)@, event),
        call_ensures(Connection::poll_send, (c, event), step),
    ensures
        final(c).wf(),
        sends(old(c)@, event, final(c)@, step),
        happens(old(c)@, Transition::Send(event, step), final(c)@),
{
}

/// A run of the receiving task is a step of the connection.
pub proof fn law_receiving_is_a_step(c: &mut Connection, incoming: Incoming, step: ReceiveStep)
    requires
        old(c)@.asked is Nothing,
        call_ensures(Connection::poll_request_receiver, (c, incoming), step),
    ensures
        final(c).wf(),
        takes_in(old(c)@, incoming, final(c)@, step),
        happens(old(c)@, Transition::Receive(incoming, step), final(c)@),
{
}

/// What a message comes to does not depend on whether it is handed in by itself.
pub proof fn law_messages_are_taken_in(c: &mut Connection, msg: MessageIn, notice: Notice)
    requires
        call_ensures(Connection::receive, (c, msg), notice),
    ensures
        final(c).wf(),
        receives(old(c)@, msg, final(c)@, notice),
        takes_in(
            old(c)@,
            Incoming::Text(Ok(msg)),
            final(c)@,
            ReceiveStep { wake: true, progress: Progress::Pending, notice },
        ),
{
}

/// The connection says what comes next as the tasks run in turn.
pub proof fn law_polling_runs_the_tasks(last: Option<(Task, Progress)>, res: PollStep)
    requires
        call_ensures(Connection::poll, (last,), res),
    ensures
        res == poll_step(last),
        call_requires(Connection::poll, (last,)),
{
}

/// A request is handed to the socket under its own topic and event, with its own
/// payload and the next number, for the one who waits; nothing else changes.
pub proof fn law_requests_are_handed_to_the_socket(
    c: &mut Connection,
    req: ConnectionInternalRequest,
    response_tx: ReplySender,
    step: SendStep,
)
    requires
        call_ensures(Connection::send_request, (c, req, response_tx), step),
    ensures
        final(c).wf(),
        step.action matches SendAction::StartRequest(text, tx) && {
            &&& text@ == message_text(
                req.topic@,
                req.event@,
                json_text(req.payload),
                decimal(old(c)@.reference),
            )
            &&& tx == response_tx
            &&& final(c)@ == (ConnectionView {
                asked: Asked::Request(text@, response_tx),
                ..old(c)@
            })
        },
        step.wake,
        step.refusal is None,
        old(c).wf() && old(c)@.may_start() ==> call_requires(
            Connection::send_request,
            (c, req, response_tx),
        ),
{
}

/// A request without a text is refused with the reason, and one with a text is handed
/// to the socket with exactly that text.
pub proof fn law_requests_without_text_are_refused(
    c: &mut Connection,
    json: Result<String, serde_json::Error>,
    response_tx: ReplySender,
    step: SendStep,
)
    requires
        call_ensures(Connection::request_encoded, (c, json, response_tx), step),
    ensures
        final(c).wf(),
        step.wake,
        json matches Ok(text) ==> {
            &&& step.action == SendAction::StartRequest(text, response_tx)
            &&& step.refusal is None
            &&& final(c)@ == (ConnectionView {
                asked: Asked::Request(text@, response_tx),
                ..old(c)@
            })
        },
        json matches Err(e) ==> {
            &&& step.action == SendAction::Return(Progress::Pending)
            &&& step.refusal matches Some(outcome)
            &&& responded(
                response_tx,
                Err(RequestSendError::InvalidMessageOutJson(e)),
                outcome,
            )
            &&& outcome matches Err(back) ==> back == Err::<serde_json::Value, _>(
                RequestSendError::InvalidMessageOutJson(e),
            )
            &&& final(c)@ == (ConnectionView {
                state: ConnectionState::Unknown,
                asked: Asked::Nothing,
                ..old(c)@
            })
        },
        old(c).wf() && old(c)@.may_start() && (json matches Ok(text) ==> carries(
            text@,
            old(c)@.reference,
        )) ==> call_requires(Connection::request_encoded, (c, json, response_tx)),
{
}

/// What comes of a request once the socket has answered is a step of the sending task,
/// and so is what comes of a heartbeat.
pub proof fn law_answers_of_the_socket_are_steps(
    c: &mut Connection,
    response_tx: ReplySender,
    started: Result<(), WebsocketError>,
    step: SendStep,
    d: &mut Connection,
    beat: SendStep,
)
    requires
        call_ensures(Connection::request_started, (c, response_tx, started), step),
        call_ensures(Connection::heartbeat_started, (d, started), beat),
    ensures
        final(c).wf(),
        final(d).wf(),
        sends(old(c)@, SendEvent::RequestStarted(response_tx, started), final(c)@, step),
        sends(old(d)@, SendEvent::HeartbeatStarted(started), final(d)@, beat),
        old(c).wf() && fits(old(c)@, SendEvent::RequestStarted(response_tx, started))
            ==> call_requires(Connection::request_started, (c, response_tx, started)),
        old(d).wf() && fits(old(d)@, SendEvent::HeartbeatStarted(started)) ==> call_requires(
            Connection::heartbeat_started,
            (d, started),
        ),
{
    if old(c).wf() {
        old(c).lemma_valid();
    }
    if old(d).wf() {
        old(d).lemma_valid();
    }
}

/// The text of a message that nobody waits for is that of its own topic, event and
/// payload with the next number.
pub proof fn law_unawaited_messages_are_handed_to_the_socket(
    c: &mut Connection,
    req: ConnectionInternalRequest,
    res: Result<String, RequestSendError>,
)
    requires
        call_ensures(Connection::send_request_sync, (c, req), res),
    ensures
        final(c).wf(),
        res matches Ok(text) && {
            &&& text@ == message_text(
                req.topic@,
                req.event@,
                json_text(req.payload),
                decimal(old(c)@.reference),
            )
            &&& final(c)@ == (ConnectionView { asked: Asked::Message(text@), ..old(c)@ })
            &&& sync_begins(old(c)@, req, final(c)@, text@)
        },
        old(c).wf() && old(c)@.may_start() ==> call_requires(
            Connection::send_request_sync,
            (c, req),
        ),
{
}

/// Without a text a message that nobody waits for fails with the reason and changes
/// nothing; with one, that text is handed on.
pub proof fn law_unawaited_messages_need_a_text(
    c: &mut Connection,
    json: Result<String, serde_json::Error>,
    res: Result<String, RequestSendError>,
)
    requires
        call_ensures(Connection::send_request_sync_encoded, (c, json), res),
    ensures
        final(c).wf(),
        json matches Ok(text) ==> res == Ok::<_, RequestSendError>(text) && final(c)@ == (
        ConnectionView { asked: Asked::Message(text@), ..old(c)@ }),
        json matches Err(e) ==> res == Err::<String, _>(
            RequestSendError::InvalidMessageOutJson(e),
        ) && final(c)@ == old(c)@,
        old(c).wf() && old(c)@.may_start() && (json matches Ok(text) ==> carries(
            text@,
            old(c)@.reference,
        )) ==> call_requires(Connection::send_request_sync_encoded, (c, json)),
{
}

/// A message that nobody waits for is counted where the socket takes it, and fails with
/// the error of the socket otherwise.
pub proof fn law_unawaited_messages_are_counted(
    c: &mut Connection,
    started: Result<(), WebsocketError>,
    res: Result<(), RequestSendError>,
)
    requires
        call_ensures(Connection::send_request_sync_started, (c, started), res),
    ensures
        final(c).wf(),
        sync_ends(old(c)@, started, final(c)@, res),
        started is Ok ==> res is Ok && final(c)@ == (ConnectionView {
            reference: old(c)@.reference + 1,
            asked: Asked::Nothing,
            ..old(c)@
        }),
        started matches Err(e) ==> res == Err::<(), _>(RequestSendError::Send(e)) && final(c)@ == (
        ConnectionView { asked: Asked::Nothing, ..old(c)@ }),
        old(c).wf() && fits(old(c)@, SendEvent::HeartbeatStarted(started)) ==> call_requires(
            Connection::send_request_sync_started,
            (c, started),
        ),
{
    if old(c).wf() {
        old(c).lemma_valid();
    }
}

/// A heartbeat is the message of the event `heartbeat` to the topic `phoenix`, without
/// a payload and with the next number, whatever that number is.
pub proof fn law_heartbeats_are_handed_to_the_socket(c: &mut Connection, step: SendStep)
    requires
        call_ensures(Connection::send_heartbeat, (c,), step),
    ensures
        final(c).wf(),
        step.action matches SendAction::StartHeartbeat(text) && {
            &&& text@ == message_text(
                "phoenix"@,
                "heartbeat"@,
                "null"@,
                decimal(old(c)@.reference),
            )
            &&& final(c)@ == (ConnectionView { asked: Asked::Message(text@), ..old(c)@ })
        },
        step.wake,
        step.refusal is None,
        old(c).wf() && old(c)@.may_start() ==> call_requires(Connection::send_heartbeat, (c,)),
{
}

/// Without a text for its heartbeat the connection fails; with one, that text is handed
/// to the socket.
pub proof fn law_heartbeats_need_a_text(
    c: &mut Connection,
    json: Result<String, RequestSendError>,
    step: SendStep,
)
    requires
        call_ensures(Connection::heartbeat_encoded, (c, json), step),
    ensures
        final(c).wf(),
        step.wake,
        step.refusal is None,
        json matches Ok(text) ==> step.action == SendAction::StartHeartbeat(text) && final(c)@ == (
        ConnectionView { asked: Asked::Message(text@), ..old(c)@ }),
        json is Err ==> step.action == SendAction::Return(
            Progress::Finished(Err(ConnectionError::Heartbeat)),
        ) && final(c)@ == (ConnectionView { asked: Asked::Nothing, ..old(c)@ }),
        old(c).wf() && old(c)@.state == ConnectionState::Ready && (json matches Ok(text)
            ==> old(c)@.asked == Asked::Message(text@)) ==> call_requires(
            Connection::heartbeat_encoded,
            (c, json),
        ),
{
}

/// A message can be handed to the socket when it has room and the timer or the queue
/// was asked.
pub proof fn law_messages_start_when_there_is_room(pre: ConnectionView)
    ensures
        pre.may_start() <==> pre.state == ConnectionState::Ready && (pre.asked is Timer
            || pre.asked is Queue),
{
}

/// Each queue and each subscription has room for one, and a heartbeat is due every
/// thirty seconds.
pub proof fn law_room_and_interval()
    ensures
        CHANNEL_CAPACITY == 1,
        HEARTBEAT_INTERVAL_SECS == 30,
{
}

} // verus!

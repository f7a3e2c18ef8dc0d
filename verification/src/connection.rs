//! The state of one connection, and what it does next.
//!
//! Three tasks are run in turn on a connection, see [`Connection::poll`]: taking
//! in new subscriptions, sending, and receiving. Each tells the connection what
//! the socket, the timer or a queue answered, and gets back what to do.

use crate::channel::{
    attempted_on_all, dropped, kept, offered_to_all, responded, send_reply, EventSender, Reply,
    ReplySender,
};
use crate::json::{json_text, null_value};
use crate::message::{message_text, MessageIn, MessageOut};
use crate::reference::{decimal, decimal_string, issued, lemma_decimal_injective};
use crate::subscriber::{views, Delivery, Subscriber, SubscriberView};
use crate::table::{subscribers, PendingRequests, Subscriptions, TopicEvent};
use vstd::prelude::*;

verus! {

/// Room in the queues of requests and subscriptions, and in the channel of each
/// subscription.
pub const CHANNEL_CAPACITY: usize = 1;

/// Seconds between two heartbeats.
pub const HEARTBEAT_INTERVAL_SECS: u64 = 30;

#[verifier::external_type_specification]
#[verifier::external_body]
pub struct ExWebsocketError(tokio_tungstenite::tungstenite::Error);

/// Why the socket failed.
pub type WebsocketError = tokio_tungstenite::tungstenite::Error;

/// Why a request was not sent.
#[derive(Debug)]
pub enum RequestSendError {
    /// The message has no JSON text.
    InvalidMessageOutJson(serde_json::Error),
    /// The socket refused the message.
    Send(WebsocketError),
}

/// Why a connection failed.
#[derive(Debug)]
pub enum ConnectionError {
    /// A heartbeat could not be sent.
    Heartbeat,
    /// The socket failed.
    Websocket(WebsocketError),
}

/// A request that is to be sent.
pub struct ConnectionInternalRequest {
    pub topic: String,
    pub event: String,
    pub payload: serde_json::Value,
}

/// A topic, one of its events, and where the payloads of that event go.
pub type ConnectionInternalSubscription = (String, String, EventSender);

/// How far the sending side is.
#[derive(Clone, Copy, Debug, PartialEq, Eq, Structural)]
pub enum ConnectionState {
    /// The socket may not be ready for a message.
    Unknown,
    /// The socket takes one message.
    Ready,
    /// The socket is being closed.
    Closing,
    /// The socket is closed.
    Closed,
}

/// What a queue answered.
pub enum Polled<T> {
    /// Nothing yet.
    Pending,
    /// Nothing any more.
    Closed,
    Item(T),
}

/// What the socket answered when asked for room for one message.
pub enum SinkPoll {
    Pending,
    Ready,
    Failed(WebsocketError),
}

/// What the socket answered when asked for a frame.
pub enum Incoming {
    /// Nothing yet.
    Pending,
    /// Nothing any more.
    Ended,
    Failed(WebsocketError),
    /// A text frame: the message in it, or why there is none.
    Text(Result<MessageIn, serde_json::Error>),
    /// A close frame.
    Close,
    /// A frame of another kind.
    Other,
}

/// Where a task stands.
#[derive(Debug)]
pub enum Progress {
    Pending,
    Finished(Result<(), ConnectionError>),
}

/// What the sending task has learned.
pub enum SendEvent {
    /// It begins.
    Poll,
    /// The answer to [`SendAction::PollSink`].
    Sink(SinkPoll),
    /// The answer to [`SendAction::PollTimer`]: whether a heartbeat is due.
    Timer(bool),
    /// The answer to [`SendAction::PollQueue`].
    Queue(Polled<(ConnectionInternalRequest, ReplySender)>),
    /// Whether the socket took the text of [`SendAction::StartHeartbeat`].
    HeartbeatStarted(Result<(), WebsocketError>),
    /// Whether the socket took the text of [`SendAction::StartRequest`].
    RequestStarted(ReplySender, Result<(), WebsocketError>),
    /// The answer to [`SendAction::PollClose`]: whether the socket is closed.
    Close(bool),
}

/// What the sending task is to do.
pub enum SendAction {
    /// Ask the socket for room for one message.
    PollSink,
    /// Ask the timer whether a heartbeat is due.
    PollTimer,
    /// Ask the queue for a request.
    PollQueue,
    /// Hand this text to the socket.
    StartHeartbeat(String),
    /// Hand this text to the socket, for the request that waits here.
    StartRequest(String, ReplySender),
    /// Go on closing the socket.
    PollClose,
    /// End.
    Return(Progress),
}

/// What the sending task is to do, whether it has to run again soon, and what came
/// of answering a request that was not sent.
pub struct SendStep {
    pub wake: bool,
    pub action: SendAction,
    /// The answer is given back where nobody waits for it.
    pub refusal: Option<Result<(), Reply>>,
}

/// Where the subscription task stands, and whether it has to run again soon.
pub struct SubscriptionStep {
    pub wake: bool,
    pub progress: Progress,
}

/// What became of a frame.
pub enum Notice {
    /// Nothing was to be done with it.
    Nothing,
    /// It holds no message.
    Undecodable(serde_json::Error),
    /// It answers the heartbeat.
    HeartbeatReply,
    /// It answers a request; the reply is given back where nobody waits for it.
    Reply(Result<(), Reply>),
    /// It answers something that does not wait for an answer.
    NotPending,
    /// It is an event, which the subscriptions answered so; those whose receiver is
    /// gone are taken out.
    Event(Vec<Delivery>, Vec<Subscriber>),
    /// It is an event that nobody subscribed to.
    NoSubscription,
}

/// Where the receiving task stands, whether it has to run again soon, and what
/// became of the frame.
pub struct ReceiveStep {
    pub wake: bool,
    pub progress: Progress,
    pub notice: Notice,
}

/// The three tasks.
#[derive(Clone, Copy, Debug, PartialEq, Eq, Structural)]
pub enum Task {
    Subscriptions,
    Send,
    Receive,
}

/// What to do with the connection as a whole.
#[derive(Debug)]
pub enum PollStep {
    Run(Task),
    Return(Progress),
}

/// What the sending task waits to be told.
pub enum Asked {
    /// It is at rest.
    Nothing,
    /// Whether the socket has room.
    Sink,
    /// Whether a heartbeat is due.
    Timer,
    /// What is in the queue of requests.
    Queue,
    /// Whether the socket takes this text, for which nobody waits.
    Message(Seq<char>),
    /// Whether the socket takes this text, for the request that waits here.
    Request(Seq<char>, ReplySender),
    /// Whether the socket is closed.
    Close,
}

/// What the sending task waits to be told once it has to do `action`.
pub open spec fn asks(action: SendAction) -> Asked {
    match action {
        SendAction::PollSink => Asked::Sink,
        SendAction::PollTimer => Asked::Timer,
        SendAction::PollQueue => Asked::Queue,
        SendAction::StartHeartbeat(text) => Asked::Message(text@),
        SendAction::StartRequest(text, response_tx) => Asked::Request(text@, response_tx),
        SendAction::PollClose => Asked::Close,
        SendAction::Return(_) => Asked::Nothing,
    }
}

/// `text` is a message with the given number.
pub open spec fn carries(text: Seq<char>, reference: nat) -> bool {
    exists|topic: Seq<char>, event: Seq<char>, payload: Seq<char>|
        text == #[trigger] message_text(topic, event, payload, decimal(reference))
}

/// What a connection is, seen from outside.
#[verifier::ext_equal]
pub struct ConnectionView {
    pub state: ConnectionState,
    /// Who waits for the reply to which reference.
    pub pending: Map<Seq<char>, ReplySender>,
    /// Who gets the events of which topic.
    pub subscriptions: Map<TopicEvent, Seq<SubscriberView>>,
    /// The reference of the last heartbeat, as long as it is not answered.
    pub heartbeat: Option<Seq<char>>,
    /// The number of the next message.
    pub reference: nat,
    /// What the sending task waits to be told.
    pub asked: Asked,
}

impl ConnectionView {
    pub open spec fn initial() -> Self {
        ConnectionView {
            state: ConnectionState::Unknown,
            pending: Map::empty(),
            subscriptions: Map::empty(),
            heartbeat: None,
            reference: 0,
            asked: Asked::Nothing,
        }
    }

    /// What the sending task waits to be told belongs to the state, and a text that
    /// the socket has not taken yet carries the next number.
    pub open spec fn asked_in_place(self) -> bool {
        match self.asked {
            Asked::Nothing => true,
            Asked::Sink => self.state == ConnectionState::Unknown,
            Asked::Timer => self.state == ConnectionState::Ready,
            Asked::Queue => self.state == ConnectionState::Ready,
            Asked::Message(text) => self.state == ConnectionState::Ready && carries(
                text,
                self.reference,
            ),
            Asked::Request(text, _) => self.state == ConnectionState::Ready && carries(
                text,
                self.reference,
            ),
            Asked::Close => self.state == ConnectionState::Closing,
        }
    }

    /// Everything that waits for an answer does so under a reference that was
    /// handed out, and the heartbeat under another one than any request; finitely
    /// many requests wait.
    pub open spec fn valid(self) -> bool {
        &&& self.asked_in_place()
        &&& self.pending.dom().finite()
        &&& forall|r: Seq<char>| #[trigger]
            self.pending.contains_key(r) ==> issued(r, self.reference)
        &&& self.heartbeat matches Some(r) ==> issued(r, self.reference)
            && !self.pending.contains_key(r)
    }

    pub open spec fn with_state(self, state: ConnectionState) -> Self {
        ConnectionView { state, ..self }
    }

    pub open spec fn asking(self, asked: Asked) -> Self {
        ConnectionView { asked, ..self }
    }

    /// Whether a message can be handed to the socket: it has room, and none is on
    /// its way.
    pub open spec fn may_start(self) -> bool {
        &&& self.state == ConnectionState::Ready
        &&& self.asked is Timer || self.asked is Queue
    }

    /// With `sender` behind the other subscriptions of the topic and event.
    pub open spec fn subscribed(self, key: TopicEvent, sender: EventSender) -> Self {
        ConnectionView {
            subscriptions: self.subscriptions.insert(
                key,
                subscribers(self.subscriptions, key).push(SubscriberView::fresh(sender)),
            ),
            ..self
        }
    }

    /// After the socket took a message that nobody waits for.
    pub open spec fn message_sent(self) -> Self {
        ConnectionView { reference: self.reference + 1, asked: Asked::Nothing, ..self }
    }

    /// After the socket took a heartbeat.
    pub open spec fn heartbeat_sent(self) -> Self {
        ConnectionView {
            state: ConnectionState::Unknown,
            heartbeat: Some(decimal(self.reference)),
            ..self.message_sent()
        }
    }

    /// After the socket took a request, for which `response_tx` waits.
    pub open spec fn request_sent(self, response_tx: ReplySender) -> Self {
        ConnectionView {
            state: ConnectionState::Unknown,
            pending: self.pending.insert(decimal(self.reference), response_tx),
            ..self.message_sent()
        }
    }
}

/// The text of the heartbeat with the given number.
pub open spec fn heartbeat_text(reference: nat) -> Seq<char> {
    message_text("phoenix"@, "heartbeat"@, "null"@, decimal(reference))
}

/// The text of `req` as the message with the given number.
pub open spec fn request_text(req: ConnectionInternalRequest, reference: nat) -> Seq<char> {
    message_text(req.topic@, req.event@, json_text(req.payload), decimal(reference))
}

/// What the sending task is to poll first.
pub open spec fn first_action(state: ConnectionState) -> SendAction {
    match state {
        ConnectionState::Unknown => SendAction::PollSink,
        ConnectionState::Ready => SendAction::PollTimer,
        ConnectionState::Closing => SendAction::PollClose,
        ConnectionState::Closed => SendAction::Return(Progress::Finished(Ok(()))),
    }
}

/// Whether `event` can come in the state `pre`: it begins the task where it is at
/// rest, or it answers what the task asked. A message that the socket took needs a
/// number for the next one.
pub open spec fn fits(pre: ConnectionView, event: SendEvent) -> bool {
    match event {
        SendEvent::Poll => pre.asked is Nothing,
        SendEvent::Sink(_) => pre.asked is Sink,
        SendEvent::Timer(_) => pre.asked is Timer,
        SendEvent::Queue(_) => pre.asked is Queue,
        SendEvent::HeartbeatStarted(started) => pre.asked is Message && (started is Ok
            ==> pre.reference < u64::MAX),
        SendEvent::RequestStarted(response_tx, started) => {
            &&& pre.asked matches Asked::Request(_, waiting) && waiting == response_tx
            &&& started is Ok ==> pre.reference < u64::MAX
        },
        SendEvent::Close(_) => pre.asked is Close,
    }
}

/// The sending task, told `event` in the state `pre`, leaves the state `post` and
/// answers `step`.
pub open spec fn sends(
    pre: ConnectionView,
    event: SendEvent,
    post: ConnectionView,
    step: SendStep,
) -> bool {
    match event {
        SendEvent::Poll => {
            &&& post == pre.asking(asks(step.action))
            &&& step == continued(false, first_action(pre.state))
        },
        SendEvent::Sink(SinkPoll::Pending) => {
            &&& post == pre.asking(Asked::Nothing)
            &&& step == ended(Progress::Pending)
        },
        SendEvent::Sink(SinkPoll::Ready) => {
            &&& post == pre.with_state(ConnectionState::Ready).asking(Asked::Nothing)
            &&& step == ended(Progress::Pending)
        },
        SendEvent::Sink(SinkPoll::Failed(e)) => {
            &&& post == pre.asking(Asked::Nothing)
            &&& step == ended(Progress::Finished(Err(ConnectionError::Websocket(e))))
        },
        SendEvent::Timer(false) => {
            &&& post == pre.asking(Asked::Queue)
            &&& step == continued(false, SendAction::PollQueue)
        },
        SendEvent::Timer(true) => {
            &&& post == pre.asking(asks(step.action))
            &&& step == continued(true, step.action)
            &&& step.action matches SendAction::StartHeartbeat(text)
            &&& text@ == heartbeat_text(pre.reference)
        },
        SendEvent::Queue(Polled::Pending) => {
            &&& post == pre.asking(Asked::Nothing)
            &&& step == ended(Progress::Pending)
        },
        SendEvent::Queue(Polled::Closed) => {
            &&& post == pre.with_state(ConnectionState::Closing).asking(Asked::Nothing)
            &&& step == ended(Progress::Pending)
        },
        SendEvent::Queue(Polled::Item((req, response_tx))) => {
            &&& post == pre.asking(asks(step.action))
            &&& step == continued(true, step.action)
            &&& step.action matches SendAction::StartRequest(text, tx)
            &&& text@ == request_text(req, pre.reference)
            &&& tx == response_tx
        },
        SendEvent::HeartbeatStarted(Ok(_)) => {
            &&& post == pre.heartbeat_sent()
            &&& step == ended(Progress::Pending)
        },
        SendEvent::HeartbeatStarted(Err(_)) => {
            &&& post == pre.asking(Asked::Nothing)
            &&& step == ended(Progress::Finished(Err(ConnectionError::Heartbeat)))
        },
        SendEvent::RequestStarted(response_tx, Ok(_)) => {
            &&& post == pre.request_sent(response_tx)
            &&& step == ended(Progress::Pending)
        },
        SendEvent::RequestStarted(response_tx, Err(e)) => {
            &&& post == pre.with_state(ConnectionState::Unknown).asking(Asked::Nothing)
            &&& !step.wake
            &&& step.action == SendAction::Return(Progress::Pending)
            &&& refused(step, response_tx, Err(RequestSendError::Send(e)))
        },
        SendEvent::Close(closed) => {
            &&& post == pre.with_state(
                if closed {
                    ConnectionState::Closed
                } else {
                    ConnectionState::Closing
                },
            ).asking(Asked::Nothing)
            &&& step == ended(Progress::Pending)
        },
    }
}

/// A message that nobody waits for, made of `req` in the state `pre`, has the given
/// text and leaves the state `post`.
pub open spec fn sync_begins(
    pre: ConnectionView,
    req: ConnectionInternalRequest,
    post: ConnectionView,
    text: Seq<char>,
) -> bool {
    &&& text == request_text(req, pre.reference)
    &&& post == pre.asking(Asked::Message(text))
}

/// What comes of a message that nobody waits for once the socket has taken or
/// refused it.
pub open spec fn sync_ends(
    pre: ConnectionView,
    started: Result<(), WebsocketError>,
    post: ConnectionView,
    result: Result<(), RequestSendError>,
) -> bool {
    match started {
        Ok(_) => {
            &&& result == Ok::<(), RequestSendError>(())
            &&& post == pre.message_sent()
        },
        Err(e) => {
            &&& result == Err::<(), RequestSendError>(RequestSendError::Send(e))
            &&& post == pre.asking(Asked::Nothing)
        },
    }
}

/// The step that goes on with `action`, with no request refused.
pub open spec fn continued(wake: bool, action: SendAction) -> SendStep {
    SendStep { wake, action, refusal: None }
}

/// The step that ends the sending task, with no request refused.
pub open spec fn ended(progress: Progress) -> SendStep {
    continued(false, SendAction::Return(progress))
}

/// In `step`, `reply` was handed to `response_tx`, or given back unchanged where nobody
/// waits for it.
pub open spec fn refused(step: SendStep, response_tx: ReplySender, reply: Reply) -> bool {
    &&& step.refusal matches Some(outcome)
    &&& responded(response_tx, reply, outcome)
    &&& outcome matches Err(back) ==> back == reply
}

/// The message `msg`, received in the state `pre`, leaves the state `post` and
/// has become of it what `notice` says.
pub open spec fn receives(
    pre: ConnectionView,
    msg: MessageIn,
    post: ConnectionView,
    notice: Notice,
) -> bool {
    match msg.reference {
        Some(reference) => if pre.heartbeat == Some(reference@) {
            &&& post == (ConnectionView { heartbeat: None, ..pre })
            &&& notice == Notice::HeartbeatReply
        } else if pre.pending.contains_key(reference@) {
            &&& post == (ConnectionView { pending: pre.pending.remove(reference@), ..pre })
            &&& notice matches Notice::Reply(outcome)
            &&& responded(pre.pending[reference@], Ok(msg.payload), outcome)
            &&& outcome matches Err(back) ==> back == Ok::<_, RequestSendError>(msg.payload)
        } else {
            &&& post == pre
            &&& notice == Notice::NotPending
        },
        None => {
            let key = (msg.topic@, msg.event@);
            if pre.subscriptions.contains_key(key) {
                &&& notice matches Notice::Event(outcomes, gone)
                &&& attempted_on_all(pre.subscriptions[key], msg.payload, outcomes@)
                &&& post == (ConnectionView {
                    subscriptions: pre.subscriptions.insert(
                        key,
                        kept(
                            offered_to_all(pre.subscriptions[key], msg.payload, outcomes@),
                            outcomes@,
                        ),
                    ),
                    ..pre
                })
                &&& views(gone@) == dropped(
                    offered_to_all(pre.subscriptions[key], msg.payload, outcomes@),
                    outcomes@,
                )
            } else {
                &&& post == pre
                &&& notice == Notice::NoSubscription
            }
        },
    }
}

/// The receiving task, told `incoming` in the state `pre`, leaves the state `post`
/// and answers `step`.
pub open spec fn takes_in(
    pre: ConnectionView,
    incoming: Incoming,
    post: ConnectionView,
    step: ReceiveStep,
) -> bool {
    &&& step.wake == !(incoming is Pending)
    &&& match incoming {
        Incoming::Pending => {
            &&& post == pre
            &&& step.progress == Progress::Pending
            &&& step.notice == Notice::Nothing
        },
        Incoming::Ended => {
            &&& post == pre
            &&& step.progress == Progress::Finished(Ok(()))
            &&& step.notice == Notice::Nothing
        },
        Incoming::Failed(e) => {
            &&& post == pre
            &&& step.progress == Progress::Finished(Err(ConnectionError::Websocket(e)))
            &&& step.notice == Notice::Nothing
        },
        Incoming::Text(Ok(msg)) => {
            &&& receives(pre, msg, post, step.notice)
            &&& step.progress == Progress::Pending
        },
        Incoming::Text(Err(e)) => {
            &&& post == pre
            &&& step.progress == Progress::Pending
            &&& step.notice == Notice::Undecodable(e)
        },
        Incoming::Close => {
            &&& post == pre.with_state(ConnectionState::Closing)
            &&& step.progress == Progress::Pending
            &&& step.notice == Notice::Nothing
        },
        Incoming::Other => {
            &&& post == pre
            &&& step.progress == Progress::Pending
            &&& step.notice == Notice::Nothing
        },
    }
}

/// The subscription task, told `polled` in the state `pre`, leaves the state
/// `post` and answers `step`.
pub open spec fn takes_subscription(
    pre: ConnectionView,
    polled: Polled<ConnectionInternalSubscription>,
    post: ConnectionView,
    step: SubscriptionStep,
) -> bool {
    &&& step == (SubscriptionStep { wake: polled is Item, progress: Progress::Pending })
    &&& post == match polled {
        Polled::Pending => pre,
        Polled::Closed => pre.with_state(ConnectionState::Closing),
        Polled::Item((topic, event, sender)) => pre.subscribed((topic@, event@), sender),
    }
}

/// What to do with the connection once `last` has run, if any task has.
pub open spec fn poll_step(last: Option<(Task, Progress)>) -> PollStep {
    match last {
        None => PollStep::Run(Task::Subscriptions),
        Some((_, Progress::Finished(_))) => PollStep::Return(Progress::Finished(Ok(()))),
        Some((Task::Subscriptions, Progress::Pending)) => PollStep::Run(Task::Send),
        Some((Task::Send, Progress::Pending)) => PollStep::Run(Task::Receive),
        Some((Task::Receive, Progress::Pending)) => PollStep::Return(Progress::Pending),
    }
}

/// One connection.
pub struct Connection {
    state: ConnectionState,
    pending_requests: PendingRequests,
    subscriptions: Subscriptions,
    heartbeat_ref: Option<String>,
    reference: u64,
    asked: Ghost<Asked>,
}

impl View for Connection {
    type V = ConnectionView;

    closed spec fn view(&self) -> ConnectionView {
        ConnectionView {
            state: self.state,
            pending: self.pending_requests@,
            subscriptions: self.subscriptions@,
            heartbeat: match self.heartbeat_ref {
                Some(reference) => Some(reference@),
                None => None,
            },
            reference: self.reference as nat,
            asked: self.asked@,
        }
    }
}

impl Connection {
    /// The tables hold nothing twice, and what waits is [valid](ConnectionView::valid).
    pub closed spec fn wf(self) -> bool {
        &&& self.pending_requests.wf()
        &&& self.subscriptions.wf()
        &&& self@.valid()
    }

    /// A well-formed connection is a valid one.
    pub proof fn lemma_valid(self)
        requires
            self.wf(),
        ensures
            self@.valid(),
    {
    }

    /// A connection on which nothing has happened yet.
    pub fn new() -> (res: Self)
        ensures
            res.wf(),
            res@ == ConnectionView::initial(),
    {
        Connection {
            state: ConnectionState::Unknown,
            pending_requests: PendingRequests::new(),
            subscriptions: Subscriptions::new(),
            heartbeat_ref: None,
            reference: 0,
            asked: Ghost(Asked::Nothing),
        }
    }

    pub fn state(&self) -> (res: ConnectionState)
        ensures
            res == self@.state,
    {
        self.state
    }

    /// The number of the next message.
    pub fn reference(&self) -> (res: u64)
        ensures
            res == self@.reference,
    {
        self.reference
    }

    /// The text of `req` as the next message.
    fn encode(&self, req: ConnectionInternalRequest) -> (res: Result<String, serde_json::Error>)
        ensures
            res is Ok,
            res->Ok_0@ == request_text(req, self@.reference),
    {
        let msg = MessageOut {
            topic: req.topic,
            event: req.event,
            payload: req.payload,
            reference: decimal_string(self.reference),
        };
        msg.to_json()
    }

    /// Begins to send `req`, for which `response_tx` waits.
    pub fn send_request(&mut self, req: ConnectionInternalRequest, response_tx: ReplySender) -> (res:
        SendStep)
        requires
            old(self).wf(),
            old(self)@.may_start(),
        ensures
            final(self).wf(),
            final(self)@ == old(self)@.asking(asks(res.action)),
            res == continued(true, res.action),
            res.action matches SendAction::StartRequest(text, tx) && text@ == request_text(
                req,
                old(self)@.reference,
            ) && tx == response_tx,
    {
        let json = self.encode(req);
        self.request_encoded(json, response_tx)
    }

    /// Goes on with a request once its text is there, or refuses it for want of one.
    pub fn request_encoded(
        &mut self,
        json: Result<String, serde_json::Error>,
        response_tx: ReplySender,
    ) -> (res: SendStep)
        requires
            old(self).wf(),
            old(self)@.may_start(),
            json matches Ok(text) ==> carries(text@, old(self)@.reference),
        ensures
            final(self).wf(),
            match json {
                Ok(text) => {
                    &&& final(self)@ == old(self)@.asking(Asked::Request(text@, response_tx))
                    &&& res == continued(true, SendAction::StartRequest(text, response_tx))
                },
                Err(e) => {
                    &&& final(self)@ == old(self)@.with_state(ConnectionState::Unknown).asking(
                        Asked::Nothing,
                    )
                    &&& res.wake
                    &&& res.action == SendAction::Return(Progress::Pending)
                    &&& refused(
                        res,
                        response_tx,
                        Err(RequestSendError::InvalidMessageOutJson(e)),
                    )
                },
            },
    {
        match json {
            Ok(text) => {
                self.asked = Ghost(Asked::Request(text@, response_tx));
                proof {
                    lemma_fewer_waiting_valid(old(self)@, self@);
                }
                SendStep {
                    wake: true,
                    action: SendAction::StartRequest(text, response_tx),
                    refusal: None,
                }
            },
            Err(e) => {
                let refusal = send_reply(
                    response_tx,
                    Err(RequestSendError::InvalidMessageOutJson(e)),
                );
                self.state = ConnectionState::Unknown;
                self.asked = Ghost(Asked::Nothing);
                proof {
                    lemma_fewer_waiting_valid(old(self)@, self@);
                }
                SendStep {
                    wake: true,
                    action: SendAction::Return(Progress::Pending),
                    refusal: Some(refusal),
                }
            },
        }
    }

    /// Goes on with a request once the socket has taken or refused its text.
    pub fn request_started(
        &mut self,
        response_tx: ReplySender,
        started: Result<(), WebsocketError>,
    ) -> (res: SendStep)
        requires
            old(self).wf(),
            old(self)@.state == ConnectionState::Ready,
            fits(old(self)@, SendEvent::RequestStarted(response_tx, started)),
        ensures
            final(self).wf(),
            sends(
                old(self)@,
                SendEvent::RequestStarted(response_tx, started),
                final(self)@,
                res,
            ),
    {
        let mut refusal = None;
        match started {
            Ok(_) => {
                proof {
                    lemma_request_sent_valid(self@, response_tx);
                }
                let reference = decimal_string(self.reference);
                let _ = self.pending_requests.insert(reference, response_tx);
                self.reference = self.reference + 1;
            },
            Err(e) => {
                refusal = Some(send_reply(response_tx, Err(RequestSendError::Send(e))));
            },
        }
        self.state = ConnectionState::Unknown;
        self.asked = Ghost(Asked::Nothing);
        proof {
            if started is Err {
                lemma_fewer_waiting_valid(old(self)@, self@);
            }
        }
        SendStep { wake: false, action: SendAction::Return(Progress::Pending), refusal }
    }

    /// Begins to send `req`, for which nobody waits: gives its text as the next
    /// message.
    pub fn send_request_sync(&mut self, req: ConnectionInternalRequest) -> (res: Result<
        String,
        RequestSendError,
    >)
        requires
            old(self).wf(),
            old(self)@.may_start(),
        ensures
            final(self).wf(),
            res is Ok,
            sync_begins(old(self)@, req, final(self)@, res->Ok_0@),
    {
        let json = self.encode(req);
        self.send_request_sync_encoded(json)
    }

    /// Goes on with a message that nobody waits for once its text is there, or fails
    /// for want of one.
    pub fn send_request_sync_encoded(&mut self, json: Result<String, serde_json::Error>) -> (res:
        Result<String, RequestSendError>)
        requires
            old(self).wf(),
            old(self)@.may_start(),
            json matches Ok(text) ==> carries(text@, old(self)@.reference),
        ensures
            final(self).wf(),
            match json {
                Ok(text) => {
                    &&& res == Ok::<String, RequestSendError>(text)
                    &&& final(self)@ == old(self)@.asking(Asked::Message(text@))
                },
                Err(e) => {
                    &&& res == Err::<String, RequestSendError>(
                        RequestSendError::InvalidMessageOutJson(e),
                    )
                    &&& final(self)@ == old(self)@
                },
            },
    {
        match json {
            Ok(text) => {
                self.asked = Ghost(Asked::Message(text@));
                proof {
                    lemma_fewer_waiting_valid(old(self)@, self@);
                }
                Ok(text)
            },
            Err(e) => Err(RequestSendError::InvalidMessageOutJson(e)),
        }
    }

    /// Goes on with a message that nobody waits for once the socket has taken or
    /// refused its text: counts it, or says why it was not sent.
    pub fn send_request_sync_started(&mut self, started: Result<(), WebsocketError>) -> (res: Result<
        (),
        RequestSendError,
    >)
        requires
            old(self).wf(),
            old(self)@.state == ConnectionState::Ready,
            fits(old(self)@, SendEvent::HeartbeatStarted(started)),
        ensures
            final(self).wf(),
            sync_ends(old(self)@, started, final(self)@, res),
    {
        self.asked = Ghost(Asked::Nothing);
        match started {
            Ok(_) => {
                proof {
                    lemma_message_sent_valid(old(self)@);
                }
                self.reference = self.reference + 1;
                Ok(())
            },
            Err(e) => {
                proof {
                    lemma_fewer_waiting_valid(old(self)@, self@);
                }
                Err(RequestSendError::Send(e))
            },
        }
    }

    /// Begins to send a heartbeat.
    pub fn send_heartbeat(&mut self) -> (res: SendStep)
        requires
            old(self).wf(),
            old(self)@.may_start(),
        ensures
            final(self).wf(),
            final(self)@ == old(self)@.asking(asks(res.action)),
            res == continued(true, res.action),
            res.action matches SendAction::StartHeartbeat(text) && text@ == heartbeat_text(
                old(self)@.reference,
            ),
    {
        let req = ConnectionInternalRequest {
            topic: "phoenix".to_owned(),
            event: "heartbeat".to_owned(),
            payload: null_value(),
        };
        let json = self.send_request_sync(req);
        self.heartbeat_encoded(json)
    }

    /// Goes on with a heartbeat once its text is there, or fails for want of one.
    pub fn heartbeat_encoded(&mut self, json: Result<String, RequestSendError>) -> (res: SendStep)
        requires
            old(self).wf(),
            old(self)@.state == ConnectionState::Ready,
            json matches Ok(text) ==> old(self)@.asked == Asked::Message(text@),
        ensures
            final(self).wf(),
            final(self)@ == old(self)@.asking(asks(res.action)),
            res == continued(
                true,
                match json {
                    Ok(text) => SendAction::StartHeartbeat(text),
                    Err(_) => SendAction::Return(
                        Progress::Finished(Err(ConnectionError::Heartbeat)),
                    ),
                },
            ),
    {
        let action = match json {
            Ok(text) => SendAction::StartHeartbeat(text),
            Err(_) => SendAction::Return(Progress::Finished(Err(ConnectionError::Heartbeat))),
        };
        self.asked = Ghost(asks(action));
        proof {
            lemma_fewer_waiting_valid(old(self)@, self@);
        }
        SendStep { wake: true, action, refusal: None }
    }

    /// Goes on with a heartbeat once the socket has taken or refused its text.
    pub fn heartbeat_started(&mut self, started: Result<(), WebsocketError>) -> (res: SendStep)
        requires
            old(self).wf(),
            old(self)@.state == ConnectionState::Ready,
            fits(old(self)@, SendEvent::HeartbeatStarted(started)),
        ensures
            final(self).wf(),
            sends(old(self)@, SendEvent::HeartbeatStarted(started), final(self)@, res),
    {
        let reference = decimal_string(self.reference);
        let progress = match self.send_request_sync_started(started) {
            Ok(_) => {
                proof {
                    lemma_heartbeat_sent_valid(old(self)@);
                }
                self.heartbeat_ref = Some(reference);
                self.state = ConnectionState::Unknown;
                Progress::Pending
            },
            Err(_) => Progress::Finished(Err(ConnectionError::Heartbeat)),
        };
        SendStep { wake: false, action: SendAction::Return(progress), refusal: None }
    }

    /// Runs the sending task up to its next question: asks whether the socket is
    /// ready, then sends one heartbeat or else one request and asks again, and
    /// closes the socket once there are no more requests to come.
    pub fn poll_send(&mut self, event: SendEvent) -> (res: SendStep)
        requires
            old(self).wf(),
            fits(old(self)@, event),
        ensures
            final(self).wf(),
            sends(old(self)@, event, final(self)@, res),
    {
        let action = match event {
            SendEvent::Poll => match self.state {
                ConnectionState::Unknown => SendAction::PollSink,
                ConnectionState::Ready => SendAction::PollTimer,
                ConnectionState::Closing => SendAction::PollClose,
                ConnectionState::Closed => SendAction::Return(Progress::Finished(Ok(()))),
            },
            SendEvent::Sink(SinkPoll::Pending) => SendAction::Return(Progress::Pending),
            SendEvent::Sink(SinkPoll::Ready) => {
                self.state = ConnectionState::Ready;
                SendAction::Return(Progress::Pending)
            },
            SendEvent::Sink(SinkPoll::Failed(e)) => SendAction::Return(
                Progress::Finished(Err(ConnectionError::Websocket(e))),
            ),
            SendEvent::Timer(true) => {
                return self.send_heartbeat();
            },
            SendEvent::Timer(false) => SendAction::PollQueue,
            SendEvent::Queue(Polled::Pending) => SendAction::Return(Progress::Pending),
            SendEvent::Queue(Polled::Closed) => {
                self.state = ConnectionState::Closing;
                SendAction::Return(Progress::Pending)
            },
            SendEvent::Queue(Polled::Item((req, response_tx))) => {
                return self.send_request(req, response_tx);
            },
            SendEvent::HeartbeatStarted(started) => {
                return self.heartbeat_started(started);
            },
            SendEvent::RequestStarted(response_tx, started) => {
                return self.request_started(response_tx, started);
            },
            SendEvent::Close(closed) => {
                if closed {
                    self.state = ConnectionState::Closed;
                }
                SendAction::Return(Progress::Pending)
            },
        };
        self.asked = Ghost(asks(action));
        proof {
            lemma_fewer_waiting_valid(old(self)@, self@);
        }
        SendStep { wake: false, action, refusal: None }
    }

    /// Runs the subscription task, while the sending task is at rest: takes in a
    /// subscription, or begins to close the connection when there are none to come.
    pub fn poll_subscription_receiver(
        &mut self,
        polled: Polled<ConnectionInternalSubscription>,
    ) -> (res: SubscriptionStep)
        requires
            old(self).wf(),
            old(self)@.asked is Nothing,
        ensures
            final(self).wf(),
            takes_subscription(old(self)@, polled, final(self)@, res),
    {
        let mut wake = false;
        match polled {
            Polled::Item((topic, event, sender)) => {
                wake = true;
                self.subscriptions.insert(topic, event, sender);
            },
            Polled::Closed => {
                self.state = ConnectionState::Closing;
            },
            Polled::Pending => {},
        }
        proof {
            lemma_fewer_waiting_valid(old(self)@, self@);
        }
        SubscriptionStep { wake, progress: Progress::Pending }
    }

    /// Takes in one message: a reply goes to what waits for it, once, and an event to
    /// the subscriptions of its topic and name, once each; nothing goes to anybody else.
    pub fn receive(&mut self, msg: MessageIn) -> (res: Notice)
        requires
            old(self).wf(),
        ensures
            final(self).wf(),
            receives(old(self)@, msg, final(self)@, res),
    {
        let notice = match msg.reference {
            Some(reference) => {
                let heartbeat = match &self.heartbeat_ref {
                    Some(heartbeat) => *heartbeat == reference,
                    None => false,
                };
                if heartbeat {
                    self.heartbeat_ref = None;
                    Notice::HeartbeatReply
                } else {
                    match self.pending_requests.remove(&reference) {
                        Some(sender) => Notice::Reply(send_reply(sender, Ok(msg.payload))),
                        None => {
                            assert(self@ =~= old(self)@);
                            Notice::NotPending
                        },
                    }
                }
            },
            None => match self.subscriptions.publish(&msg.topic, &msg.event, &msg.payload) {
                Some((outcomes, gone)) => Notice::Event(outcomes, gone),
                None => Notice::NoSubscription,
            },
        };
        proof {
            lemma_fewer_waiting_valid(old(self)@, self@);
        }
        notice
    }

    /// Runs the receiving task, while the sending task is at rest: takes in a message,
    /// begins to close the connection at a close frame, and ends with the socket.
    pub fn poll_request_receiver(&mut self, incoming: Incoming) -> (res: ReceiveStep)
        requires
            old(self).wf(),
            old(self)@.asked is Nothing,
        ensures
            final(self).wf(),
            takes_in(old(self)@, incoming, final(self)@, res),
    {
        let mut wake = true;
        let mut progress = Progress::Pending;
        let mut notice = Notice::Nothing;
        match incoming {
            Incoming::Pending => {
                wake = false;
            },
            Incoming::Ended => {
                progress = Progress::Finished(Ok(()));
            },
            Incoming::Failed(e) => {
                progress = Progress::Finished(Err(ConnectionError::Websocket(e)));
            },
            Incoming::Text(Ok(msg)) => {
                notice = self.receive(msg);
            },
            Incoming::Text(Err(e)) => {
                notice = Notice::Undecodable(e);
            },
            Incoming::Close => {
                self.state = ConnectionState::Closing;
            },
            Incoming::Other => {},
        }
        proof {
            lemma_fewer_waiting_valid(old(self)@, self@);
        }
        ReceiveStep { wake, progress, notice }
    }

    /// Runs the three tasks in turn, until one of them is finished. Then the
    /// connection ends, and it ends well, whatever the task says.
    pub fn poll(last: Option<(Task, Progress)>) -> (res: PollStep)
        ensures
            res == poll_step(last),
    {
        match last {
            None => PollStep::Run(Task::Subscriptions),
            Some((_, Progress::Finished(_))) => PollStep::Return(Progress::Finished(Ok(()))),
            Some((Task::Subscriptions, Progress::Pending)) => PollStep::Run(Task::Send),
            Some((Task::Send, Progress::Pending)) => PollStep::Run(Task::Receive),
            Some((Task::Receive, Progress::Pending)) => PollStep::Return(Progress::Pending),
        }
    }
}

proof fn lemma_issued_grows(text: Seq<char>, next: nat)
    requires
        issued(text, next),
    ensures
        issued(text, next + 1),
{
    let n = choose|n: nat| n < next && #[trigger] decimal(n) == text;
    assert(n < next + 1 && decimal(n) == text);
}

/// Nothing new waits, so all that waits does so validly.
proof fn lemma_fewer_waiting_valid(pre: ConnectionView, post: ConnectionView)
    requires
        pre.valid(),
        post.reference == pre.reference,
        post.pending.dom().subset_of(pre.pending.dom()),
        post.heartbeat == pre.heartbeat || post.heartbeat is None,
        post.asked_in_place(),
    ensures
        post.valid(),
{
    vstd::set_lib::lemma_set_subset_finite(pre.pending.dom(), post.pending.dom());
    assert forall|r: Seq<char>| #[trigger] post.pending.contains_key(r) implies issued(
        r,
        post.reference,
    ) by {
        assert(pre.pending.contains_key(r));
    }
}

/// A message that nobody waits for only uses up a number.
proof fn lemma_message_sent_valid(pre: ConnectionView)
    requires
        pre.valid(),
    ensures
        pre.message_sent().valid(),
{
    let post = pre.message_sent();
    assert forall|r: Seq<char>| #[trigger] post.pending.contains_key(r) implies issued(
        r,
        post.reference,
    ) by {
        lemma_issued_grows(r, pre.reference);
    }
    if let Some(r) = pre.heartbeat {
        lemma_issued_grows(r, pre.reference);
    }
}

/// The next reference is none of those that were handed out.
pub proof fn lemma_next_not_issued(next: nat)
    ensures
        !issued(decimal(next), next),
        issued(decimal(next), next + 1),
{
    if issued(decimal(next), next) {
        let n = choose|n: nat| n < next && #[trigger] decimal(n) == decimal(next);
        lemma_decimal_injective(n, next);
    }
    assert(next < next + 1 && decimal(next) == decimal(next));
}

pub proof fn lemma_request_sent_valid(pre: ConnectionView, response_tx: ReplySender)
    requires
        pre.valid(),
    ensures
        pre.request_sent(response_tx).valid(),
{
    let post = pre.request_sent(response_tx);
    lemma_next_not_issued(pre.reference);
    assert forall|r: Seq<char>| #[trigger] post.pending.contains_key(r) implies issued(
        r,
        post.reference,
    ) by {
        if pre.pending.contains_key(r) {
            lemma_issued_grows(r, pre.reference);
        }
    }
    if let Some(r) = pre.heartbeat {
        lemma_issued_grows(r, pre.reference);
    }
}

pub proof fn lemma_heartbeat_sent_valid(pre: ConnectionView)
    requires
        pre.valid(),
    ensures
        pre.heartbeat_sent().valid(),
{
    let post = pre.heartbeat_sent();
    lemma_next_not_issued(pre.reference);
    assert forall|r: Seq<char>| #[trigger] post.pending.contains_key(r) implies issued(
        r,
        post.reference,
    ) by {
        lemma_issued_grows(r, pre.reference);
    }
}

} // verus!

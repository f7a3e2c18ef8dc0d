//! What a client decides: where it connects to, and how a subscription comes
//! about.

use crate::channel::{EventSender, Reply};
use crate::connection::{
    ConnectionInternalRequest, ConnectionInternalSubscription, RequestSendError,
};
use crate::json::{absent_to_value, json_text};
use vstd::prelude::*;

verus! {

/// Why a subscription did not come about.
#[derive(Debug)]
pub enum SubscribeError {
    /// The connection is gone.
    ConnectionClosed,
    /// The request to join the topic failed.
    Request(RequestError),
    /// The server refused, for this reason.
    Join(String),
}

/// Why a request failed.
#[derive(Debug)]
pub enum RequestError {
    /// The connection is gone.
    ConnectionClosed,
    /// No reply came in time.
    Timeout,
    /// The request was not sent.
    Send(RequestSendError),
    /// The payload of the request has no JSON value.
    SerializePayload(serde_json::Error),
    /// The payload of the reply is not what was asked for.
    DeserializePayload(serde_json::Error),
}

/// The details of a reply to a join request.
pub struct JoinPayloadResponse {
    pub reason: Option<String>,
}

/// The payload of a reply to a join request.
pub struct JoinPayload {
    pub status: String,
    pub response: JoinPayloadResponse,
}

/// How far a subscription is.
#[derive(Clone, Copy, Debug, PartialEq, Eq, Structural)]
pub enum SubscribePhase {
    /// The connection is being told of the subscription.
    Registering,
    /// The request to join the topic is being handed to the connection.
    Requesting,
    /// The reply is awaited.
    Waiting,
    /// The reply is being read.
    Reading,
    /// It is done.
    Finished,
}

/// What a subscription under way has learned.
pub enum SubscribeEvent {
    /// Whether the connection took the subscription.
    Registered(bool),
    /// Whether the connection took the request.
    Requested(bool),
    /// The reply, or none where the connection went away.
    Replied(Option<Reply>),
    /// What the payload of the reply says, or why it says nothing.
    Read(Result<JoinPayload, serde_json::Error>),
}

/// What a subscription under way needs.
pub enum SubscribeAction {
    /// Tell the connection of the subscription.
    Register(ConnectionInternalSubscription),
    /// Hand the request to the connection.
    Request(ConnectionInternalRequest),
    /// Wait for the reply.
    Wait,
    /// Read the payload of the reply.
    Read(serde_json::Value),
    /// End.
    Return(Result<(), SubscribeError>),
}

/// Whether `event` answers what a subscription needs in `phase`.
pub open spec fn answers(event: SubscribeEvent, phase: SubscribePhase) -> bool {
    match event {
        SubscribeEvent::Registered(_) => phase == SubscribePhase::Registering,
        SubscribeEvent::Requested(_) => phase == SubscribePhase::Requesting,
        SubscribeEvent::Replied(_) => phase == SubscribePhase::Waiting,
        SubscribeEvent::Read(_) => phase == SubscribePhase::Reading,
    }
}

/// What the reply to a request comes to; without one the connection is gone.
pub open spec fn reply_result(reply: Option<Reply>) -> Result<serde_json::Value, RequestError> {
    match reply {
        None => Err(RequestError::ConnectionClosed),
        Some(Err(e)) => Err(RequestError::Send(e)),
        Some(Ok(payload)) => Ok(payload),
    }
}

/// Whether the reply to a join request grants it: only the status `error` refuses.
pub open spec fn join_granted(payload: JoinPayload) -> bool {
    payload.status@ != "error"@
}

/// The reason that a refusal gives, empty where it gives none.
pub open spec fn refusal_reason(payload: JoinPayload) -> Seq<char> {
    match payload.response.reason {
        Some(reason) => reason@,
        None => Seq::empty(),
    }
}

/// `req` asks to join the topic.
pub open spec fn is_join_request(req: ConnectionInternalRequest, topic: Seq<char>) -> bool {
    &&& req.topic@ == topic
    &&& req.event@ == "phx_join"@
    &&& json_text(req.payload) == "null"@
}

/// A subscription to `topic`, told `event`, is in `phase` then and needs `action`.
pub open spec fn advances(
    topic: Seq<char>,
    event: SubscribeEvent,
    phase: SubscribePhase,
    action: SubscribeAction,
) -> bool {
    match event {
        SubscribeEvent::Registered(true) => {
            &&& phase == SubscribePhase::Requesting
            &&& action matches SubscribeAction::Request(req)
            &&& is_join_request(req, topic)
        },
        SubscribeEvent::Registered(false) => {
            &&& phase == SubscribePhase::Finished
            &&& action == SubscribeAction::Return(Err(SubscribeError::ConnectionClosed))
        },
        SubscribeEvent::Requested(true) => {
            &&& phase == SubscribePhase::Waiting
            &&& action == SubscribeAction::Wait
        },
        SubscribeEvent::Requested(false) => {
            &&& phase == SubscribePhase::Finished
            &&& action == SubscribeAction::Return(
                Err(SubscribeError::Request(RequestError::ConnectionClosed)),
            )
        },
        SubscribeEvent::Replied(reply) => match reply_result(reply) {
            Ok(payload) => {
                &&& phase == SubscribePhase::Reading
                &&& action == SubscribeAction::Read(payload)
            },
            Err(e) => {
                &&& phase == SubscribePhase::Finished
                &&& action == SubscribeAction::Return(Err(SubscribeError::Request(e)))
            },
        },
        SubscribeEvent::Read(Err(e)) => {
            &&& phase == SubscribePhase::Finished
            &&& action == SubscribeAction::Return(
                Err(SubscribeError::Request(RequestError::DeserializePayload(e))),
            )
        },
        SubscribeEvent::Read(Ok(payload)) => {
            &&& phase == SubscribePhase::Finished
            &&& join_granted(payload) ==> action == SubscribeAction::Return(Ok(()))
            &&& !join_granted(payload) ==> (action matches SubscribeAction::Return(
                Err(SubscribeError::Join(reason)),
            ) && reason@ == refusal_reason(payload))
        },
    }
}

/// A client of a connection.
pub struct Client;

impl Client {
    /// The address that a client of the socket at `url` connects to.
    pub fn connect(url: &str) -> (res: String)
        ensures
            res@ == url@ + "/websocket"@,
    {
        let mut res = url.to_owned();
        res.append("/websocket");
        res
    }

    /// Begins a subscription to an event of a topic, whose payloads go to `sub_tx`.
    pub fn subscribe(topic: &str, event: &str, sub_tx: EventSender) -> (res: (
        Subscribing,
        SubscribeAction,
    ))
        ensures
            res.0.topic() == topic@,
            res.0.phase() == SubscribePhase::Registering,
            res.1 matches SubscribeAction::Register((t, e, tx)) && t@ == topic@ && e@ == event@ && tx
                == sub_tx,
    {
        let subscribing = Subscribing {
            topic: topic.to_owned(),
            phase: SubscribePhase::Registering,
        };
        let registration = (topic.to_owned(), event.to_owned(), sub_tx);
        (subscribing, SubscribeAction::Register(registration))
    }

    /// The request with a payload, unless the payload has no JSON value.
    pub fn request(
        topic: String,
        event: String,
        payload: Result<serde_json::Value, serde_json::Error>,
    ) -> (res: Result<ConnectionInternalRequest, RequestError>)
        ensures
            res == match payload {
                Ok(payload) => Ok(ConnectionInternalRequest { topic, event, payload }),
                Err(e) => Err(RequestError::SerializePayload(e)),
            },
    {
        match payload {
            Ok(payload) => Ok(ConnectionInternalRequest { topic, event, payload }),
            Err(e) => Err(RequestError::SerializePayload(e)),
        }
    }

    /// The payload of the reply to a request. Without a reply the connection is gone.
    pub fn request_replied(reply: Option<Reply>) -> (res: Result<serde_json::Value, RequestError>)
        ensures
            res == reply_result(reply),
    {
        match reply {
            None => Err(RequestError::ConnectionClosed),
            Some(Err(e)) => Err(RequestError::Send(e)),
            Some(Ok(payload)) => Ok(payload),
        }
    }

    /// What the payload of a reply says.
    pub fn request_read<R>(read: Result<R, serde_json::Error>) -> (res: Result<R, RequestError>)
        ensures
            res == match read {
                Ok(payload) => Ok(payload),
                Err(e) => Err(RequestError::DeserializePayload(e)),
            },
    {
        match read {
            Ok(payload) => Ok(payload),
            Err(e) => Err(RequestError::DeserializePayload(e)),
        }
    }

    /// What the server says to a request to join.
    pub fn joined(payload: JoinPayload) -> (res: Result<(), SubscribeError>)
        ensures
            join_granted(payload) ==> res == Ok::<(), SubscribeError>(()),
            !join_granted(payload) ==> (res matches Err(SubscribeError::Join(reason)) && reason@
                == refusal_reason(payload)),
    {
        if payload.status == "error".to_owned() {
            let reason = match payload.response.reason {
                Some(reason) => reason,
                None => String::new(),
            };
            Err(SubscribeError::Join(reason))
        } else {
            Ok(())
        }
    }
}

/// A subscription under way.
pub struct Subscribing {
    topic: String,
    phase: SubscribePhase,
}

impl Subscribing {
    pub closed spec fn topic(self) -> Seq<char> {
        self.topic@
    }

    pub closed spec fn phase(self) -> SubscribePhase {
        self.phase
    }

    /// Goes on with the request to join the topic, unless its payload has no JSON
    /// value.
    pub fn join(&mut self, payload: Result<serde_json::Value, serde_json::Error>) -> (res:
        SubscribeAction)
        requires
            old(self).phase() == SubscribePhase::Registering,
        ensures
            final(self).topic() == old(self).topic(),
            match payload {
                Ok(payload) => {
                    &&& final(self).phase() == SubscribePhase::Requesting
                    &&& res matches SubscribeAction::Request(req)
                    &&& req.topic@ == old(self).topic()
                    &&& req.event@ == "phx_join"@
                    &&& req.payload == payload
                },
                Err(e) => {
                    &&& final(self).phase() == SubscribePhase::Finished
                    &&& res == SubscribeAction::Return(
                        Err(SubscribeError::Request(RequestError::SerializePayload(e))),
                    )
                },
            },
    {
        match Client::request(self.topic.clone(), "phx_join".to_owned(), payload) {
            Ok(req) => {
                self.phase = SubscribePhase::Requesting;
                SubscribeAction::Request(req)
            },
            Err(e) => self.fail(SubscribeError::Request(e)),
        }
    }

    fn fail(&mut self, error: SubscribeError) -> (res: SubscribeAction)
        ensures
            final(self).topic() == old(self).topic(),
            final(self).phase() == SubscribePhase::Finished,
            res == SubscribeAction::Return(Err(error)),
    {
        self.phase = SubscribePhase::Finished;
        SubscribeAction::Return(Err(error))
    }

    /// Goes on with the subscription: registers it, joins the topic, and ends with
    /// the server's answer or with the first thing that goes wrong.
    pub fn advance(&mut self, event: SubscribeEvent) -> (res: SubscribeAction)
        requires
            answers(event, old(self).phase()),
        ensures
            final(self).topic() == old(self).topic(),
            advances(old(self).topic(), event, final(self).phase(), res),
    {
        match event {
            SubscribeEvent::Registered(true) => self.join(absent_to_value()),
            SubscribeEvent::Registered(false) => self.fail(SubscribeError::ConnectionClosed),
            SubscribeEvent::Requested(true) => {
                self.phase = SubscribePhase::Waiting;
                SubscribeAction::Wait
            },
            SubscribeEvent::Requested(false) => self.fail(
                SubscribeError::Request(RequestError::ConnectionClosed),
            ),
            SubscribeEvent::Replied(reply) => match Client::request_replied(reply) {
                Ok(payload) => {
                    self.phase = SubscribePhase::Reading;
                    SubscribeAction::Read(payload)
                },
                Err(e) => self.fail(SubscribeError::Request(e)),
            },
            SubscribeEvent::Read(read) => match Client::request_read(read) {
                Ok(payload) => {
                    self.phase = SubscribePhase::Finished;
                    SubscribeAction::Return(Client::joined(payload))
                },
                Err(e) => self.fail(SubscribeError::Request(e)),
            },
        }
    }
}

} // verus!

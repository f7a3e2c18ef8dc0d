use fawkes::channel::EventSender;
use fawkes::client::{
    Client, JoinPayload, JoinPayloadResponse, RequestError, SubscribeAction, SubscribeError,
    SubscribeEvent, Subscribing,
};
use fawkes::connection::RequestSendError;
use serde_json::Value;
use tokio::sync::mpsc;
use tokio_tungstenite::tungstenite::Error;

fn sender() -> EventSender {
    mpsc::channel(1).0
}

fn json_error() -> serde_json::Error {
    serde_json::from_str::<Value>("{").unwrap_err()
}

fn begun() -> Subscribing {
    Client::subscribe("room", "price", sender()).0
}

fn reading() -> Subscribing {
    let mut s = begun();
    s.advance(SubscribeEvent::Registered(true));
    s.advance(SubscribeEvent::Requested(true));
    s.advance(SubscribeEvent::Replied(Some(Ok(Value::Null))));
    s
}

fn payload(status: &str, reason: Option<&str>) -> JoinPayload {
    JoinPayload {
        status: status.to_string(),
        response: JoinPayloadResponse { reason: reason.map(|r| r.to_string()) },
    }
}

#[test]
fn the_websocket_lies_below_the_url() {
    let url = url::Url::parse("ws://127.0.0.1:3000/test/socket").unwrap();
    assert_eq!(
        Client::connect(url.as_str()),
        "ws://127.0.0.1:3000/test/socket/websocket"
    );
    assert_eq!(Client::connect(""), "/websocket");
}

#[test]
fn a_subscription_runs_to_its_end() {
    let (mut s, action) = Client::subscribe("room", "price", sender());
    match action {
        SubscribeAction::Register((topic, event, _)) => {
            assert_eq!(topic, "room");
            assert_eq!(event, "price");
        }
        _ => panic!("the subscription is registered first"),
    }
    match s.advance(SubscribeEvent::Registered(true)) {
        SubscribeAction::Request(req) => {
            assert_eq!(req.topic, "room");
            assert_eq!(req.event, "phx_join");
            assert_eq!(req.payload, Value::Null);
        }
        _ => panic!("the topic is joined next"),
    }
    assert!(matches!(s.advance(SubscribeEvent::Requested(true)), SubscribeAction::Wait));
    match s.advance(SubscribeEvent::Replied(Some(Ok(Value::Bool(true))))) {
        SubscribeAction::Read(value) => assert_eq!(value, Value::Bool(true)),
        _ => panic!("the reply is read"),
    }
    assert!(matches!(
        s.advance(SubscribeEvent::Read(Ok(payload("ok", None)))),
        SubscribeAction::Return(Ok(()))
    ));
}

#[test]
fn a_closed_connection_takes_no_subscription() {
    assert!(matches!(
        begun().advance(SubscribeEvent::Registered(false)),
        SubscribeAction::Return(Err(SubscribeError::ConnectionClosed))
    ));
}

#[test]
fn a_closed_connection_takes_no_request() {
    let mut s = begun();
    s.advance(SubscribeEvent::Registered(true));
    assert!(matches!(
        s.advance(SubscribeEvent::Requested(false)),
        SubscribeAction::Return(Err(SubscribeError::Request(RequestError::ConnectionClosed)))
    ));
}

#[test]
fn a_lost_connection_replies_nothing() {
    let mut s = begun();
    s.advance(SubscribeEvent::Registered(true));
    s.advance(SubscribeEvent::Requested(true));
    assert!(matches!(
        s.advance(SubscribeEvent::Replied(None)),
        SubscribeAction::Return(Err(SubscribeError::Request(RequestError::ConnectionClosed)))
    ));
}

#[test]
fn an_unsent_request_fails_the_subscription() {
    let mut s = begun();
    s.advance(SubscribeEvent::Registered(true));
    s.advance(SubscribeEvent::Requested(true));
    assert!(matches!(
        s.advance(SubscribeEvent::Replied(Some(Err(RequestSendError::Send(Error::AlreadyClosed))))),
        SubscribeAction::Return(Err(SubscribeError::Request(RequestError::Send(
            RequestSendError::Send(Error::AlreadyClosed)
        ))))
    ));
}

#[test]
fn an_unreadable_reply_fails_the_subscription() {
    assert!(matches!(
        reading().advance(SubscribeEvent::Read(Err(json_error()))),
        SubscribeAction::Return(Err(SubscribeError::Request(RequestError::DeserializePayload(_))))
    ));
}

#[test]
fn a_payload_without_value_fails_the_subscription() {
    assert!(matches!(
        begun().join(Err(json_error())),
        SubscribeAction::Return(Err(SubscribeError::Request(RequestError::SerializePayload(_))))
    ));
    assert!(matches!(
        Client::request("t".to_string(), "e".to_string(), Err(json_error())),
        Err(RequestError::SerializePayload(_))
    ));
    let req = Client::request("t".to_string(), "e".to_string(), Ok(Value::Bool(false)));
    match req {
        Ok(req) => {
            assert_eq!(req.topic, "t");
            assert_eq!(req.event, "e");
            assert_eq!(req.payload, Value::Bool(false));
        }
        Err(_) => panic!("the request is made"),
    }
}

#[test]
fn only_the_status_error_refuses() {
    for status in ["ok", "", "Error", "error "] {
        assert!(Client::joined(payload(status, Some("why"))).is_ok());
    }
    match reading().advance(SubscribeEvent::Read(Ok(payload("error", Some("unauthorized"))))) {
        SubscribeAction::Return(Err(SubscribeError::Join(reason))) => {
            assert_eq!(reason, "unauthorized")
        }
        _ => panic!("the server refused"),
    }
    match Client::joined(payload("error", None)) {
        Err(SubscribeError::Join(reason)) => assert_eq!(reason, ""),
        _ => panic!("the server refused"),
    }
}

#[test]
fn replies_come_to_payloads_or_errors() {
    assert_eq!(Client::request_replied(Some(Ok(Value::Bool(true)))).unwrap(), Value::Bool(true));
    assert!(matches!(Client::request_replied(None), Err(RequestError::ConnectionClosed)));
    assert!(matches!(
        Client::request_replied(Some(Err(RequestSendError::InvalidMessageOutJson(json_error())))),
        Err(RequestError::Send(RequestSendError::InvalidMessageOutJson(_)))
    ));
    assert_eq!(Client::request_read(Ok(5)).unwrap(), 5);
    assert!(matches!(
        Client::request_read::<u8>(Err(json_error())),
        Err(RequestError::DeserializePayload(_))
    ));
}

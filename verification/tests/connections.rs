use fawkes::channel::{EventSender, Reply, ReplySender};
use fawkes::client::{
    Client, JoinPayload, JoinPayloadResponse, SubscribeAction, SubscribeEvent,
};
use fawkes::connection::{
    Connection, ConnectionError, ConnectionInternalRequest, ConnectionState, Incoming, Notice,
    PollStep, Polled, Progress, RequestSendError, SendAction, SendEvent, SinkPoll, Task,
};
use fawkes::message::MessageIn;
use fawkes::subscriber::Delivery;
use serde_json::Value;
use tokio::sync::{mpsc, oneshot};
use tokio_tungstenite::tungstenite::Error;

fn string(s: &str) -> Value {
    Value::String(s.to_string())
}

fn json_error() -> serde_json::Error {
    serde_json::from_str::<Value>("{").unwrap_err()
}

fn ready() -> Connection {
    let mut conn = Connection::new();
    make_ready(&mut conn);
    conn
}

fn make_ready(conn: &mut Connection) {
    let step = conn.poll_send(SendEvent::Poll);
    assert!(!step.wake);
    assert!(matches!(step.action, SendAction::PollSink));
    let step = conn.poll_send(SendEvent::Sink(SinkPoll::Ready));
    assert!(!step.wake);
    assert!(matches!(step.action, SendAction::Return(Progress::Pending)));
    assert_eq!(conn.state(), ConnectionState::Ready);
}

fn request(topic: &str, event: &str, payload: Value) -> ConnectionInternalRequest {
    ConnectionInternalRequest {
        topic: topic.to_string(),
        event: event.to_string(),
        payload,
    }
}

fn start(conn: &mut Connection, req: ConnectionInternalRequest, tx: ReplySender) -> (String, ReplySender) {
    assert!(matches!(conn.poll_send(SendEvent::Poll).action, SendAction::PollTimer));
    let step = conn.poll_send(SendEvent::Timer(false));
    assert!(!step.wake);
    assert!(matches!(step.action, SendAction::PollQueue));
    let step = conn.poll_send(SendEvent::Queue(Polled::Item((req, tx))));
    assert!(step.wake);
    match step.action {
        SendAction::StartRequest(text, tx) => (text, tx),
        _ => panic!("the request is started"),
    }
}

fn send(conn: &mut Connection, event: &str) -> (String, oneshot::Receiver<Reply>) {
    let (tx, rx) = oneshot::channel();
    let (text, tx) = start(conn, request("t", event, Value::Null), tx);
    let step = conn.poll_send(SendEvent::RequestStarted(tx, Ok(())));
    assert!(!step.wake);
    assert!(matches!(step.action, SendAction::Return(Progress::Pending)));
    assert_eq!(conn.state(), ConnectionState::Unknown);
    (text, rx)
}

fn beat(conn: &mut Connection) -> String {
    assert!(matches!(conn.poll_send(SendEvent::Poll).action, SendAction::PollTimer));
    let step = conn.poll_send(SendEvent::Timer(true));
    assert!(step.wake);
    let text = match step.action {
        SendAction::StartHeartbeat(text) => text,
        _ => panic!("the heartbeat is started"),
    };
    let step = conn.poll_send(SendEvent::HeartbeatStarted(Ok(())));
    assert!(!step.wake);
    assert!(matches!(step.action, SendAction::Return(Progress::Pending)));
    assert_eq!(conn.state(), ConnectionState::Unknown);
    text
}

fn message(topic: &str, event: &str, payload: Value, reference: Option<&str>) -> MessageIn {
    MessageIn {
        topic: topic.to_string(),
        event: event.to_string(),
        payload,
        reference: reference.map(|r| r.to_string()),
    }
}

fn receive(conn: &mut Connection, msg: MessageIn) -> Notice {
    let step = conn.poll_request_receiver(Incoming::Text(Ok(msg)));
    assert!(step.wake);
    assert!(matches!(step.progress, Progress::Pending));
    step.notice
}

fn subscribe(conn: &mut Connection, topic: &str, event: &str, tx: EventSender) {
    let step = conn.poll_subscription_receiver(Polled::Item((topic.to_string(), event.to_string(), tx)));
    assert!(step.wake);
    assert!(matches!(step.progress, Progress::Pending));
}

#[test]
fn it_works() {
    let url = url::Url::parse("ws://127.0.0.1:3000/test/socket").expect("valid url");
    assert_eq!(Client::connect(url.as_str()), "ws://127.0.0.1:3000/test/socket/websocket");
    let mut conn = Connection::new();

    // The subscription is registered.
    let (sub_tx, mut sub_rx) = mpsc::channel(1);
    let (mut subscribing, action) = Client::subscribe("a", "event_name", sub_tx);
    match action {
        SubscribeAction::Register(subscription) => {
            let step = conn.poll_subscription_receiver(Polled::Item(subscription));
            assert!(step.wake);
        }
        _ => panic!("the subscription is registered first"),
    }

    // The topic is joined.
    let (tx, mut rx) = oneshot::channel();
    let req = match subscribing.advance(SubscribeEvent::Registered(true)) {
        SubscribeAction::Request(req) => req,
        _ => panic!("the topic is joined next"),
    };
    make_ready(&mut conn);
    let (text, tx) = start(&mut conn, req, tx);
    assert_eq!(text, "{\"topic\":\"a\",\"event\":\"phx_join\",\"payload\":null,\"ref\":\"0\"}");
    conn.poll_send(SendEvent::RequestStarted(tx, Ok(())));
    assert!(matches!(subscribing.advance(SubscribeEvent::Requested(true)), SubscribeAction::Wait));

    // The server grants it.
    let granted: Value = serde_json::from_str("{\"status\":\"ok\",\"response\":{}}").unwrap();
    let notice = receive(&mut conn, message("a", "phx_reply", granted.clone(), Some("0")));
    assert!(matches!(notice, Notice::Reply(Ok(()))));
    let reply = rx.try_recv().expect("reply");
    match subscribing.advance(SubscribeEvent::Replied(Some(reply))) {
        SubscribeAction::Read(payload) => assert_eq!(payload, granted),
        _ => panic!("the reply is read"),
    }
    let payload = JoinPayload {
        status: "ok".to_string(),
        response: JoinPayloadResponse { reason: None },
    };
    assert!(matches!(
        subscribing.advance(SubscribeEvent::Read(Ok(payload))),
        SubscribeAction::Return(Ok(()))
    ));

    // An event comes in.
    let test: Value = serde_json::from_str("{\"test\": true}").unwrap();
    let notice = receive(&mut conn, message("a", "event_name", test.clone(), None));
    match notice {
        Notice::Event(outcomes, gone) => {
            assert_eq!(outcomes, vec![Delivery::Delivered]);
            assert!(gone.is_empty());
        }
        _ => panic!("it is an event"),
    }
    assert_eq!(sub_rx.try_recv().expect("event"), test);

    // The client goes away and the connection closes gracefully.
    let step = conn.poll_subscription_receiver(Polled::Closed);
    assert!(!step.wake);
    assert!(matches!(conn.poll_send(SendEvent::Poll).action, SendAction::PollClose));
    conn.poll_send(SendEvent::Close(true));
    let step = conn.poll_request_receiver(Incoming::Ended);
    match Connection::poll(Some((Task::Receive, step.progress))) {
        PollStep::Return(Progress::Finished(result)) => result.expect("connection closed gracefully"),
        _ => panic!("the connection ends"),
    }
}

#[test]
fn a_new_connection_is_idle() {
    let conn = Connection::new();
    assert_eq!(conn.state(), ConnectionState::Unknown);
    assert_eq!(conn.reference(), 0);
}

#[test]
fn messages_are_numbered_in_turn() {
    let mut conn = ready();
    assert_eq!(beat(&mut conn), "{\"topic\":\"phoenix\",\"event\":\"heartbeat\",\"payload\":null,\"ref\":\"0\"}");
    make_ready(&mut conn);
    let (text, _rx) = send(&mut conn, "one");
    assert_eq!(text, "{\"topic\":\"t\",\"event\":\"one\",\"payload\":null,\"ref\":\"1\"}");
    make_ready(&mut conn);
    let (text, _rx) = send(&mut conn, "two");
    assert_eq!(text, "{\"topic\":\"t\",\"event\":\"two\",\"payload\":null,\"ref\":\"2\"}");
    assert_eq!(conn.reference(), 3);
}

#[test]
fn replies_find_their_request_once() {
    let mut conn = ready();
    let (_, mut first) = send(&mut conn, "one");
    make_ready(&mut conn);
    let (_, mut second) = send(&mut conn, "two");
    subscribe(&mut conn, "t", "one", mpsc::channel(1).0);
    let notice = receive(&mut conn, message("t", "phx_reply", string("for two"), Some("1")));
    assert!(matches!(notice, Notice::Reply(Ok(()))));
    assert_eq!(second.try_recv().unwrap().unwrap(), string("for two"));
    assert!(first.try_recv().is_err());
    let notice = receive(&mut conn, message("t", "phx_reply", string("again"), Some("1")));
    assert!(matches!(notice, Notice::NotPending));
    let notice = receive(&mut conn, message("t", "phx_reply", string("for one"), Some("0")));
    assert!(matches!(notice, Notice::Reply(Ok(()))));
    assert_eq!(first.try_recv().unwrap().unwrap(), string("for one"));
    let notice = receive(&mut conn, message("t", "phx_reply", string("odd"), Some("00")));
    assert!(matches!(notice, Notice::NotPending));
}

#[test]
fn replies_that_nobody_waits_for_come_back() {
    let mut conn = ready();
    let (_, rx) = send(&mut conn, "one");
    drop(rx);
    match receive(&mut conn, message("t", "phx_reply", string("late"), Some("0"))) {
        Notice::Reply(Err(Ok(back))) => assert_eq!(back, string("late")),
        _ => panic!("the reply comes back"),
    }
}

#[test]
fn refused_requests_are_answered_and_keep_their_number() {
    let mut conn = ready();
    let (tx, mut rx) = oneshot::channel();
    let (_, tx) = start(&mut conn, request("t", "e", Value::Null), tx);
    let step = conn.poll_send(SendEvent::RequestStarted(tx, Err(Error::AlreadyClosed)));
    assert!(matches!(step.action, SendAction::Return(Progress::Pending)));
    assert!(matches!(step.refusal, Some(Ok(()))));
    assert!(matches!(
        rx.try_recv().unwrap(),
        Err(RequestSendError::Send(Error::AlreadyClosed))
    ));
    assert_eq!(conn.reference(), 0);
    assert_eq!(conn.state(), ConnectionState::Unknown);
    let notice = receive(&mut conn, message("t", "phx_reply", Value::Null, Some("0")));
    assert!(matches!(notice, Notice::NotPending));
}

#[test]
fn requests_without_text_are_answered() {
    let mut conn = ready();
    conn.poll_send(SendEvent::Poll);
    conn.poll_send(SendEvent::Timer(false));
    let (tx, mut rx) = oneshot::channel();
    let step = conn.request_encoded(Err(json_error()), tx);
    assert!(step.wake);
    assert!(matches!(step.action, SendAction::Return(Progress::Pending)));
    assert!(matches!(
        rx.try_recv().unwrap(),
        Err(RequestSendError::InvalidMessageOutJson(_))
    ));
    assert!(matches!(step.refusal, Some(Ok(()))));
    assert_eq!(conn.state(), ConnectionState::Unknown);
    assert_eq!(conn.reference(), 0);
}

#[test]
fn heartbeats_that_cannot_be_sent_end_the_task() {
    let mut conn = ready();
    conn.poll_send(SendEvent::Poll);
    let step = conn.heartbeat_encoded(Err(RequestSendError::InvalidMessageOutJson(json_error())));
    assert!(step.wake);
    assert!(matches!(
        step.action,
        SendAction::Return(Progress::Finished(Err(ConnectionError::Heartbeat)))
    ));
    let mut conn = ready();
    conn.poll_send(SendEvent::Poll);
    conn.poll_send(SendEvent::Timer(true));
    let step = conn.poll_send(SendEvent::HeartbeatStarted(Err(Error::AlreadyClosed)));
    assert!(matches!(
        step.action,
        SendAction::Return(Progress::Finished(Err(ConnectionError::Heartbeat)))
    ));
    assert_eq!(conn.state(), ConnectionState::Ready);
    assert_eq!(conn.reference(), 0);
}

#[test]
fn heartbeat_replies_stay_inside() {
    let mut conn = ready();
    beat(&mut conn);
    make_ready(&mut conn);
    let (_, mut rx) = send(&mut conn, "one");
    let notice = receive(&mut conn, message("phoenix", "phx_reply", Value::Null, Some("0")));
    assert!(matches!(notice, Notice::HeartbeatReply));
    let notice = receive(&mut conn, message("phoenix", "phx_reply", Value::Null, Some("0")));
    assert!(matches!(notice, Notice::NotPending));
    assert!(rx.try_recv().is_err());
}

#[test]
fn late_heartbeat_replies_are_ignored() {
    let mut conn = ready();
    beat(&mut conn);
    make_ready(&mut conn);
    beat(&mut conn);
    let notice = receive(&mut conn, message("phoenix", "phx_reply", Value::Null, Some("0")));
    assert!(matches!(notice, Notice::NotPending));
    let notice = receive(&mut conn, message("phoenix", "phx_reply", Value::Null, Some("1")));
    assert!(matches!(notice, Notice::HeartbeatReply));
}

#[test]
fn events_go_to_their_subscriptions() {
    let mut conn = Connection::new();
    let (a_tx, mut a_rx) = mpsc::channel(1);
    let (b_tx, b_rx) = mpsc::channel(1);
    let (c_tx, mut c_rx) = mpsc::channel(1);
    let (d_tx, mut d_rx) = mpsc::channel(1);
    subscribe(&mut conn, "t", "e", a_tx);
    subscribe(&mut conn, "t", "e", b_tx);
    subscribe(&mut conn, "t", "e", c_tx);
    subscribe(&mut conn, "u", "e", d_tx);
    drop(b_rx);
    match receive(&mut conn, message("t", "e", string("one"), None)) {
        Notice::Event(outcomes, gone) => {
            assert_eq!(
                outcomes,
                vec![Delivery::Delivered, Delivery::Closed, Delivery::Delivered]
            );
            assert_eq!(gone.len(), 1);
        }
        _ => panic!("it is an event"),
    }
    assert_eq!(a_rx.try_recv().unwrap(), string("one"));
    match receive(&mut conn, message("t", "e", string("two"), None)) {
        Notice::Event(outcomes, gone) => {
            assert_eq!(outcomes, vec![Delivery::Delivered, Delivery::Full]);
            assert!(gone.is_empty());
        }
        _ => panic!("it is an event"),
    }
    assert_eq!(a_rx.try_recv().unwrap(), string("two"));
    assert_eq!(c_rx.try_recv().unwrap(), string("one"));
    assert!(c_rx.try_recv().is_err());
    assert!(d_rx.try_recv().is_err());
    assert!(matches!(
        receive(&mut conn, message("t", "other", string("x"), None)),
        Notice::NoSubscription
    ));
    assert!(matches!(
        receive(&mut conn, message("t", "e", string("x"), Some("9"))),
        Notice::NotPending
    ));
    assert!(a_rx.try_recv().is_err());
}

#[test]
fn the_sink_decides_when_to_send() {
    let mut conn = Connection::new();
    conn.poll_send(SendEvent::Poll);
    let step = conn.poll_send(SendEvent::Sink(SinkPoll::Pending));
    assert!(matches!(step.action, SendAction::Return(Progress::Pending)));
    assert_eq!(conn.state(), ConnectionState::Unknown);
    conn.poll_send(SendEvent::Poll);
    let step = conn.poll_send(SendEvent::Sink(SinkPoll::Failed(Error::ConnectionClosed)));
    assert!(matches!(
        step.action,
        SendAction::Return(Progress::Finished(Err(ConnectionError::Websocket(Error::ConnectionClosed))))
    ));
    make_ready(&mut conn);
    conn.poll_send(SendEvent::Poll);
    conn.poll_send(SendEvent::Timer(false));
    let step = conn.poll_send(SendEvent::Queue(Polled::Pending));
    assert!(!step.wake);
    assert!(matches!(step.action, SendAction::Return(Progress::Pending)));
    assert_eq!(conn.state(), ConnectionState::Ready);
}

#[test]
fn the_last_request_closes_the_connection() {
    let mut conn = ready();
    conn.poll_send(SendEvent::Poll);
    conn.poll_send(SendEvent::Timer(false));
    let step = conn.poll_send(SendEvent::Queue(Polled::Closed));
    assert!(!step.wake);
    assert_eq!(conn.state(), ConnectionState::Closing);
    assert!(matches!(conn.poll_send(SendEvent::Poll).action, SendAction::PollClose));
    conn.poll_send(SendEvent::Close(false));
    assert_eq!(conn.state(), ConnectionState::Closing);
    conn.poll_send(SendEvent::Poll);
    let step = conn.poll_send(SendEvent::Close(true));
    assert!(matches!(step.action, SendAction::Return(Progress::Pending)));
    assert_eq!(conn.state(), ConnectionState::Closed);
    assert!(matches!(
        conn.poll_send(SendEvent::Poll).action,
        SendAction::Return(Progress::Finished(Ok(())))
    ));
    conn.poll_subscription_receiver(Polled::Closed);
    assert_eq!(conn.state(), ConnectionState::Closing);
}

#[test]
fn frames_without_messages() {
    let mut conn = ready();
    let step = conn.poll_request_receiver(Incoming::Pending);
    assert!(!step.wake);
    assert!(matches!(step.progress, Progress::Pending));
    let step = conn.poll_request_receiver(Incoming::Other);
    assert!(step.wake);
    assert!(matches!(step.notice, Notice::Nothing));
    let step = conn.poll_request_receiver(Incoming::Text(Err(json_error())));
    assert!(step.wake);
    assert!(matches!(step.progress, Progress::Pending));
    assert!(matches!(step.notice, Notice::Undecodable(_)));
    let step = conn.poll_request_receiver(Incoming::Failed(Error::ConnectionClosed));
    assert!(step.wake);
    assert!(matches!(
        step.progress,
        Progress::Finished(Err(ConnectionError::Websocket(Error::ConnectionClosed)))
    ));
    assert_eq!(conn.state(), ConnectionState::Ready);
    let step = conn.poll_request_receiver(Incoming::Close);
    assert!(step.wake);
    assert!(matches!(step.progress, Progress::Pending));
    assert_eq!(conn.state(), ConnectionState::Closing);
    let step = conn.poll_request_receiver(Incoming::Ended);
    assert!(step.wake);
    assert!(matches!(step.progress, Progress::Finished(Ok(()))));
}

#[test]
fn the_tasks_run_in_turn_and_end_well() {
    assert!(matches!(Connection::poll(None), PollStep::Run(Task::Subscriptions)));
    assert!(matches!(
        Connection::poll(Some((Task::Subscriptions, Progress::Pending))),
        PollStep::Run(Task::Send)
    ));
    assert!(matches!(
        Connection::poll(Some((Task::Send, Progress::Pending))),
        PollStep::Run(Task::Receive)
    ));
    assert!(matches!(
        Connection::poll(Some((Task::Receive, Progress::Pending))),
        PollStep::Return(Progress::Pending)
    ));
    for task in [Task::Subscriptions, Task::Send, Task::Receive] {
        assert!(matches!(
            Connection::poll(Some((task, Progress::Finished(Err(ConnectionError::Heartbeat))))),
            PollStep::Return(Progress::Finished(Ok(())))
        ));
    }
}

#[test]
fn refusals_that_nobody_waits_for_come_back() {
    let mut conn = ready();
    let (tx, rx) = oneshot::channel();
    drop(rx);
    let (_, tx) = start(&mut conn, request("t", "e", Value::Null), tx);
    let step = conn.poll_send(SendEvent::RequestStarted(tx, Err(Error::AlreadyClosed)));
    assert!(matches!(
        step.refusal,
        Some(Err(Err(RequestSendError::Send(Error::AlreadyClosed))))
    ));
}

#[test]
fn messages_without_a_waiter_count_like_the_others() {
    let mut alone = ready();
    alone.poll_send(SendEvent::Poll);
    let text = alone.send_request_sync(request("t", "e", string("p"))).unwrap();
    let mut waited = ready();
    let (tx, _rx) = oneshot::channel();
    let (other, tx) = start(&mut waited, request("t", "e", string("p")), tx);
    assert_eq!(text, other);
    assert_eq!(text, "{\"topic\":\"t\",\"event\":\"e\",\"payload\":\"p\",\"ref\":\"0\"}");
    assert!(alone.send_request_sync_started(Ok(())).is_ok());
    waited.poll_send(SendEvent::RequestStarted(tx, Ok(())));
    assert_eq!(alone.reference(), 1);
    assert_eq!(waited.reference(), 1);
    assert_eq!(alone.state(), ConnectionState::Ready);
    assert!(matches!(
        receive(&mut alone, message("t", "phx_reply", Value::Null, Some("0"))),
        Notice::NotPending
    ));
}

#[test]
fn messages_without_a_waiter_say_why_they_fail() {
    let mut conn = ready();
    conn.poll_send(SendEvent::Poll);
    assert!(matches!(
        conn.send_request_sync_encoded(Err(json_error())),
        Err(RequestSendError::InvalidMessageOutJson(_))
    ));
    assert!(conn.send_request_sync(request("t", "e", Value::Null)).is_ok());
    assert!(matches!(
        conn.send_request_sync_started(Err(Error::AlreadyClosed)),
        Err(RequestSendError::Send(Error::AlreadyClosed))
    ));
    assert_eq!(conn.reference(), 0);
    assert_eq!(conn.state(), ConnectionState::Ready);
}

#[test]
fn refused_messages_leave_no_gap() {
    let mut conn = ready();
    let mut texts = vec![];
    for i in 0..6 {
        let (tx, _rx) = oneshot::channel();
        let (text, tx) = start(&mut conn, request("t", "e", Value::Null), tx);
        if i % 2 == 0 {
            conn.poll_send(SendEvent::RequestStarted(tx, Err(Error::AlreadyClosed)));
        } else {
            conn.poll_send(SendEvent::RequestStarted(tx, Ok(())));
            texts.push(text);
        }
        make_ready(&mut conn);
    }
    for (n, text) in texts.iter().enumerate() {
        assert!(text.ends_with(&format!(",\"ref\":\"{}\"}}", n)));
    }
    assert_eq!(conn.reference(), 3);
}

#[test]
fn queues_hold_what_was_delivered() {
    let mut conn = Connection::new();
    let (s0, mut r0) = mpsc::channel(1);
    let (s1, mut r1) = mpsc::channel(1);
    let (s2, r2) = mpsc::channel(1);
    s1.try_send(Value::from(1)).unwrap();
    subscribe(&mut conn, "a", "event_name", s0);
    subscribe(&mut conn, "a", "event_name", s1);
    subscribe(&mut conn, "a", "event_name", s2);
    drop(r2);
    let test: Value = serde_json::from_str("{\"test\":true}").unwrap();
    match receive(&mut conn, message("a", "event_name", test.clone(), None)) {
        Notice::Event(outcomes, mut gone) => {
            assert_eq!(
                outcomes,
                vec![Delivery::Delivered, Delivery::Full, Delivery::Closed]
            );
            assert_eq!(gone.len(), 1);
            assert_eq!(gone[0].offer(&test), Delivery::Closed);
        }
        _ => panic!("it is an event"),
    }
    assert_eq!(r0.try_recv().unwrap(), test);
    assert!(r0.try_recv().is_err());
    assert_eq!(r1.try_recv().unwrap(), Value::from(1));
    assert!(r1.try_recv().is_err());
    match receive(&mut conn, message("a", "event_name", string("next"), None)) {
        Notice::Event(outcomes, gone) => {
            assert_eq!(outcomes, vec![Delivery::Delivered, Delivery::Delivered]);
            assert!(gone.is_empty());
        }
        _ => panic!("it is an event"),
    }
}

#[test]
fn other_frames_deliver_nothing() {
    let mut conn = Connection::new();
    let (tx, mut rx) = mpsc::channel(1);
    subscribe(&mut conn, "a", "e", tx);
    conn.poll_request_receiver(Incoming::Other);
    conn.poll_request_receiver(Incoming::Text(Err(json_error())));
    receive(&mut conn, message("a", "e", string("reply"), Some("7")));
    assert!(rx.try_recv().is_err());
}

#[test]
fn a_closing_connection_asks_only_to_be_closed() {
    let mut conn = ready();
    let (_, mut rx) = send(&mut conn, "one");
    conn.poll_request_receiver(Incoming::Close);
    assert_eq!(conn.state(), ConnectionState::Closing);
    for _ in 0..3 {
        assert!(matches!(conn.poll_send(SendEvent::Poll).action, SendAction::PollClose));
        let step = conn.poll_send(SendEvent::Close(false));
        assert!(matches!(step.action, SendAction::Return(Progress::Pending)));
    }
    let notice = receive(&mut conn, message("t", "phx_reply", string("late"), Some("0")));
    assert!(matches!(notice, Notice::Reply(Ok(()))));
    assert_eq!(rx.try_recv().unwrap().unwrap(), string("late"));
    assert_eq!(conn.state(), ConnectionState::Closing);
    assert_eq!(conn.reference(), 1);
}

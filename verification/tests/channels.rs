use fawkes::channel::{keep_open, offer_to_all, send_reply, Reply};
use fawkes::connection::RequestSendError;
use fawkes::subscriber::{Delivery, Subscriber};
use fawkes::table::{PendingRequests, Subscriptions};
use serde_json::Value;
use tokio::sync::{mpsc, oneshot};

fn string(s: &str) -> Value {
    Value::String(s.to_string())
}

#[test]
fn closed_senders_are_dropped_in_place() {
    let mut senders = vec![1, 2, 3, 4, 5];
    let gone = keep_open(
        &mut senders,
        &vec![
            Delivery::Closed,
            Delivery::Delivered,
            Delivery::Closed,
            Delivery::Full,
            Delivery::Delivered,
        ],
    );
    assert_eq!(senders, vec![2, 4, 5]);
    assert_eq!(gone, vec![1, 3]);
}

#[test]
fn open_senders_all_stay() {
    let mut senders = vec!['a', 'b'];
    assert!(keep_open(&mut senders, &vec![Delivery::Full, Delivery::Delivered]).is_empty());
    assert_eq!(senders, vec!['a', 'b']);
    let mut none: Vec<char> = vec![];
    assert!(keep_open(&mut none, &vec![]).is_empty());
    assert!(none.is_empty());
    let mut all = vec!['a', 'b'];
    assert_eq!(keep_open(&mut all, &vec![Delivery::Closed, Delivery::Closed]), vec!['a', 'b']);
    assert!(all.is_empty());
}

#[test]
fn offers_tell_apart_delivered_full_and_closed() {
    let (open_tx, mut open_rx) = mpsc::channel(1);
    let (full_tx, mut full_rx) = mpsc::channel(1);
    let (closed_tx, closed_rx) = mpsc::channel(1);
    full_tx.try_send(string("first")).unwrap();
    drop(closed_rx);
    let mut subscribers = vec![
        Subscriber::new(open_tx),
        Subscriber::new(full_tx),
        Subscriber::new(closed_tx),
    ];
    let outcomes = offer_to_all(&mut subscribers, &string("new"));
    assert_eq!(subscribers.len(), 3);
    assert_eq!(
        outcomes,
        vec![Delivery::Delivered, Delivery::Full, Delivery::Closed]
    );
    assert_eq!(open_rx.try_recv().unwrap(), string("new"));
    assert!(open_rx.try_recv().is_err());
    assert_eq!(full_rx.try_recv().unwrap(), string("first"));
    assert!(full_rx.try_recv().is_err());
}

#[test]
fn one_offer_puts_one_copy_into_the_channel() {
    let (tx, mut rx) = mpsc::channel(1);
    let mut subscriber = Subscriber::new(tx);
    assert_eq!(subscriber.offer(&string("one")), Delivery::Delivered);
    assert_eq!(subscriber.offer(&string("two")), Delivery::Full);
    assert_eq!(rx.try_recv().unwrap(), string("one"));
    assert!(rx.try_recv().is_err());
    drop(rx);
    assert_eq!(subscriber.offer(&string("three")), Delivery::Closed);
}

#[test]
fn replies_are_handed_over_or_given_back() {
    let (tx, mut rx) = oneshot::channel::<Reply>();
    assert!(send_reply(tx, Ok(string("payload"))).is_ok());
    assert_eq!(rx.try_recv().unwrap().unwrap(), string("payload"));

    let (tx, rx) = oneshot::channel::<Reply>();
    drop(rx);
    match send_reply(tx, Ok(string("payload"))) {
        Err(Ok(back)) => assert_eq!(back, string("payload")),
        _ => panic!("the reply is given back"),
    }
}

#[test]
fn pending_requests_are_found_by_reference() {
    let mut pending = PendingRequests::new();
    let (a_tx, mut a_rx) = oneshot::channel::<Reply>();
    let (b_tx, mut b_rx) = oneshot::channel::<Reply>();
    let (c_tx, mut c_rx) = oneshot::channel::<Reply>();
    assert!(pending.insert("1".to_string(), a_tx).is_none());
    assert!(pending.insert("2".to_string(), b_tx).is_none());
    assert!(pending.remove(&"01".to_string()).is_none());
    let replaced = pending.insert("1".to_string(), c_tx).unwrap();
    assert!(replaced.send(Ok(string("a"))).is_ok());
    assert_eq!(a_rx.try_recv().unwrap().unwrap(), string("a"));
    let c = pending.remove(&"1".to_string()).unwrap();
    assert!(c.send(Ok(string("c"))).is_ok());
    assert_eq!(c_rx.try_recv().unwrap().unwrap(), string("c"));
    assert!(pending.remove(&"1".to_string()).is_none());
    let b = pending.remove(&"2".to_string()).unwrap();
    assert!(b.send(Err(RequestSendError::Send(tokio_tungstenite::tungstenite::Error::AlreadyClosed))).is_ok());
    assert!(matches!(b_rx.try_recv().unwrap(), Err(RequestSendError::Send(_))));
}

#[test]
fn subscriptions_are_found_by_topic_and_event() {
    let mut subscriptions = Subscriptions::new();
    let (a_tx, mut a_rx) = mpsc::channel(1);
    let (b_tx, b_rx) = mpsc::channel(1);
    let (c_tx, mut c_rx) = mpsc::channel(1);
    subscriptions.insert("t".to_string(), "e".to_string(), a_tx);
    subscriptions.insert("t".to_string(), "e".to_string(), b_tx);
    subscriptions.insert("t".to_string(), "f".to_string(), c_tx);
    drop(b_rx);
    let (t, e, f) = ("t".to_string(), "e".to_string(), "f".to_string());
    assert!(subscriptions.publish(&e, &t, &string("no")).is_none());
    let (outcomes, mut gone) = subscriptions.publish(&t, &e, &string("one")).unwrap();
    assert_eq!(outcomes, vec![Delivery::Delivered, Delivery::Closed]);
    assert_eq!(gone.len(), 1);
    assert_eq!(gone[0].offer(&string("late")), Delivery::Closed);
    let (outcomes, gone) = subscriptions.publish(&t, &e, &string("two")).unwrap();
    assert_eq!(outcomes, vec![Delivery::Full]);
    assert!(gone.is_empty());
    assert_eq!(a_rx.try_recv().unwrap(), string("one"));
    let (outcomes, gone) = subscriptions.publish(&t, &e, &string("three")).unwrap();
    assert_eq!(outcomes, vec![Delivery::Delivered]);
    assert!(gone.is_empty());
    assert_eq!(a_rx.try_recv().unwrap(), string("three"));
    assert!(c_rx.try_recv().is_err());
    drop(a_rx);
    let (outcomes, gone) = subscriptions.publish(&t, &e, &string("four")).unwrap();
    assert_eq!(outcomes, vec![Delivery::Closed]);
    assert_eq!(gone.len(), 1);
    let (outcomes, gone) = subscriptions.publish(&t, &e, &string("five")).unwrap();
    assert!(outcomes.is_empty());
    assert!(gone.is_empty());
    let (outcomes, gone) = subscriptions.publish(&t, &f, &string("six")).unwrap();
    assert_eq!(outcomes, vec![Delivery::Delivered]);
    assert!(gone.is_empty());
    assert_eq!(c_rx.try_recv().unwrap(), string("six"));
}

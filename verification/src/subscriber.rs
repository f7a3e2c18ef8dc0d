//! A subscription's end of the connection, and the record of what it was offered.

use crate::channel::EventSender;
use vstd::prelude::*;

verus! {

/// What came of offering an event to a subscription.
#[derive(Clone, Copy, Debug, PartialEq, Eq, Structural)]
pub enum Delivery {
    /// The event is in the subscription's channel.
    Delivered,
    /// The channel had no room; the event is lost to this subscription.
    Full,
    /// Nobody receives any more.
    Closed,
}

/// A subscription as the connection knows it: its channel, and every payload that
/// it was offered, with what came of it, in order.
#[verifier::ext_equal]
pub struct SubscriberView {
    pub tx: EventSender,
    pub log: Seq<(serde_json::Value, Delivery)>,
}

/// The payloads in `log` that went into the channel, in order.
pub open spec fn delivered(log: Seq<(serde_json::Value, Delivery)>) -> Seq<serde_json::Value>
    decreases log.len(),
{
    if log.len() == 0 {
        Seq::empty()
    } else if log.last().1 == Delivery::Delivered {
        delivered(log.drop_last()).push(log.last().0)
    } else {
        delivered(log.drop_last())
    }
}

impl SubscriberView {
    /// One that was offered nothing yet.
    pub open spec fn fresh(tx: EventSender) -> Self {
        SubscriberView { tx, log: Seq::empty() }
    }

    /// After one more offer.
    pub open spec fn offered(self, payload: serde_json::Value, outcome: Delivery) -> Self {
        SubscriberView { tx: self.tx, log: self.log.push((payload, outcome)) }
    }

    /// The payloads that it was offered, in order.
    pub open spec fn payloads(self) -> Seq<serde_json::Value> {
        self.log.map_values(|entry: (serde_json::Value, Delivery)| entry.0)
    }
}

/// Where the payloads of one subscription go.
pub struct Subscriber {
    tx: EventSender,
    log: Ghost<Seq<(serde_json::Value, Delivery)>>,
}

impl View for Subscriber {
    type V = SubscriberView;

    closed spec fn view(&self) -> SubscriberView {
        SubscriberView { tx: self.tx, log: self.log@ }
    }
}

impl Subscriber {
    pub fn new(tx: EventSender) -> (res: Self)
        ensures
            res@ == SubscriberView::fresh(tx),
    {
        Subscriber { tx, log: Ghost(Seq::empty()) }
    }

    /// `tokio::sync::mpsc::Sender::try_send` on a copy of `payload`. The call makes
    /// one attempt on this channel: it puts the payload behind what is in the channel
    /// and says `Delivered`, or leaves the channel as it is and says why. The record
    /// notes that attempt and what came of it. Which outcome it has is up to the
    /// receiving task and to what is still in the channel, so nothing is claimed of
    /// that.
    #[verifier::external_body]
    fn offer_once(&mut self, payload: &serde_json::Value) -> (res: Delivery)
        ensures
            final(self)@ == old(self)@.offered(*payload, res),
    {
        match self.tx.try_send(payload.clone()) {
            Ok(()) => Delivery::Delivered,
            Err(tokio::sync::mpsc::error::TrySendError::Full(_)) => Delivery::Full,
            Err(tokio::sync::mpsc::error::TrySendError::Closed(_)) => Delivery::Closed,
        }
    }

    /// Offers `payload` to the subscription, once, and says what its channel answered.
    pub fn offer(&mut self, payload: &serde_json::Value) -> (res: Delivery)
        ensures
            final(self)@ == old(self)@.offered(*payload, res),
            attempted(old(self)@.tx, *payload, res),
    {
        self.offer_once(payload)
    }
}

/// `payload` was offered to the channel `tx`, and `outcome` is what it answered.
pub closed spec fn attempted(
    tx: EventSender,
    payload: serde_json::Value,
    outcome: Delivery,
) -> bool {
    exists|s: &mut Subscriber|
        s.tx == tx && #[trigger] call_ensures(Subscriber::offer_once, (s, &payload), outcome)
}

/// A payload counts as offered only where the channel was really asked to take it, and
/// the outcome is then what the channel answered.
proof fn law_offers_are_made_to_the_channel(
    tx: EventSender,
    payload: serde_json::Value,
    outcome: Delivery,
)
    requires
        attempted(tx, payload, outcome),
    ensures
        exists|s: &mut Subscriber|
            s@.tx == tx && #[trigger] call_ensures(
                Subscriber::offer_once,
                (s, &payload),
                outcome,
            ),
{
    let s = choose|s: &mut Subscriber|
        s.tx == tx && #[trigger] call_ensures(Subscriber::offer_once, (s, &payload), outcome);
    assert(s@.tx == tx);
}

/// What `subscribers` are, in order.
pub open spec fn views(subscribers: Seq<Subscriber>) -> Seq<SubscriberView> {
    subscribers.map_values(|s: Subscriber| s@)
}

} // verus!

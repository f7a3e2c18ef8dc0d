//! What offering an event to a list of subscriptions comes to.

use crate::channel::{attempted_on_all, dropped, kept, offered_to_all, EventSender};
use crate::subscriber::{attempted, delivered, views, Delivery, Subscriber, SubscriberView};
use crate::table::{subscribers, TopicEvent};
use vstd::prelude::*;

verus! {

/// Whether a sender stays is a matter of its own outcome, and each list stays in its
/// order: two lists one after the other are sorted out one after the other.
pub proof fn law_lists_are_sorted_out_in_order<S>(
    first: Seq<S>,
    then: Seq<S>,
    first_outcomes: Seq<Delivery>,
    then_outcomes: Seq<Delivery>,
)
    requires
        first.len() == first_outcomes.len(),
        then.len() == then_outcomes.len(),
    ensures
        kept(first + then, first_outcomes + then_outcomes) == kept(first, first_outcomes) + kept(
            then,
            then_outcomes,
        ),
        dropped(first + then, first_outcomes + then_outcomes) == dropped(first, first_outcomes)
            + dropped(then, then_outcomes),
    decreases then.len(),
{
    let all = first + then;
    let outcomes = first_outcomes + then_outcomes;
    if then.len() == 0 {
        assert(all =~= first);
        assert(outcomes =~= first_outcomes);
    } else {
        assert(all.drop_last() =~= first + then.drop_last());
        assert(outcomes.drop_last() =~= first_outcomes + then_outcomes.drop_last());
        law_lists_are_sorted_out_in_order(
            first,
            then.drop_last(),
            first_outcomes,
            then_outcomes.drop_last(),
        );
    }
    assert(kept(all, outcomes) =~= kept(first, first_outcomes) + kept(then, then_outcomes));
    assert(dropped(all, outcomes) =~= dropped(first, first_outcomes) + dropped(
        then,
        then_outcomes,
    ));
}

/// A sender goes where it turned out to be closed, and stays where its channel took the
/// event or was full.
pub proof fn law_closed_senders_go<S>(sender: S, outcome: Delivery)
    ensures
        outcome == Delivery::Delivered || outcome == Delivery::Full ==> kept(
            seq![sender],
            seq![outcome],
        ) == seq![sender] && dropped(seq![sender], seq![outcome]) == Seq::<S>::empty(),
        outcome == Delivery::Closed ==> kept(seq![sender], seq![outcome]) == Seq::<S>::empty()
            && dropped(seq![sender], seq![outcome]) == seq![sender],
        kept(Seq::<S>::empty(), Seq::empty()) == Seq::<S>::empty(),
        dropped(Seq::<S>::empty(), Seq::empty()) == Seq::<S>::empty(),
{
    assert(seq![sender].drop_last() =~= Seq::<S>::empty());
    assert(seq![outcome].drop_last() =~= Seq::<Delivery>::empty());
    assert(kept(Seq::<S>::empty(), Seq::empty()) =~= Seq::<S>::empty());
    assert(dropped(Seq::<S>::empty(), Seq::empty()) =~= Seq::<S>::empty());
    assert(Seq::<S>::empty().push(sender) =~= seq![sender]);
}

/// An event is offered once to each subscription of a list, through its own channel,
/// and each record says what came of it, behind what it said before.
pub proof fn law_offers_are_recorded(
    list: Seq<SubscriberView>,
    payload: serde_json::Value,
    outcomes: Seq<Delivery>,
    i: int,
)
    requires
        attempted_on_all(list, payload, outcomes),
        0 <= i < list.len(),
    ensures
        outcomes.len() == list.len(),
        attempted(list[i].tx, payload, outcomes[i]),
        offered_to_all(list, payload, outcomes).len() == list.len(),
        offered_to_all(list, payload, outcomes)[i].tx == list[i].tx,
        offered_to_all(list, payload, outcomes)[i].log == list[i].log.push((payload, outcomes[i])),
{
}

/// A new subscription has its own channel and was offered nothing; each offer adds
/// itself to the record and changes nothing else of it.
pub proof fn law_records_grow_by_offers(
    tx: EventSender,
    subscriber: SubscriberView,
    payload: serde_json::Value,
    outcome: Delivery,
)
    ensures
        SubscriberView::fresh(tx) == (SubscriberView { tx, log: Seq::empty() }),
        subscriber.offered(payload, outcome).tx == subscriber.tx,
        subscriber.offered(payload, outcome).log.drop_last() == subscriber.log,
        subscriber.offered(payload, outcome).log.last() == (payload, outcome),
        subscriber.offered(payload, outcome).payloads() == subscriber.payloads().push(payload),
        SubscriberView::fresh(tx).payloads() == Seq::<serde_json::Value>::empty(),
        delivered(SubscriberView::fresh(tx).log) == Seq::<serde_json::Value>::empty(),
{
    let next = subscriber.offered(payload, outcome);
    assert(next.log.drop_last() =~= subscriber.log);
    assert(next.payloads() =~= subscriber.payloads().push(payload));
    assert(SubscriberView::fresh(tx).payloads() =~= Seq::<serde_json::Value>::empty());
}

/// The subscriptions of a topic and event are those listed for it, none where it is
/// not known.
pub proof fn law_subscribers_are_those_listed(
    subscriptions: Map<TopicEvent, Seq<SubscriberView>>,
    key: TopicEvent,
)
    ensures
        subscriptions.contains_key(key) ==> subscribers(subscriptions, key) == subscriptions[key],
        !subscriptions.contains_key(key) ==> subscribers(subscriptions, key).len() == 0,
{
}

/// A list of subscribers is seen one by one, in order.
pub proof fn law_subscribers_are_seen_in_order(list: Seq<Subscriber>, i: int)
    requires
        0 <= i < list.len(),
    ensures
        views(list).len() == list.len(),
        views(list)[i] == list[i]@,
{
}

} // verus!

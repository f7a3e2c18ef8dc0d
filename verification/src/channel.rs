//! The channels to the tasks that wait for replies and events.

use crate::connection::RequestSendError;
use crate::subscriber::{attempted, views, Delivery, Subscriber, SubscriberView};
use vstd::prelude::*;

verus! {

#[verifier::external_type_specification]
#[verifier::external_body]
#[verifier::reject_recursive_types(T)]
pub struct ExMpscSender<T>(tokio::sync::mpsc::Sender<T>);

#[verifier::external_type_specification]
#[verifier::external_body]
#[verifier::reject_recursive_types(T)]
pub struct ExOneshotSender<T>(tokio::sync::oneshot::Sender<T>);

/// What a request is answered: the payload of its reply, or why it was not sent.
pub type Reply = Result<serde_json::Value, RequestSendError>;

/// Where a request waits for its one reply.
pub type ReplySender = tokio::sync::oneshot::Sender<Reply>;

/// Where a subscription waits for the payloads of its events.
pub type EventSender = tokio::sync::mpsc::Sender<serde_json::Value>;

/// `tokio::sync::oneshot::Sender::send`: hands `reply` over, or gives it back
/// unchanged when nobody waits for it. Which of the two happens is up to the
/// receiving task.
#[verifier::external_body]
pub(crate) fn respond(sender: ReplySender, reply: Reply) -> (res: Result<(), Reply>)
    ensures
        res matches Err(back) ==> back == reply,
{
    sender.send(reply)
}

/// `reply` was handed to `sender`, and `outcome` came back.
pub closed spec fn responded(
    sender: ReplySender,
    reply: Reply,
    outcome: Result<(), Reply>,
) -> bool {
    call_ensures(respond, (sender, reply), outcome)
}

/// A reply counts as handed over only where the channel was really asked to take it,
/// and what came back is then what the channel gave.
pub(crate) proof fn law_replies_are_handed_to_the_channel(
    sender: ReplySender,
    reply: Reply,
    outcome: Result<(), Reply>,
)
    requires
        responded(sender, reply, outcome),
    ensures
        call_ensures(respond, (sender, reply), outcome),
        outcome matches Err(back) ==> back == reply,
{
}

/// `subscribers` after `payload` was offered to each of them once, with `outcomes`.
pub open spec fn offered_to_all(
    subscribers: Seq<SubscriberView>,
    payload: serde_json::Value,
    outcomes: Seq<Delivery>,
) -> Seq<SubscriberView> {
    Seq::new(subscribers.len(), |i: int| subscribers[i].offered(payload, outcomes[i]))
}

/// Each of `subscribers` was offered `payload`, and `outcomes` are what their channels
/// answered, in order.
pub open spec fn attempted_on_all(
    subscribers: Seq<SubscriberView>,
    payload: serde_json::Value,
    outcomes: Seq<Delivery>,
) -> bool {
    &&& outcomes.len() == subscribers.len()
    &&& forall|i: int|
        0 <= i < outcomes.len() ==> attempted(subscribers[i].tx, payload, #[trigger] outcomes[i])
}

/// The senders that are still open after `outcomes`, in their order.
pub open spec fn kept<S>(senders: Seq<S>, outcomes: Seq<Delivery>) -> Seq<S>
    decreases senders.len(),
{
    if senders.len() == 0 {
        Seq::empty()
    } else {
        let before = kept(senders.drop_last(), outcomes.drop_last());
        if outcomes.last() == Delivery::Closed {
            before
        } else {
            before.push(senders.last())
        }
    }
}

/// The senders that turned out to be closed by `outcomes`, in their order.
pub open spec fn dropped<S>(senders: Seq<S>, outcomes: Seq<Delivery>) -> Seq<S>
    decreases senders.len(),
{
    if senders.len() == 0 {
        Seq::empty()
    } else {
        let before = dropped(senders.drop_last(), outcomes.drop_last());
        if outcomes.last() == Delivery::Closed {
            before.push(senders.last())
        } else {
            before
        }
    }
}

/// Hands `reply` to `sender`.
pub fn send_reply(sender: ReplySender, reply: Reply) -> (res: Result<(), Reply>)
    ensures
        responded(sender, reply, res),
        res matches Err(back) ==> back == reply,
{
    respond(sender, reply)
}

/// Offers `payload` to each of `subscribers`, in order and once.
pub fn offer_to_all(subscribers: &mut Vec<Subscriber>, payload: &serde_json::Value) -> (outcomes:
    Vec<Delivery>)
    ensures
        final(subscribers).len() == old(subscribers).len(),
        attempted_on_all(views(old(subscribers)@), *payload, outcomes@),
        views(final(subscribers)@) == offered_to_all(
            views(old(subscribers)@),
            *payload,
            outcomes@,
        ),
{
    let ghost all = subscribers@;
    let mut outcomes: Vec<Delivery> = Vec::new();
    let mut i: usize = 0;
    while i < subscribers.len()
        invariant
            i <= subscribers.len(),
            subscribers.len() == all.len(),
            outcomes.len() == i,
            forall|j: int|
                0 <= j < i ==> (#[trigger] subscribers@[j])@ == all[j]@.offered(
                    *payload,
                    outcomes@[j],
                ),
            forall|j: int|
                0 <= j < i ==> attempted(all[j]@.tx, *payload, #[trigger] outcomes@[j]),
            forall|j: int| i <= j < all.len() ==> #[trigger] subscribers@[j] == all[j],
        decreases subscribers.len() - i,
    {
        let outcome = subscribers[i].offer(payload);
        outcomes.push(outcome);
        i = i + 1;
    }
    assert(views(subscribers@) =~= offered_to_all(views(all), *payload, outcomes@));
    outcomes
}

/// Which subscribers are still open and which are closed does not depend on what else
/// they are.
pub proof fn lemma_kept_views(subscribers: Seq<Subscriber>, outcomes: Seq<Delivery>)
    requires
        subscribers.len() == outcomes.len(),
    ensures
        views(kept(subscribers, outcomes)) == kept(views(subscribers), outcomes),
        views(dropped(subscribers, outcomes)) == dropped(views(subscribers), outcomes),
    decreases subscribers.len(),
{
    if subscribers.len() > 0 {
        lemma_kept_views(subscribers.drop_last(), outcomes.drop_last());
        assert(views(subscribers).drop_last() =~= views(subscribers.drop_last()));
    }
    assert(views(kept(subscribers, outcomes)) =~= kept(views(subscribers), outcomes));
    assert(views(dropped(subscribers, outcomes)) =~= dropped(views(subscribers), outcomes));
}

/// Takes out the senders that turned out to be closed.
pub fn keep_open<S>(senders: &mut Vec<S>, outcomes: &Vec<Delivery>) -> (gone: Vec<S>)
    requires
        old(senders).len() == outcomes.len(),
    ensures
        final(senders)@ == kept(old(senders)@, outcomes@),
        gone@ == dropped(old(senders)@, outcomes@),
{
    let ghost all = senders@;
    let mut gone: Vec<S> = Vec::new();
    let mut seen: usize = 0;
    let mut i: usize = 0;
    assert(all.skip(0) =~= all);
    while seen < outcomes.len()
        invariant
            i <= seen <= outcomes.len(),
            all.len() == outcomes.len(),
            senders@ == kept(all.take(seen as int), outcomes@.take(seen as int)) + all.skip(
                seen as int,
            ),
            i == kept(all.take(seen as int), outcomes@.take(seen as int)).len(),
            gone@ == dropped(all.take(seen as int), outcomes@.take(seen as int)),
        decreases outcomes.len() - seen,
    {
        proof {
            let next = seen + 1;
            assert(all.take(next).drop_last() =~= all.take(seen as int));
            assert(outcomes@.take(next).drop_last() =~= outcomes@.take(seen as int));
            assert(all.take(next).last() == all[seen as int]);
            assert(outcomes@.take(next).last() == outcomes@[seen as int]);
            assert(all.skip(seen as int)[0] == all[seen as int]);
        }
        let ghost before = kept(all.take(seen as int), outcomes@.take(seen as int));
        if outcomes[seen] == Delivery::Closed {
            let sender = senders.remove(i);
            gone.push(sender);
            assert(senders@ =~= before + all.skip(seen + 1));
        } else {
            i = i + 1;
            assert(senders@ =~= before.push(all[seen as int]) + all.skip(seen + 1));
        }
        seen = seen + 1;
    }
    assert(all.take(seen as int) =~= all);
    assert(outcomes@.take(seen as int) =~= outcomes@);
    assert(senders@ =~= kept(all, outcomes@));
    gone
}

} // verus!

//! Who waits for what: requests by reference, subscriptions by topic and event.

use crate::channel::{
    attempted_on_all, dropped, keep_open, kept, lemma_kept_views, offer_to_all, offered_to_all,
    EventSender, ReplySender,
};
use crate::subscriber::{views, Delivery, Subscriber, SubscriberView};
use vstd::prelude::*;

verus! {

struct PendingRequest {
    reference: String,
    response_tx: ReplySender,
}

/// The requests that wait for a reply, by reference.
pub struct PendingRequests {
    entries: Vec<PendingRequest>,
}

spec fn references_distinct(entries: Seq<PendingRequest>) -> bool {
    forall|i: int, j: int|
        0 <= i < j < entries.len() ==> #[trigger] entries[i].reference@
            != #[trigger] entries[j].reference@
}

spec fn is_pending_at(entries: Seq<PendingRequest>, reference: Seq<char>, i: int) -> bool {
    0 <= i < entries.len() && entries[i].reference@ == reference
}

spec fn pending_map(entries: Seq<PendingRequest>) -> Map<Seq<char>, ReplySender> {
    Map::new(
        |reference: Seq<char>| exists|i: int| is_pending_at(entries, reference, i),
        |reference: Seq<char>|
            entries[choose|i: int| is_pending_at(entries, reference, i)].response_tx,
    )
}

proof fn lemma_pending_map_at(entries: Seq<PendingRequest>, i: int)
    requires
        references_distinct(entries),
        0 <= i < entries.len(),
    ensures
        pending_map(entries).contains_key(entries[i].reference@),
        pending_map(entries)[entries[i].reference@] == entries[i].response_tx,
{
    assert(is_pending_at(entries, entries[i].reference@, i));
    let j = choose|j: int| is_pending_at(entries, entries[i].reference@, j);
    assert(is_pending_at(entries, entries[i].reference@, j));
    assert(j == i);
}

proof fn lemma_pending_map_push(entries: Seq<PendingRequest>, entry: PendingRequest)
    requires
        references_distinct(entries),
        !pending_map(entries).contains_key(entry.reference@),
    ensures
        references_distinct(entries.push(entry)),
        pending_map(entries.push(entry)) == pending_map(entries).insert(
            entry.reference@,
            entry.response_tx,
        ),
{
    let pushed = entries.push(entry);
    assert forall|i: int| 0 <= i < entries.len() implies #[trigger] entries[i].reference@
        != entry.reference@ by {
        assert(is_pending_at(entries, entries[i].reference@, i));
    }
    assert(references_distinct(pushed));
    let expected = pending_map(entries).insert(entry.reference@, entry.response_tx);
    assert forall|r: Seq<char>| #[trigger]
        pending_map(pushed).contains_key(r) == expected.contains_key(r) && (expected.contains_key(
            r,
        ) ==> pending_map(pushed)[r] == expected[r]) by {
        if r == entry.reference@ {
            lemma_pending_map_at(pushed, entries.len() as int);
        } else if pending_map(entries).contains_key(r) {
            let i = choose|i: int| is_pending_at(entries, r, i);
            assert(is_pending_at(entries, r, i));
            lemma_pending_map_at(entries, i);
            lemma_pending_map_at(pushed, i);
        } else if pending_map(pushed).contains_key(r) {
            let i = choose|i: int| is_pending_at(pushed, r, i);
            assert(is_pending_at(pushed, r, i));
            assert(is_pending_at(entries, r, i));
        }
    }
    assert(pending_map(pushed) =~= expected);
}

proof fn lemma_pending_map_remove(entries: Seq<PendingRequest>, at: int)
    requires
        references_distinct(entries),
        0 <= at < entries.len(),
    ensures
        references_distinct(entries.remove(at)),
        pending_map(entries.remove(at)) == pending_map(entries).remove(entries[at].reference@),
{
    let rest = entries.remove(at);
    assert(references_distinct(rest));
    let expected = pending_map(entries).remove(entries[at].reference@);
    assert forall|r: Seq<char>| #[trigger]
        pending_map(rest).contains_key(r) == expected.contains_key(r) && (expected.contains_key(r)
            ==> pending_map(rest)[r] == expected[r]) by {
        if pending_map(rest).contains_key(r) {
            let i = choose|i: int| is_pending_at(rest, r, i);
            assert(is_pending_at(rest, r, i));
            lemma_pending_map_at(rest, i);
            let j = if i < at { i } else { i + 1 };
            assert(rest[i] == entries[j]);
            lemma_pending_map_at(entries, j);
        } else if expected.contains_key(r) {
            let j = choose|j: int| is_pending_at(entries, r, j);
            assert(is_pending_at(entries, r, j));
            let i = if j < at { j } else { j - 1 };
            assert(is_pending_at(rest, r, i));
        }
    }
    assert(pending_map(rest) =~= expected);
}

impl View for PendingRequests {
    type V = Map<Seq<char>, ReplySender>;

    closed spec fn view(&self) -> Map<Seq<char>, ReplySender> {
        pending_map(self.entries@)
    }
}

impl PendingRequests {
    /// No reference stands twice, and finitely many stand at all.
    pub closed spec fn wf(self) -> bool {
        &&& references_distinct(self.entries@)
        &&& self@.dom().finite()
    }

    pub fn new() -> (res: Self)
        ensures
            res.wf(),
            res@ == Map::<Seq<char>, ReplySender>::empty(),
    {
        let res = PendingRequests { entries: Vec::new() };
        assert(res@ =~= Map::<Seq<char>, ReplySender>::empty()) by {
            assert forall|r: Seq<char>| !res@.contains_key(r) by {
                if res@.contains_key(r) {
                    let i = choose|i: int| is_pending_at(res.entries@, r, i);
                    assert(is_pending_at(res.entries@, r, i));
                }
            }
        }
        res
    }

    fn position(&self, reference: &String) -> (res: Option<usize>)
        ensures
            match res {
                Some(i) => is_pending_at(self.entries@, reference@, i as int),
                None => forall|i: int| !is_pending_at(self.entries@, reference@, i),
            },
    {
        let mut i: usize = 0;
        while i < self.entries.len()
            invariant
                i <= self.entries.len(),
                forall|j: int| 0 <= j < i ==> !is_pending_at(self.entries@, reference@, j),
            decreases self.entries.len() - i,
        {
            if self.entries[i].reference == *reference {
                return Some(i);
            }
            i = i + 1;
        }
        None
    }

    /// Takes out the request that waits for a reply to `reference`.
    pub fn remove(&mut self, reference: &String) -> (res: Option<ReplySender>)
        requires
            old(self).wf(),
        ensures
            final(self).wf(),
            final(self)@ == old(self)@.remove(reference@),
            res == (if old(self)@.contains_key(reference@) {
                Some(old(self)@[reference@])
            } else {
                None
            }),
    {
        match self.position(reference) {
            Some(i) => {
                proof {
                    lemma_pending_map_at(self.entries@, i as int);
                    lemma_pending_map_remove(self.entries@, i as int);
                }
                let entry = self.entries.remove(i);
                Some(entry.response_tx)
            },
            None => {
                assert(self@ =~= old(self)@.remove(reference@));
                None
            },
        }
    }

    /// Notes that `response_tx` waits for a reply to `reference`, in place of the
    /// request that did so before, if any.
    pub fn insert(&mut self, reference: String, response_tx: ReplySender) -> (res: Option<
        ReplySender,
    >)
        requires
            old(self).wf(),
        ensures
            final(self).wf(),
            final(self)@ == old(self)@.insert(reference@, response_tx),
            res == (if old(self)@.contains_key(reference@) {
                Some(old(self)@[reference@])
            } else {
                None
            }),
    {
        let replaced = self.remove(&reference);
        let entry = PendingRequest { reference, response_tx };
        proof {
            lemma_pending_map_push(self.entries@, entry);
        }
        self.entries.push(entry);
        assert(self@ =~= old(self)@.insert(reference@, response_tx));
        replaced
    }
}

/// A topic and an event of that topic.
pub type TopicEvent = (Seq<char>, Seq<char>);

struct SubscriptionEntry {
    topic: String,
    event: String,
    subscribers: Vec<Subscriber>,
}

/// The subscriptions, by topic and event, each in the order in which they came.
pub struct Subscriptions {
    entries: Vec<SubscriptionEntry>,
}

spec fn entry_key(entry: SubscriptionEntry) -> TopicEvent {
    (entry.topic@, entry.event@)
}

spec fn keys_distinct(entries: Seq<SubscriptionEntry>) -> bool {
    forall|i: int, j: int|
        0 <= i < j < entries.len() ==> #[trigger] entry_key(entries[i])
            != #[trigger] entry_key(entries[j])
}

spec fn is_subscribed_at(entries: Seq<SubscriptionEntry>, key: TopicEvent, i: int) -> bool {
    0 <= i < entries.len() && entry_key(entries[i]) == key
}

spec fn subscription_map(entries: Seq<SubscriptionEntry>) -> Map<TopicEvent, Seq<SubscriberView>> {
    Map::new(
        |key: TopicEvent| exists|i: int| is_subscribed_at(entries, key, i),
        |key: TopicEvent|
            views(entries[choose|i: int| is_subscribed_at(entries, key, i)].subscribers@),
    )
}

proof fn lemma_subscription_map_at(entries: Seq<SubscriptionEntry>, i: int)
    requires
        keys_distinct(entries),
        0 <= i < entries.len(),
    ensures
        subscription_map(entries).contains_key(entry_key(entries[i])),
        subscription_map(entries)[entry_key(entries[i])] == views(entries[i].subscribers@),
{
    let key = entry_key(entries[i]);
    assert(is_subscribed_at(entries, key, i));
    let j = choose|j: int| is_subscribed_at(entries, key, j);
    assert(is_subscribed_at(entries, key, j));
    assert(j == i);
}

proof fn lemma_subscription_map_push(entries: Seq<SubscriptionEntry>, entry: SubscriptionEntry)
    requires
        keys_distinct(entries),
        !subscription_map(entries).contains_key(entry_key(entry)),
    ensures
        keys_distinct(entries.push(entry)),
        subscription_map(entries.push(entry)) == subscription_map(entries).insert(
            entry_key(entry),
            views(entry.subscribers@),
        ),
{
    let pushed = entries.push(entry);
    assert forall|i: int| 0 <= i < entries.len() implies #[trigger] entry_key(entries[i])
        != entry_key(entry) by {
        assert(is_subscribed_at(entries, entry_key(entries[i]), i));
    }
    assert(keys_distinct(pushed));
    let expected = subscription_map(entries).insert(entry_key(entry), views(entry.subscribers@));
    assert forall|k: TopicEvent| #[trigger]
        subscription_map(pushed).contains_key(k) == expected.contains_key(k) && (
        expected.contains_key(k) ==> subscription_map(pushed)[k] == expected[k]) by {
        if k == entry_key(entry) {
            lemma_subscription_map_at(pushed, entries.len() as int);
        } else if subscription_map(entries).contains_key(k) {
            let i = choose|i: int| is_subscribed_at(entries, k, i);
            assert(is_subscribed_at(entries, k, i));
            lemma_subscription_map_at(entries, i);
            lemma_subscription_map_at(pushed, i);
        } else if subscription_map(pushed).contains_key(k) {
            let i = choose|i: int| is_subscribed_at(pushed, k, i);
            assert(is_subscribed_at(pushed, k, i));
            assert(is_subscribed_at(entries, k, i));
        }
    }
    assert(subscription_map(pushed) =~= expected);
}

proof fn lemma_subscription_map_update(
    entries: Seq<SubscriptionEntry>,
    at: int,
    entry: SubscriptionEntry,
)
    requires
        keys_distinct(entries),
        0 <= at < entries.len(),
        entry_key(entry) == entry_key(entries[at]),
    ensures
        keys_distinct(entries.update(at, entry)),
        subscription_map(entries.update(at, entry)) == subscription_map(entries).insert(
            entry_key(entry),
            views(entry.subscribers@),
        ),
{
    let updated = entries.update(at, entry);
    assert(forall|i: int|
        0 <= i < entries.len() ==> #[trigger] entry_key(updated[i]) == entry_key(
            entries[i],
        ));
    assert(keys_distinct(updated));
    let expected = subscription_map(entries).insert(entry_key(entry), views(entry.subscribers@));
    assert forall|k: TopicEvent| #[trigger]
        subscription_map(updated).contains_key(k) == expected.contains_key(k) && (
        expected.contains_key(k) ==> subscription_map(updated)[k] == expected[k]) by {
        if k == entry_key(entry) {
            lemma_subscription_map_at(updated, at);
        } else if subscription_map(entries).contains_key(k) {
            let i = choose|i: int| is_subscribed_at(entries, k, i);
            assert(is_subscribed_at(entries, k, i));
            lemma_subscription_map_at(entries, i);
            lemma_subscription_map_at(updated, i);
        } else if subscription_map(updated).contains_key(k) {
            let i = choose|i: int| is_subscribed_at(updated, k, i);
            assert(is_subscribed_at(updated, k, i));
            assert(is_subscribed_at(entries, k, i));
        }
    }
    assert(subscription_map(updated) =~= expected);
}

/// The subscribers that `subscriptions` holds for `key`, none where it does not
/// know the key.
pub open spec fn subscribers(
    subscriptions: Map<TopicEvent, Seq<SubscriberView>>,
    key: TopicEvent,
) -> Seq<SubscriberView> {
    if subscriptions.contains_key(key) {
        subscriptions[key]
    } else {
        Seq::empty()
    }
}

impl View for Subscriptions {
    type V = Map<TopicEvent, Seq<SubscriberView>>;

    closed spec fn view(&self) -> Map<TopicEvent, Seq<SubscriberView>> {
        subscription_map(self.entries@)
    }
}

impl Subscriptions {
    /// No topic and event stand twice.
    pub closed spec fn wf(self) -> bool {
        keys_distinct(self.entries@)
    }

    pub fn new() -> (res: Self)
        ensures
            res.wf(),
            res@ == Map::<TopicEvent, Seq<SubscriberView>>::empty(),
    {
        let res = Subscriptions { entries: Vec::new() };
        assert(res@ =~= Map::<TopicEvent, Seq<SubscriberView>>::empty()) by {
            assert forall|k: TopicEvent| !res@.contains_key(k) by {
                if res@.contains_key(k) {
                    let i = choose|i: int| is_subscribed_at(res.entries@, k, i);
                    assert(is_subscribed_at(res.entries@, k, i));
                }
            }
        }
        res
    }

    fn position(&self, topic: &String, event: &String) -> (res: Option<usize>)
        ensures
            match res {
                Some(i) => is_subscribed_at(self.entries@, (topic@, event@), i as int),
                None => forall|i: int| !is_subscribed_at(self.entries@, (topic@, event@), i),
            },
    {
        let mut i: usize = 0;
        while i < self.entries.len()
            invariant
                i <= self.entries.len(),
                forall|j: int|
                    0 <= j < i ==> !is_subscribed_at(self.entries@, (topic@, event@), j),
            decreases self.entries.len() - i,
        {
            if self.entries[i].topic == *topic && self.entries[i].event == *event {
                return Some(i);
            }
            i = i + 1;
        }
        None
    }

    /// Adds a subscription behind those of the same topic and event.
    pub fn insert(&mut self, topic: String, event: String, sender: EventSender)
        requires
            old(self).wf(),
        ensures
            final(self).wf(),
            final(self)@ == old(self)@.insert(
                (topic@, event@),
                subscribers(old(self)@, (topic@, event@)).push(SubscriberView::fresh(sender)),
            ),
    {
        match self.position(&topic, &event) {
            Some(i) => {
                proof {
                    lemma_subscription_map_at(self.entries@, i as int);
                }
                self.entries[i].subscribers.push(Subscriber::new(sender));
                proof {
                    let entry = self.entries@[i as int];
                    assert(views(entry.subscribers@) =~= views(
                        old(self).entries@[i as int].subscribers@,
                    ).push(SubscriberView::fresh(sender)));
                    assert(self.entries@ =~= old(self).entries@.update(i as int, entry));
                    lemma_subscription_map_update(old(self).entries@, i as int, entry);
                }
            },
            None => {
                let mut subscribers: Vec<Subscriber> = Vec::new();
                subscribers.push(Subscriber::new(sender));
                let entry = SubscriptionEntry { topic, event, subscribers };
                proof {
                    lemma_subscription_map_push(self.entries@, entry);
                    assert(views(entry.subscribers@) =~= Seq::<SubscriberView>::empty().push(
                        SubscriberView::fresh(sender),
                    ));
                }
                self.entries.push(entry);
            },
        }
    }

    /// Offers `payload` once to every subscription of the topic and event, to no
    /// other, and takes out those whose receiver is gone. Gives what each of them
    /// answered and those that were taken out, or nothing where there never was such a
    /// subscription.
    pub fn publish(&mut self, topic: &String, event: &String, payload: &serde_json::Value) -> (res:
        Option<(Vec<Delivery>, Vec<Subscriber>)>)
        requires
            old(self).wf(),
        ensures
            final(self).wf(),
            res is Some <==> old(self)@.contains_key((topic@, event@)),
            match res {
                Some((outcomes, gone)) => {
                    let list = old(self)@[(topic@, event@)];
                    let offered = offered_to_all(list, *payload, outcomes@);
                    &&& attempted_on_all(list, *payload, outcomes@)
                    &&& final(self)@ == old(self)@.insert(
                        (topic@, event@),
                        kept(offered, outcomes@),
                    )
                    &&& views(gone@) == dropped(offered, outcomes@)
                },
                None => final(self)@ == old(self)@,
            },
    {
        match self.position(topic, event) {
            Some(i) => {
                proof {
                    lemma_subscription_map_at(self.entries@, i as int);
                }
                let outcomes = offer_to_all(&mut self.entries[i].subscribers, payload);
                proof {
                    lemma_kept_views(self.entries@[i as int].subscribers@, outcomes@);
                }
                let gone = keep_open(&mut self.entries[i].subscribers, &outcomes);
                proof {
                    let entry = self.entries@[i as int];
                    assert(self.entries@ =~= old(self).entries@.update(i as int, entry));
                    lemma_subscription_map_update(old(self).entries@, i as int, entry);
                }
                Some((outcomes, gone))
            },
            None => None,
        }
    }
}

} // verus!

//! The topic router: which connection is subscribed to which topic, and to
//! whom an event published under a topic goes.
//!
//! The router holds no events. Publishing names the connections that are
//! subscribed at that moment, each with the event as it was handed in; a
//! connection that subscribes later gets nothing of it.

use crate::topics::Topic;
use crate::topics::TopicKey;
use vstd::prelude::*;

verus! {

/// A connection, by the number that the gateway gave it.
pub type ConnectionId = u64;

/// One subscription: a connection and a topic.
pub struct Subscription {
    /// The connection that subscribed.
    pub connection: ConnectionId,
    /// The topic it subscribed to.
    pub topic: Topic,
}

/// One event on its way to one connection.
pub struct Delivery<'a, E> {
    /// The connection to send to.
    pub connection: ConnectionId,
    /// The event, as it was published.
    pub event: &'a E,
}

/// The subscriptions that a sequence of them holds, as a set of pairs.
pub open spec fn pairs_of(subscriptions: Seq<Subscription>) -> Set<(ConnectionId, TopicKey)> {
    Set::new(
        |p: (ConnectionId, TopicKey)|
            exists|i: int|
                0 <= i < subscriptions.len() && (#[trigger] subscriptions[i]).connection == p.0
                    && subscriptions[i].topic@ == p.1,
    )
}

/// Whether no subscription occurs twice.
pub open spec fn no_subscription_twice(subscriptions: Seq<Subscription>) -> bool {
    forall|i: int, j: int|
        0 <= i < j < subscriptions.len() ==> !((#[trigger] subscriptions[i]).connection == (
        #[trigger] subscriptions[j]).connection && subscriptions[i].topic@ == subscriptions[j].topic@)
}

/// The connections that are subscribed to `topic`.
pub open spec fn subscribers_of(pairs: Set<(ConnectionId, TopicKey)>, topic: TopicKey) -> Set<
    ConnectionId,
> {
    Set::new(|c: ConnectionId| pairs.contains((c, topic)))
}

/// The subscriptions that are left when `connection` gives up all of its.
pub open spec fn without_connection(
    pairs: Set<(ConnectionId, TopicKey)>,
    connection: ConnectionId,
) -> Set<(ConnectionId, TopicKey)> {
    Set::new(|p: (ConnectionId, TopicKey)| pairs.contains(p) && p.0 != connection)
}

/// The connections that a sequence of deliveries goes to.
pub open spec fn receivers<E>(deliveries: Seq<Delivery<E>>) -> Seq<ConnectionId> {
    Seq::new(deliveries.len(), |i: int| deliveries[i].connection)
}

/// Whether one of `topics` is the key `t`.
pub open spec fn names_topic(topics: Seq<Topic>, t: TopicKey) -> bool {
    exists|k: int| 0 <= k < topics.len() && (#[trigger] topics[k])@ == t
}

/// Whether one of the first `n` subscriptions is that of `connection` to `t`.
pub open spec fn subscribed_within(
    subscriptions: Seq<Subscription>,
    n: int,
    connection: ConnectionId,
    t: TopicKey,
) -> bool {
    exists|j: int|
        0 <= j < n && j < subscriptions.len() && (#[trigger] subscriptions[j]).connection
            == connection && subscriptions[j].topic@ == t
}

/// The set of subscriptions of all connections.
pub struct TopicRouter {
    subscriptions: Vec<Subscription>,
}

impl View for TopicRouter {
    type V = Set<(ConnectionId, TopicKey)>;

    closed spec fn view(&self) -> Set<(ConnectionId, TopicKey)> {
        pairs_of(self.subscriptions@)
    }
}

impl TopicRouter {
    #[verifier::type_invariant]
    spec fn well_formed(self) -> bool {
        no_subscription_twice(self.subscriptions@)
    }

    /// A router without subscriptions.
    pub fn new() -> (r: TopicRouter)
        ensures
            r@ == Set::<(ConnectionId, TopicKey)>::empty(),
    {
        let r = TopicRouter { subscriptions: Vec::new() };
        proof {
            assert(r@ =~= Set::<(ConnectionId, TopicKey)>::empty());
        }
        r
    }

    /// Where the subscription of `connection` to `topic` is held.
    fn position(&self, connection: ConnectionId, topic: &Topic) -> (r: Option<usize>)
        ensures
            match r {
                Some(i) => i < self.subscriptions@.len() && self.subscriptions@[i as int].connection
                    == connection && self.subscriptions@[i as int].topic@ == topic@,
                None => !self@.contains((connection, topic@)),
            },
    {
        let mut i: usize = 0;
        while i < self.subscriptions.len()
            invariant
                i <= self.subscriptions@.len(),
                forall|k: int|
                    0 <= k < i ==> !((#[trigger] self.subscriptions@[k]).connection == connection
                        && self.subscriptions@[k].topic@ == topic@),
            decreases self.subscriptions@.len() - i,
        {
            if self.subscriptions[i].connection == connection && self.subscriptions[i].topic.same(
                topic,
            ) {
                return Some(i);
            }
            i = i + 1;
        }
        None
    }

    /// Whether `connection` is subscribed to `topic`.
    pub fn is_subscribed(&self, connection: ConnectionId, topic: &Topic) -> (r: bool)
        ensures
            r == self@.contains((connection, topic@)),
    {
        self.position(connection, topic).is_some()
    }

    /// Subscribes `connection` to `topic`; says whether it was not subscribed
    /// before. Subscribing again changes nothing.
    pub fn subscribe(&mut self, connection: ConnectionId, topic: Topic) -> (r: bool)
        ensures
            final(self)@ == old(self)@.insert((connection, topic@)),
            r == !old(self)@.contains((connection, topic@)),
    {
        proof {
            use_type_invariant(&*self);
        }
        match self.position(connection, &topic) {
            Some(_) => {
                proof {
                    assert(self@ =~= self@.insert((connection, topic@)));
                }
                false
            },
            None => {
                let ghost before = self.subscriptions@;
                let ghost key = topic@;
                let mut held: Vec<Subscription> = Vec::new();
                core::mem::swap(&mut self.subscriptions, &mut held);
                held.push(Subscription { connection, topic });
                proof {
                    let after = held@;
                    assert(after[before.len() as int].connection == connection);
                    assert(after[before.len() as int].topic@ == key);
                    assert forall|p: (ConnectionId, TopicKey)|
                        pairs_of(after).contains(p) == pairs_of(before).insert(
                            (connection, key),
                        ).contains(p) by {
                        if pairs_of(after).contains(p) {
                            let i = choose|i: int|
                                0 <= i < after.len() && (#[trigger] after[i]).connection == p.0
                                    && after[i].topic@ == p.1;
                            if i < before.len() {
                                assert(before[i] == after[i]);
                            }
                        }
                        if pairs_of(before).contains(p) {
                            let i = choose|i: int|
                                0 <= i < before.len() && (#[trigger] before[i]).connection == p.0
                                    && before[i].topic@ == p.1;
                            assert(after[i] == before[i]);
                        }
                    }
                    assert(pairs_of(after) =~= pairs_of(before).insert((connection, key)));
                    assert forall|i: int, j: int| 0 <= i < j < after.len() implies !((
                    #[trigger] after[i]).connection == (#[trigger] after[j]).connection
                        && after[i].topic@ == after[j].topic@) by {
                        assert(after[i] == before[i]);
                        if j < before.len() {
                            assert(after[j] == before[j]);
                        }
                    }
                }
                self.subscriptions = held;
                true
            },
        }
    }

    /// Ends the subscription of `connection` to `topic`; says whether there
    /// was one. Unsubscribing again changes nothing.
    pub fn unsubscribe(&mut self, connection: ConnectionId, topic: &Topic) -> (r: bool)
        ensures
            final(self)@ == old(self)@.remove((connection, topic@)),
            r == old(self)@.contains((connection, topic@)),
    {
        proof {
            use_type_invariant(&*self);
        }
        match self.position(connection, topic) {
            None => {
                proof {
                    assert(self@ =~= self@.remove((connection, topic@)));
                }
                false
            },
            Some(at) => {
                let ghost before = self.subscriptions@;
                let mut held: Vec<Subscription> = Vec::new();
                core::mem::swap(&mut self.subscriptions, &mut held);
                held.remove(at);
                proof {
                    let after = held@;
                    lemma_removed_at(before, at as int);
                    assert(after == before.remove(at as int));
                    assert(pairs_of(after) =~= pairs_of(before).remove((connection, topic@)));
                }
                self.subscriptions = held;
                true
            },
        }
    }

    /// Ends every subscription of `connection`; says how many there were.
    pub fn unsubscribe_all(&mut self, connection: ConnectionId) -> (r: usize)
        ensures
            final(self)@ == without_connection(old(self)@, connection),
            r == 0 <==> final(self)@ == old(self)@,
    {
        proof {
            use_type_invariant(&*self);
        }
        let ghost start = self.subscriptions@;
        let mut held: Vec<Subscription> = Vec::new();
        core::mem::swap(&mut self.subscriptions, &mut held);
        assert(held@.len() == held.len());
        let mut removed: usize = 0;
        let mut i: usize = 0;
        while i < held.len()
            invariant
                i <= held@.len(),
                no_subscription_twice(held@),
                pairs_of(held@).subset_of(pairs_of(start)),
                without_connection(pairs_of(held@), connection) == without_connection(
                    pairs_of(start),
                    connection,
                ),
                forall|k: int| 0 <= k < i ==> (#[trigger] held@[k]).connection != connection,
                removed + held@.len() == start.len(),
                start.len() <= usize::MAX,
                removed > 0 ==> pairs_of(held@) != pairs_of(start),
            decreases held@.len() - i,
        {
            if held[i].connection == connection {
                let ghost before = held@;
                let ghost gone = (connection, before[i as int].topic@);
                held.remove(i);
                removed = removed + 1;
                proof {
                    let after = held@;
                    lemma_removed_at(before, i as int);
                    assert(pairs_of(after) =~= pairs_of(before).remove(gone));
                    assert(without_connection(pairs_of(after), connection) =~= without_connection(
                        pairs_of(before),
                        connection,
                    ));
                    assert(pairs_of(before).contains(gone));
                    assert(pairs_of(start).contains(gone));
                    assert(!pairs_of(after).contains(gone));
                    assert forall|k: int| 0 <= k < i implies (#[trigger] after[k]).connection
                        != connection by {
                        assert(after[k] == before[k]);
                    }
                }
            } else {
                i = i + 1;
            }
        }
        proof {
            let after = held@;
            assert(pairs_of(after) =~= without_connection(pairs_of(after), connection));
            if removed == 0 {
                assert(after.len() == start.len());
            }
        }
        proof {
            if removed == 0 {
                lemma_same_size_subset(held@, start);
            }
        }
        self.subscriptions = held;
        removed
    }

    /// The connections that are subscribed to `topic`, each once.
    pub fn subscribers(&self, topic: &Topic) -> (r: Vec<ConnectionId>)
        ensures
            r@.no_duplicates(),
            forall|c: ConnectionId| r@.contains(c) <==> self@.contains((c, topic@)),
    {
        proof {
            use_type_invariant(self);
        }
        let mut out: Vec<ConnectionId> = Vec::new();
        let mut i: usize = 0;
        while i < self.subscriptions.len()
            invariant
                i <= self.subscriptions@.len(),
                no_subscription_twice(self.subscriptions@),
                out@.no_duplicates(),
                forall|c: ConnectionId|
                    out@.contains(c) <==> exists|k: int|
                        0 <= k < i && (#[trigger] self.subscriptions@[k]).connection == c
                            && self.subscriptions@[k].topic@ == topic@,
            decreases self.subscriptions@.len() - i,
        {
            if self.subscriptions[i].topic.same(topic) {
                let ghost before = out@;
                let c = self.subscriptions[i].connection;
                proof {
                    if before.contains(c) {
                        let k = choose|k: int|
                            0 <= k < i && (#[trigger] self.subscriptions@[k]).connection == c
                                && self.subscriptions@[k].topic@ == topic@;
                        assert(false);
                    }
                }
                out.push(c);
                proof {
                    assert(out@ =~= before.push(c));
                    assert forall|d: ConnectionId| out@.contains(d) <==> exists|k: int|
                        0 <= k < i + 1 && (#[trigger] self.subscriptions@[k]).connection == d
                            && self.subscriptions@[k].topic@ == topic@ by {
                        if out@.contains(d) {
                            let j = choose|j: int| 0 <= j < out@.len() && out@[j] == d;
                            if j < before.len() {
                                assert(before[j] == d);
                                assert(before.contains(d));
                            } else {
                                assert(self.subscriptions@[i as int].connection == d);
                            }
                        }
                        if exists|k: int|
                            0 <= k < i + 1 && (#[trigger] self.subscriptions@[k]).connection == d
                                && self.subscriptions@[k].topic@ == topic@ {
                            let k = choose|k: int|
                                0 <= k < i + 1 && (#[trigger] self.subscriptions@[k]).connection
                                    == d && self.subscriptions@[k].topic@ == topic@;
                            if k < i {
                                assert(before.contains(d));
                                let j = choose|j: int| 0 <= j < before.len() && before[j] == d;
                                assert(out@[j] == d);
                            } else {
                                assert(out@[before.len() as int] == d);
                            }
                        }
                    }
                }
            }
            i = i + 1;
        }
        out
    }

    /// The topics that `connection` is subscribed to.
    pub fn topics_of(&self, connection: ConnectionId) -> (r: Vec<Topic>)
        ensures
            forall|t: TopicKey| #[trigger]
                names_topic(r@, t) <==> self@.contains((connection, t)),
    {
        let mut out: Vec<Topic> = Vec::new();
        let mut i: usize = 0;
        while i < self.subscriptions.len()
            invariant
                i <= self.subscriptions@.len(),
                forall|t: TopicKey| #[trigger]
                    names_topic(out@, t) <==> subscribed_within(
                        self.subscriptions@,
                        i as int,
                        connection,
                        t,
                    ),
            decreases self.subscriptions@.len() - i,
        {
            if self.subscriptions[i].connection == connection {
                let ghost before = out@;
                let topic = self.subscriptions[i].topic.duplicate();
                out.push(topic);
                proof {
                    assert(out@ =~= before.push(topic));
                    assert forall|t: TopicKey| #[trigger]
                        names_topic(out@, t) <==> subscribed_within(
                            self.subscriptions@,
                            i + 1,
                            connection,
                            t,
                        ) by {
                        if names_topic(out@, t) {
                            let k = choose|k: int| 0 <= k < out@.len() && (#[trigger] out@[k])@ == t;
                            if k < before.len() {
                                assert(before[k]@ == t);
                                assert(names_topic(before, t));
                                assert(subscribed_within(self.subscriptions@, i as int, connection, t));
                            } else {
                                assert(self.subscriptions@[i as int].topic@ == t);
                            }
                            assert(subscribed_within(self.subscriptions@, i + 1, connection, t));
                        }
                        if subscribed_within(self.subscriptions@, i + 1, connection, t) {
                            let j = choose|j: int|
                                0 <= j < i + 1 && (#[trigger] self.subscriptions@[j]).connection
                                    == connection && self.subscriptions@[j].topic@ == t;
                            if j < i {
                                assert(subscribed_within(self.subscriptions@, i as int, connection, t));
                                assert(names_topic(before, t));
                                let k = choose|k: int|
                                    0 <= k < before.len() && (#[trigger] before[k])@ == t;
                                assert(out@[k]@ == t);
                            } else {
                                assert(out@[before.len() as int]@ == t);
                            }
                            assert(names_topic(out@, t));
                        }
                    }
                }
            } else {
                proof {
                    assert forall|t: TopicKey| #[trigger]
                        names_topic(out@, t) <==> subscribed_within(
                            self.subscriptions@,
                            i + 1,
                            connection,
                            t,
                        ) by {
                        if subscribed_within(self.subscriptions@, i + 1, connection, t) {
                            let j = choose|j: int|
                                0 <= j < i + 1 && (#[trigger] self.subscriptions@[j]).connection
                                    == connection && self.subscriptions@[j].topic@ == t;
                            assert(j < i);
                            assert(subscribed_within(self.subscriptions@, i as int, connection, t));
                        }
                        if subscribed_within(self.subscriptions@, i as int, connection, t) {
                            let j = choose|j: int|
                                0 <= j < i && (#[trigger] self.subscriptions@[j]).connection
                                    == connection && self.subscriptions@[j].topic@ == t;
                            assert(subscribed_within(self.subscriptions@, i + 1, connection, t));
                        }
                    }
                }
            }
            i = i + 1;
        }
        proof {
            assert forall|t: TopicKey| #[trigger]
                names_topic(out@, t) <==> self@.contains((connection, t)) by {
                if subscribed_within(self.subscriptions@, i as int, connection, t) {
                    let j = choose|j: int|
                        0 <= j < i && (#[trigger] self.subscriptions@[j]).connection == connection
                            && self.subscriptions@[j].topic@ == t;
                    assert(self@.contains((connection, t)));
                }
                if self@.contains((connection, t)) {
                    let j = choose|j: int|
                        0 <= j < self.subscriptions@.len() && (
                        #[trigger] self.subscriptions@[j]).connection == connection
                            && self.subscriptions@[j].topic@ == t;
                    assert(subscribed_within(self.subscriptions@, i as int, connection, t));
                }
            }
        }
        out
    }

    /// Names the deliveries of an event published under `topic`: one for
    /// each connection that is subscribed to the topic now, each with the
    /// event as it was handed in, and none for any other connection.
    pub fn publish<'a, E>(&self, topic: &Topic, event: &'a E) -> (r: Vec<Delivery<'a, E>>)
        ensures
            forall|i: int| 0 <= i < r@.len() ==> *(#[trigger] r@[i]).event == *event,
            receivers(r@).no_duplicates(),
            receivers(r@).to_set() == subscribers_of(self@, topic@),
    {
        let to = self.subscribers(topic);
        let mut out: Vec<Delivery<'a, E>> = Vec::new();
        let mut i: usize = 0;
        while i < to.len()
            invariant
                i <= to@.len(),
                out@.len() == i,
                forall|k: int| 0 <= k < i ==> *(#[trigger] out@[k]).event == *event,
                forall|k: int| 0 <= k < i ==> (#[trigger] out@[k]).connection == to@[k],
            decreases to@.len() - i,
        {
            out.push(Delivery { connection: to[i], event });
            i = i + 1;
        }
        proof {
            assert(receivers(out@) =~= to@);
            assert(to@.to_set() =~= subscribers_of(self@, topic@));
        }
        out
    }
}

/// Taking one subscription out of a sequence in which none occurs twice
/// takes its pair out of the set, and leaves a sequence in which none occurs
/// twice.
proof fn lemma_removed_at(before: Seq<Subscription>, at: int)
    requires
        0 <= at < before.len(),
        no_subscription_twice(before),
    ensures
        no_subscription_twice(before.remove(at)),
        pairs_of(before.remove(at)) == pairs_of(before).remove(
            (before[at].connection, before[at].topic@),
        ),
{
    let after = before.remove(at);
    let gone = (before[at].connection, before[at].topic@);
    assert forall|i: int, j: int| 0 <= i < j < after.len() implies !((
    #[trigger] after[i]).connection == (#[trigger] after[j]).connection && after[i].topic@
        == after[j].topic@) by {
        let a = if i < at {
            i
        } else {
            i + 1
        };
        let b = if j < at {
            j
        } else {
            j + 1
        };
        assert(after[i] == before[a]);
        assert(after[j] == before[b]);
    }
    assert forall|p: (ConnectionId, TopicKey)|
        pairs_of(after).contains(p) == pairs_of(before).remove(gone).contains(p) by {
        if pairs_of(after).contains(p) {
            let i = choose|i: int|
                0 <= i < after.len() && (#[trigger] after[i]).connection == p.0 && after[i].topic@
                    == p.1;
            let a = if i < at {
                i
            } else {
                i + 1
            };
            assert(after[i] == before[a]);
            if p == gone {
                if a < at {
                    assert(before[a].connection == before[at].connection);
                } else {
                    assert(before[at].connection == before[a].connection);
                }
            }
        }
        if pairs_of(before).remove(gone).contains(p) {
            let a = choose|a: int|
                0 <= a < before.len() && (#[trigger] before[a]).connection == p.0
                    && before[a].topic@ == p.1;
            let i = if a < at {
                a
            } else {
                a - 1
            };
            assert(after[i] == before[a]);
        }
    }
    assert(pairs_of(after) =~= pairs_of(before).remove(gone));
}

/// A sequence without repeats whose pairs all occur in another of the same
/// length without repeats holds the same pairs.
proof fn lemma_same_size_subset(a: Seq<Subscription>, b: Seq<Subscription>)
    requires
        a.len() == b.len(),
        no_subscription_twice(a),
        no_subscription_twice(b),
        pairs_of(a).subset_of(pairs_of(b)),
    ensures
        pairs_of(a) == pairs_of(b),
    decreases a.len(),
{
    if a.len() == 0 {
        assert(pairs_of(a) =~= pairs_of(b));
    } else {
        let last = a.len() - 1;
        let p = (a[last].connection, a[last].topic@);
        assert(pairs_of(a).contains(p));
        assert(pairs_of(b).contains(p));
        let at = choose|i: int|
            0 <= i < b.len() && (#[trigger] b[i]).connection == p.0 && b[i].topic@ == p.1;
        lemma_removed_at(a, last);
        lemma_removed_at(b, at);
        let a2 = a.remove(last);
        let b2 = b.remove(at);
        assert(pairs_of(a2).subset_of(pairs_of(b2)));
        lemma_same_size_subset(a2, b2);
        assert(pairs_of(a) =~= pairs_of(a2).insert(p));
        assert(pairs_of(b) =~= pairs_of(b2).insert(p));
    }
}

/// A connection that has unsubscribed from a topic is not among those that
/// an event published under the topic goes to, and every other subscriber
/// still is.
pub proof fn lemma_unsubscribed_receives_nothing(
    pairs: Set<(ConnectionId, TopicKey)>,
    c: ConnectionId,
    topic: TopicKey,
    d: ConnectionId,
)
    ensures
        !subscribers_of(pairs.remove((c, topic)), topic).contains(c),
        d != c ==> subscribers_of(pairs.remove((c, topic)), topic).contains(d) == subscribers_of(
            pairs,
            topic,
        ).contains(d),
{
}

/// A connection that has subscribed to a topic is among those that an event
/// published under the topic goes to, and the others are who they were.
pub proof fn lemma_subscribed_receives(
    pairs: Set<(ConnectionId, TopicKey)>,
    c: ConnectionId,
    topic: TopicKey,
    d: ConnectionId,
)
    ensures
        subscribers_of(pairs.insert((c, topic)), topic).contains(c),
        d != c ==> subscribers_of(pairs.insert((c, topic)), topic).contains(d) == subscribers_of(
            pairs,
            topic,
        ).contains(d),
{
}

/// Subscribing twice is subscribing once, and unsubscribing twice is
/// unsubscribing once.
pub proof fn lemma_subscription_idempotent(
    pairs: Set<(ConnectionId, TopicKey)>,
    c: ConnectionId,
    topic: TopicKey,
)
    ensures
        pairs.insert((c, topic)).insert((c, topic)) == pairs.insert((c, topic)),
        pairs.remove((c, topic)).remove((c, topic)) == pairs.remove((c, topic)),
{
    assert(pairs.insert((c, topic)).insert((c, topic)) =~= pairs.insert((c, topic)));
    assert(pairs.remove((c, topic)).remove((c, topic)) =~= pairs.remove((c, topic)));
}

} // verus!

//! The gateway: the connections of one process, from the moment they are
//! accepted until they are closed.
//!
//! A connection is accepted unauthenticated. Once it has authenticated, its
//! user is recorded as present on this instance; once its topics are known
//! it is subscribed to them. When it is torn down its subscriptions and its
//! presence record go, once, however often teardown is asked for.

use crate::errors::Error;
use crate::events::EventV1;
use crate::events::Publication;
use crate::models::Member;
use crate::permissions::Perms;
use crate::permissions::VIEW_CHANNEL;
use crate::router::receivers;
use crate::router::Delivery;
use crate::presence::without_instance;
use crate::presence::without_one;
use crate::presence::Presence;
use crate::presence::PresenceRegistry;
use crate::router::without_connection;
use crate::router::ConnectionId;
use crate::router::TopicRouter;
use crate::topics::Topic;
use crate::topics::TopicKey;
use vstd::prelude::*;

verus! {

/// Where a connection stands.
#[derive(Clone, Debug, PartialEq, Eq)]
pub enum ConnectionState {
    /// Accepted, not yet authenticated.
    Connected,
    /// Authenticated as `user`; present, not yet subscribed.
    Authenticated { user: String },
    /// Subscribed to the topics of `user`.
    Subscribed { user: String },
    /// Torn down.
    Closed,
}

/// A connection and where it stands.
pub struct Connection {
    /// The connection's number.
    pub id: ConnectionId,
    /// Where it stands.
    pub state: ConnectionState,
}

/// The state of the first of `connections` that has the number `c`.
pub open spec fn state_in(connections: Seq<Connection>, c: ConnectionId) -> Option<ConnectionState>
    decreases connections.len(),
{
    if connections.len() == 0 {
        None
    } else if connections[0].id == c {
        Some(connections[0].state)
    } else {
        state_in(connections.drop_first(), c)
    }
}

/// The subscriptions that are there once `connection` has subscribed to
/// each of `topics`.
pub open spec fn with_topics(
    pairs: Set<(ConnectionId, TopicKey)>,
    connection: ConnectionId,
    topics: Seq<TopicKey>,
) -> Set<(ConnectionId, TopicKey)> {
    Set::new(
        |p: (ConnectionId, TopicKey)| pairs.contains(p) || (p.0 == connection && topics.contains(p.1)),
    )
}

/// The keys of a sequence of topics.
pub open spec fn keys_of(topics: Seq<Topic>) -> Seq<TopicKey> {
    Seq::new(topics.len(), |i: int| topics[i]@)
}

/// Whether `connection` is subscribed to one of the first `n` of `topics`.
pub open spec fn reached(
    pairs: Set<(ConnectionId, TopicKey)>,
    topics: Seq<Topic>,
    n: int,
    connection: ConnectionId,
) -> bool {
    exists|k: int| 0 <= k < n && k < topics.len() && pairs.contains((connection, (#[trigger] topics[k])@))
}

/// A channel with what a user may do in it.
pub struct ChannelAccess {
    /// The channel's id.
    pub channel: String,
    /// What the user may do in the channel.
    pub permissions: Perms,
}

/// The topics of the channels that can be seen, in the order of the
/// channels.
pub open spec fn visible_channels(channels: Seq<ChannelAccess>) -> Seq<TopicKey>
    decreases channels.len(),
{
    if channels.len() == 0 {
        Seq::empty()
    } else if channels.last().permissions.mask() & VIEW_CHANNEL == VIEW_CHANNEL {
        visible_channels(channels.drop_last()).push(TopicKey::Channel(channels.last().channel@))
    } else {
        visible_channels(channels.drop_last())
    }
}

/// The topics that a user is subscribed to besides their own: one for each
/// server they are a member of, and one for each channel they may see.
pub fn initial_topics(memberships: &Vec<Member>, channels: &Vec<ChannelAccess>) -> (r: Vec<Topic>)
    ensures
        keys_of(r@) == crate::events::server_topics(memberships@) + visible_channels(channels@),
{
    let mut out: Vec<Topic> = Vec::new();
    let mut i: usize = 0;
    proof {
        assert(keys_of(out@) =~= crate::events::server_topics(memberships@.take(0)));
    }
    while i < memberships.len()
        invariant
            i <= memberships@.len(),
            keys_of(out@) == crate::events::server_topics(memberships@.take(i as int)),
        decreases memberships@.len() - i,
    {
        let ghost before = keys_of(out@);
        out.push(Topic::Server(memberships[i].id.server.clone()));
        proof {
            assert(keys_of(out@) =~= before.push(TopicKey::Server(memberships@[i as int].id.server@)));
            assert(crate::events::server_topics(memberships@.take(i as int + 1))
                =~= crate::events::server_topics(memberships@.take(i as int)).push(
                TopicKey::Server(memberships@[i as int].id.server@),
            ));
        }
        i = i + 1;
    }
    let ghost servers = crate::events::server_topics(memberships@);
    proof {
        assert(memberships@.take(i as int) =~= memberships@);
        assert(channels@.take(0) =~= Seq::<ChannelAccess>::empty());
        assert(keys_of(out@) =~= servers + visible_channels(channels@.take(0)));
    }
    let mut j: usize = 0;
    while j < channels.len()
        invariant
            j <= channels@.len(),
            keys_of(out@) == servers + visible_channels(channels@.take(j as int)),
        decreases channels@.len() - j,
    {
        let ghost before = keys_of(out@);
        proof {
            assert(channels@.take(j as int + 1).drop_last() =~= channels@.take(j as int));
            assert(channels@.take(j as int + 1).last() == channels@[j as int]);
        }
        if channels[j].permissions.get_view() {
            out.push(Topic::Channel(channels[j].channel.clone()));
            proof {
                assert(keys_of(out@) =~= before.push(TopicKey::Channel(channels@[j as int].channel@)));
                assert(keys_of(out@) =~= servers + visible_channels(channels@.take(j as int + 1)));
            }
        }
        j = j + 1;
    }
    proof {
        assert(channels@.take(j as int) =~= channels@);
    }
    out
}

/// A gateway as a value.
pub struct GatewayView {
    /// Where each connection stands.
    pub states: Map<ConnectionId, ConnectionState>,
    /// Who is subscribed to what.
    pub subscriptions: Set<(ConnectionId, TopicKey)>,
    /// The presence records.
    pub presence: Seq<Presence>,
    /// The identifier of this instance.
    pub instance: Seq<char>,
}

impl GatewayView {
    /// The gateway with `c` in the given state.
    pub open spec fn with_state(self, c: ConnectionId, state: ConnectionState) -> GatewayView {
        GatewayView { states: self.states.insert(c, state), ..self }
    }

    /// The gateway after `c` was offered for acceptance: connected where
    /// the number was free, unchanged where it was not.
    pub open spec fn accepted(self, c: ConnectionId) -> GatewayView {
        if self.states.contains_key(c) {
            self
        } else {
            self.with_state(c, ConnectionState::Connected)
        }
    }

    /// The gateway after `c` authenticated as `user`: authenticated and
    /// present where it was connected, unchanged in any other state.
    pub open spec fn authenticated(self, c: ConnectionId, user: String) -> GatewayView {
        if self.states.contains_key(c) && self.states[c] == ConnectionState::Connected {
            GatewayView {
                presence: self.presence.push((user@, self.instance)),
                ..self.with_state(c, ConnectionState::Authenticated { user })
            }
        } else {
            self
        }
    }

    /// The gateway after the time to authenticate ran out for `c`: closed
    /// where it was still unauthenticated, unchanged in any other state.
    pub open spec fn expired(self, c: ConnectionId) -> GatewayView {
        if self.states.contains_key(c) && self.states[c] == ConnectionState::Connected {
            self.with_state(c, ConnectionState::Closed)
        } else {
            self
        }
    }

    /// The gateway after `c` was given its topics: subscribed to its user's
    /// topic and to each of `topics` where it was authenticated, unchanged
    /// in any other state.
    pub open spec fn readied(self, c: ConnectionId, topics: Seq<TopicKey>) -> GatewayView {
        if self.states.contains_key(c) {
            match self.states[c] {
                ConnectionState::Authenticated { user } => GatewayView {
                    subscriptions: with_topics(
                        self.subscriptions.insert((c, TopicKey::User(user@))),
                        c,
                        topics,
                    ),
                    ..self.with_state(c, ConnectionState::Subscribed { user })
                },
                _ => self,
            }
        } else {
            self
        }
    }

    /// Whether `c` is subscribed.
    pub open spec fn is_subscribed(self, c: ConnectionId) -> bool {
        self.states.contains_key(c) && self.states[c] is Subscribed
    }

    /// The gateway after `c` gained access to `topic`.
    pub open spec fn granted(self, c: ConnectionId, topic: TopicKey) -> GatewayView {
        if self.is_subscribed(c) {
            GatewayView { subscriptions: self.subscriptions.insert((c, topic)), ..self }
        } else {
            self
        }
    }

    /// The gateway after `c` lost access to `topic`.
    pub open spec fn revoked(self, c: ConnectionId, topic: TopicKey) -> GatewayView {
        if self.is_subscribed(c) {
            GatewayView { subscriptions: self.subscriptions.remove((c, topic)), ..self }
        } else {
            self
        }
    }

    /// The gateway after `c` was torn down: closed, without its
    /// subscriptions and without one presence record of its user on this
    /// instance. A connection that is closed or unknown leaves the gateway
    /// as it is.
    pub open spec fn torn_down(self, c: ConnectionId) -> GatewayView {
        if self.states.contains_key(c) {
            match self.states[c] {
                ConnectionState::Connected => self.with_state(c, ConnectionState::Closed),
                ConnectionState::Authenticated { user } => GatewayView {
                    presence: without_one(self.presence, (user@, self.instance)),
                    ..self.with_state(c, ConnectionState::Closed)
                },
                ConnectionState::Subscribed { user } => GatewayView {
                    presence: without_one(self.presence, (user@, self.instance)),
                    subscriptions: without_connection(self.subscriptions, c),
                    ..self.with_state(c, ConnectionState::Closed)
                },
                ConnectionState::Closed => self,
            }
        } else {
            self
        }
    }
}

/// The connections of one process with their subscriptions and the presence
/// records.
pub struct Gateway {
    connections: Vec<Connection>,
    router: TopicRouter,
    presence: PresenceRegistry,
}

impl View for Gateway {
    type V = GatewayView;

    closed spec fn view(&self) -> GatewayView {
        GatewayView {
            states: Map::new(
                |c: ConnectionId| state_in(self.connections@, c).is_some(),
                |c: ConnectionId| state_in(self.connections@, c).unwrap(),
            ),
            subscriptions: self.router@,
            presence: self.presence@,
            instance: self.presence.own_instance(),
        }
    }
}

/// Putting a new state in the place of the first connection with a number
/// changes the state of that number and of no other.
proof fn lemma_state_replaced(connections: Seq<Connection>, at: int, state: ConnectionState, d: ConnectionId)
    requires
        0 <= at < connections.len(),
        forall|k: int| 0 <= k < at ==> (#[trigger] connections[k]).id != connections[at].id,
    ensures
        state_in(connections.update(at, Connection { id: connections[at].id, state }), d) == if d
            == connections[at].id {
            Some(state)
        } else {
            state_in(connections, d)
        },
    decreases connections.len(),
{
    let c = connections[at].id;
    let after = connections.update(at, Connection { id: c, state });
    if at == 0 {
        assert(after.drop_first() =~= connections.drop_first());
    } else {
        assert(after[0] == connections[0]);
        assert(connections[0].id != c);
        let rest = connections.drop_first();
        assert forall|k: int| 0 <= k < at - 1 implies (#[trigger] rest[k]).id != rest[at - 1].id by {
            assert(rest[k] == connections[k + 1]);
        }
        lemma_state_replaced(rest, at - 1, state, d);
        assert(after.drop_first() =~= rest.update(at - 1, Connection { id: rest[at - 1].id, state }));
    }
}

/// A connection added at the end gives its number a state where it had
/// none, and changes no other.
proof fn lemma_state_added(connections: Seq<Connection>, added: Connection, d: ConnectionId)
    ensures
        state_in(connections.push(added), d) == match state_in(connections, d) {
            Some(s) => Some(s),
            None => if d == added.id {
                Some(added.state)
            } else {
                None
            },
        },
    decreases connections.len(),
{
    let after = connections.push(added);
    if connections.len() == 0 {
        assert(after.drop_first() =~= Seq::<Connection>::empty());
    } else {
        assert(after[0] == connections[0]);
        assert(after.drop_first() =~= connections.drop_first().push(added));
        lemma_state_added(connections.drop_first(), added, d);
    }
}

/// What a sequence holds once a value is added at its end: what it held,
/// and the value.
proof fn lemma_push_contains(items: Seq<ConnectionId>, added: ConnectionId, d: ConnectionId)
    ensures
        items.push(added).contains(d) <==> (items.contains(d) || d == added),
{
    let after = items.push(added);
    if items.contains(d) {
        let x = choose|x: int| 0 <= x < items.len() && items[x] == d;
        assert(after[x] == d);
    }
    if d == added {
        assert(after[items.len() as int] == d);
    }
    if after.contains(d) {
        let x = choose|x: int| 0 <= x < after.len() && after[x] == d;
        if x < items.len() {
            assert(items[x] == d);
        }
    }
}

/// Whether one of the deliveries goes to `c`.
fn has_receiver<'a>(deliveries: &Vec<Delivery<'a, EventV1>>, c: ConnectionId) -> (r: bool)
    ensures
        r == receivers(deliveries@).contains(c),
{
    let mut i: usize = 0;
    while i < deliveries.len()
        invariant
            i <= deliveries@.len(),
            forall|k: int| 0 <= k < i ==> receivers(deliveries@)[k] != c,
        decreases deliveries@.len() - i,
    {
        if deliveries[i].connection == c {
            assert(receivers(deliveries@)[i as int] == c);
            return true;
        }
        i = i + 1;
    }
    false
}

impl Gateway {
    /// The gateway of a process that starts: it holds the registry given,
    /// from which the records of this instance are cleared first, and has no
    /// connection yet.
    pub fn start(presence: PresenceRegistry) -> (r: Gateway)
        ensures
            r@.states == Map::<ConnectionId, ConnectionState>::empty(),
            r@.subscriptions == Set::<(ConnectionId, TopicKey)>::empty(),
            r@.presence == without_instance(presence@, presence.own_instance()),
            r@.instance == presence.own_instance(),
    {
        let mut presence = presence;
        presence.clear(None);
        let r = Gateway { connections: Vec::new(), router: TopicRouter::new(), presence };
        proof {
            assert(r@.states =~= Map::<ConnectionId, ConnectionState>::empty());
        }
        r
    }

    /// Where the first connection with the number `c` is held.
    fn find(&self, c: ConnectionId) -> (r: Option<usize>)
        ensures
            match r {
                Some(i) => i < self.connections@.len() && self.connections@[i as int].id == c
                    && state_in(self.connections@, c) == Some(self.connections@[i as int].state)
                    && forall|k: int| 0 <= k < i ==> (#[trigger] self.connections@[k]).id != c,
                None => state_in(self.connections@, c).is_none(),
            },
    {
        let mut i: usize = 0;
        proof {
            assert(self.connections@.skip(0) =~= self.connections@);
        }
        while i < self.connections.len()
            invariant
                i <= self.connections@.len(),
                state_in(self.connections@, c) == state_in(self.connections@.skip(i as int), c),
                forall|k: int| 0 <= k < i ==> (#[trigger] self.connections@[k]).id != c,
            decreases self.connections@.len() - i,
        {
            proof {
                assert(self.connections@.skip(i as int).drop_first() =~= self.connections@.skip(
                    i as int + 1,
                ));
                assert(self.connections@.skip(i as int)[0] == self.connections@[i as int]);
            }
            if self.connections[i].id == c {
                return Some(i);
            }
            i = i + 1;
        }
        proof {
            assert(self.connections@.skip(i as int).len() == 0);
        }
        None
    }

    /// Puts `state` in the place of the state of the connection held at
    /// `at`.
    fn put_state(&mut self, at: usize, state: ConnectionState)
        requires
            at < old(self).connections@.len(),
            forall|k: int|
                0 <= k < at ==> (#[trigger] old(self).connections@[k]).id != old(
                    self,
                ).connections@[at as int].id,
        ensures
            final(self)@ == old(self)@.with_state(old(self).connections@[at as int].id, state),
            final(self).router == old(self).router,
            final(self).presence == old(self).presence,
    {
        let id = self.connections[at].id;
        let ghost before = self.connections@;
        self.connections.set(at, Connection { id, state });
        proof {
            assert(self.connections@ == before.update(at as int, Connection { id, state }));
            assert forall|d: ConnectionId|
                state_in(self.connections@, d) == if d == id {
                    Some(state)
                } else {
                    state_in(before, d)
                } by {
                lemma_state_replaced(before, at as int, state, d);
            }
            assert(self@.states =~= old(self)@.states.insert(id, state));
        }
    }

    /// Where the connection stands; `None` for a number that was never
    /// accepted.
    pub fn state(&self, c: ConnectionId) -> (r: Option<&ConnectionState>)
        ensures
            match r {
                Some(s) => self@.states.contains_key(c) && self@.states[c] == *s,
                None => !self@.states.contains_key(c),
            },
    {
        match self.find(c) {
            Some(i) => Some(&self.connections[i].state),
            None => None,
        }
    }

    /// Accepts a connection under the number `c`, unauthenticated. Says
    /// whether the number was free; where it was not, nothing changes.
    pub fn accept(&mut self, c: ConnectionId) -> (r: bool)
        ensures
            final(self)@ == old(self)@.accepted(c),
            r == !old(self)@.states.contains_key(c),
    {
        match self.find(c) {
            Some(_) => false,
            None => {
                let ghost before = self.connections@;
                let added = Connection { id: c, state: ConnectionState::Connected };
                self.connections.push(added);
                proof {
                    assert forall|d: ConnectionId|
                        state_in(self.connections@, d) == match state_in(before, d) {
                            Some(s) => Some(s),
                            None => if d == c {
                                Some(ConnectionState::Connected)
                            } else {
                                None
                            },
                        } by {
                        lemma_state_added(before, added, d);
                    }
                    assert(self@.states =~= old(self)@.states.insert(c, ConnectionState::Connected));
                }
                true
            },
        }
    }

    /// Marks the connection as authenticated as `user`, and records the user
    /// as present on this instance. An unknown connection is not found; one
    /// that is past authentication, or closed, is refused. Nothing changes
    /// where an error is returned.
    pub fn authenticate(&mut self, c: ConnectionId, user: String) -> (r: Result<(), Error>)
        ensures
            final(self)@ == old(self)@.authenticated(c, user),
            match r {
                Ok(_) => old(self)@.states.contains_key(c) && old(self)@.states[c]
                    == ConnectionState::Connected,
                Err(e) => if old(self)@.states.contains_key(c) {
                    old(self)@.states[c] != ConnectionState::Connected && e
                        == Error::InvalidOperation
                } else {
                    e == Error::NotFound
                },
            },
    {
        match self.find(c) {
            None => Err(Error::NotFound),
            Some(i) => {
                match &self.connections[i].state {
                    ConnectionState::Connected => {
                        self.presence.register_here(user.as_str());
                        self.put_state(i, ConnectionState::Authenticated { user });
                        Ok(())
                    },
                    _ => Err(Error::InvalidOperation),
                }
            },
        }
    }

    /// Closes the connection if it has not authenticated in time. Says
    /// whether it was closed by this.
    pub fn grace_expired(&mut self, c: ConnectionId) -> (r: bool)
        ensures
            final(self)@ == old(self)@.expired(c),
            r == (old(self)@.states.contains_key(c) && old(self)@.states[c]
                == ConnectionState::Connected),
    {
        match self.find(c) {
            None => false,
            Some(i) => {
                match &self.connections[i].state {
                    ConnectionState::Connected => {
                        self.put_state(i, ConnectionState::Closed);
                        true
                    },
                    _ => false,
                }
            },
        }
    }

    /// Subscribes an authenticated connection to the topic of its user and
    /// to each of `topics`. An unknown connection is not found; one in any
    /// other state is refused. Nothing changes where an error is returned.
    pub fn ready(&mut self, c: ConnectionId, topics: Vec<Topic>) -> (r: Result<(), Error>)
        ensures
            final(self)@ == old(self)@.readied(c, keys_of(topics@)),
            match r {
                Ok(_) => old(self)@.states.contains_key(c) && old(self)@.states[c] is Authenticated,
                Err(e) => if old(self)@.states.contains_key(c) {
                    !(old(self)@.states[c] is Authenticated) && e == Error::InvalidOperation
                } else {
                    e == Error::NotFound
                },
            },
    {
        let at = match self.find(c) {
            None => {
                return Err(Error::NotFound);
            },
            Some(i) => i,
        };
        let user = match &self.connections[at].state {
            ConnectionState::Authenticated { user } => user.clone(),
            _ => {
                return Err(Error::InvalidOperation);
            },
        };
        let ghost keys = keys_of(topics@);
        let ghost start = self.router@.insert((c, TopicKey::User(user@)));
        self.router.subscribe(c, Topic::User(user.clone()));
        let mut topics = topics;
        let ghost mut done: Seq<TopicKey> = Seq::empty();
        proof {
            assert(self.router@ =~= with_topics(start, c, done));
        }
        while topics.len() > 0
            invariant
                self.connections == old(self).connections,
                self.presence == old(self).presence,
                forall|t: TopicKey| keys.contains(t) <==> (done.contains(t) || keys_of(topics@).contains(t)),
                self.router@ == with_topics(start, c, done),
            decreases topics@.len(),
        {
            let ghost before = keys_of(topics@);
            let ghost had = self.router@;
            let topic = topics.pop().unwrap();
            let ghost key = topic@;
            self.router.subscribe(c, topic);
            proof {
                let now = done.push(key);
                assert(before[before.len() - 1] == key);
                assert forall|t: TopicKey| keys.contains(t) <==> (now.contains(t) || keys_of(
                    topics@,
                ).contains(t)) by {
                    if before.contains(t) {
                        let k = choose|k: int| 0 <= k < before.len() && before[k] == t;
                        if k < before.len() - 1 {
                            assert(keys_of(topics@)[k] == t);
                        } else {
                            assert(now[done.len() as int] == t);
                        }
                    }
                    if keys_of(topics@).contains(t) {
                        let k = choose|k: int| 0 <= k < topics@.len() && keys_of(topics@)[k] == t;
                        assert(before[k] == t);
                    }
                    if done.contains(t) {
                        let k = choose|k: int| 0 <= k < done.len() && done[k] == t;
                        assert(now[k] == t);
                    }
                    if now.contains(t) {
                        let k = choose|k: int| 0 <= k < now.len() && now[k] == t;
                        if k < done.len() {
                            assert(done[k] == t);
                        } else {
                            assert(before.contains(t));
                        }
                    }
                }
                assert forall|p: (ConnectionId, TopicKey)|
                    had.insert((c, key)).contains(p) == with_topics(start, c, now).contains(p) by {
                    if p.0 == c && now.contains(p.1) {
                        let k = choose|k: int| 0 <= k < now.len() && now[k] == p.1;
                        if k < done.len() {
                            assert(done[k] == p.1);
                        }
                    }
                    if p.0 == c && done.contains(p.1) {
                        let k = choose|k: int| 0 <= k < done.len() && done[k] == p.1;
                        assert(now[k] == p.1);
                    }
                    if p == (c, key) {
                        assert(now[done.len() as int] == key);
                    }
                }
                assert(self.router@ =~= with_topics(start, c, now));
                done = now;
            }
        }
        proof {
            assert forall|t: TopicKey| keys.contains(t) <==> done.contains(t) by {
                if keys_of(topics@).contains(t) {
                    let k = choose|k: int| 0 <= k < topics@.len() && keys_of(topics@)[k] == t;
                }
            }
            assert(with_topics(start, c, done) =~= with_topics(start, c, keys));
        }
        self.put_state(at, ConnectionState::Subscribed { user });
        Ok(())
    }

    /// Subscribes a subscribed connection to a topic that it gained access
    /// to. An unknown connection is not found; one that is not subscribed is
    /// refused.
    pub fn grant(&mut self, c: ConnectionId, topic: Topic) -> (r: Result<(), Error>)
        ensures
            final(self)@ == old(self)@.granted(c, topic@),
            match r {
                Ok(_) => old(self)@.is_subscribed(c),
                Err(e) => !old(self)@.is_subscribed(c) && e == if old(self)@.states.contains_key(c) {
                    Error::InvalidOperation
                } else {
                    Error::NotFound
                },
            },
    {
        match self.find(c) {
            None => Err(Error::NotFound),
            Some(i) => {
                match &self.connections[i].state {
                    ConnectionState::Subscribed { .. } => {
                        self.router.subscribe(c, topic);
                        Ok(())
                    },
                    _ => Err(Error::InvalidOperation),
                }
            },
        }
    }

    /// Ends the subscription of a subscribed connection to a topic that it
    /// lost access to. An unknown connection is not found; one that is not
    /// subscribed is refused.
    pub fn revoke(&mut self, c: ConnectionId, topic: &Topic) -> (r: Result<(), Error>)
        ensures
            final(self)@ == old(self)@.revoked(c, topic@),
            match r {
                Ok(_) => old(self)@.is_subscribed(c),
                Err(e) => !old(self)@.is_subscribed(c) && e == if old(self)@.states.contains_key(c) {
                    Error::InvalidOperation
                } else {
                    Error::NotFound
                },
            },
    {
        match self.find(c) {
            None => Err(Error::NotFound),
            Some(i) => {
                match &self.connections[i].state {
                    ConnectionState::Subscribed { .. } => {
                        self.router.unsubscribe(c, topic);
                        Ok(())
                    },
                    _ => Err(Error::InvalidOperation),
                }
            },
        }
    }

    /// Brings the subscription of a subscribed connection to a channel in
    /// line with what its user may now do there: subscribed where the
    /// channel can be seen, unsubscribed where it cannot. To be called
    /// whenever roles or memberships change.
    pub fn reconsider(&mut self, c: ConnectionId, channel: &str, permissions: &Perms) -> (r: Result<
        (),
        Error,
    >)
        ensures
            final(self)@ == if permissions.mask() & VIEW_CHANNEL == VIEW_CHANNEL {
                old(self)@.granted(c, TopicKey::Channel(channel@))
            } else {
                old(self)@.revoked(c, TopicKey::Channel(channel@))
            },
            match r {
                Ok(_) => old(self)@.is_subscribed(c),
                Err(e) => !old(self)@.is_subscribed(c) && e == if old(self)@.states.contains_key(c) {
                    Error::InvalidOperation
                } else {
                    Error::NotFound
                },
            },
    {
        let topic = Topic::Channel(channel.to_owned());
        if permissions.get_view() {
            self.grant(c, topic)
        } else {
            self.revoke(c, &topic)
        }
    }

    /// Tears the connection down: ends its subscriptions, removes its
    /// presence record and closes it. Says whether there was anything to
    /// tear down; for a connection that is closed already, or unknown,
    /// nothing changes.
    pub fn teardown(&mut self, c: ConnectionId) -> (r: bool)
        ensures
            final(self)@ == old(self)@.torn_down(c),
            r == (old(self)@.states.contains_key(c) && old(self)@.states[c]
                != ConnectionState::Closed),
            !r ==> final(self)@ == old(self)@,
    {
        let at = match self.find(c) {
            None => {
                return false;
            },
            Some(i) => i,
        };
        let user = match &self.connections[at].state {
            ConnectionState::Closed => {
                return false;
            },
            ConnectionState::Connected => None,
            ConnectionState::Authenticated { user } => Some(user.clone()),
            ConnectionState::Subscribed { user } => {
                let user = user.clone();
                self.router.unsubscribe_all(c);
                Some(user)
            },
        };
        if let Some(user) = user {
            self.presence.unregister_here(user.as_str());
        }
        self.put_state(at, ConnectionState::Closed);
        true
    }

    /// Names the deliveries of a publication: one for each connection that
    /// is subscribed to any of its topics now, each with the event as it was
    /// handed in. A connection that is subscribed to several of the topics
    /// is named once.
    pub fn dispatch<'a>(&self, publication: &'a Publication) -> (r: Vec<Delivery<'a, EventV1>>)
        ensures
            forall|i: int| 0 <= i < r@.len() ==> *(#[trigger] r@[i]).event == publication.event,
            receivers(r@).no_duplicates(),
            forall|c: ConnectionId|
                receivers(r@).contains(c) <==> #[trigger] reached(
                    self@.subscriptions,
                    publication.topics@,
                    publication.topics@.len() as int,
                    c,
                ),
    {
        let mut out: Vec<Delivery<'a, EventV1>> = Vec::new();
        let ghost pairs = self.router@;
        let ghost topics = publication.topics@;
        let mut k: usize = 0;
        while k < publication.topics.len()
            invariant
                pairs == self.router@,
                topics == publication.topics@,
                k <= topics.len(),
                forall|i: int| 0 <= i < out@.len() ==> *(#[trigger] out@[i]).event == publication.event,
                receivers(out@).no_duplicates(),
                forall|c: ConnectionId|
                    receivers(out@).contains(c) <==> #[trigger] reached(pairs, topics, k as int, c),
            decreases topics.len() - k,
        {
            let to = self.router.subscribers(&publication.topics[k]);
            let ghost key = topics[k as int]@;
            let mut j: usize = 0;
            while j < to.len()
                invariant
                    pairs == self.router@,
                    topics == publication.topics@,
                    k < topics.len(),
                    key == topics[k as int]@,
                    j <= to@.len(),
                    to@.no_duplicates(),
                    forall|c: ConnectionId| to@.contains(c) <==> pairs.contains((c, key)),
                    forall|i: int|
                        0 <= i < out@.len() ==> *(#[trigger] out@[i]).event == publication.event,
                    receivers(out@).no_duplicates(),
                    forall|c: ConnectionId|
                        receivers(out@).contains(c) <==> (#[trigger] reached(
                            pairs,
                            topics,
                            k as int,
                            c,
                        ) || to@.take(j as int).contains(c)),
                decreases to@.len() - j,
            {
                let c = to[j];
                let ghost before = out@;
                let ghost seen = to@.take(j as int);
                let known = has_receiver(&out, c);
                if !known {
                    out.push(Delivery { connection: c, event: &publication.event });
                    proof {
                        assert(receivers(out@) =~= receivers(before).push(c));
                    }
                }
                j = j + 1;
                proof {
                    let next = to@.take(j as int);
                    let r0 = receivers(before);
                    let r1 = receivers(out@);
                    assert(next =~= seen.push(c));
                    assert forall|d: ConnectionId|
                        receivers(out@).contains(d) <==> (#[trigger] reached(
                            pairs,
                            topics,
                            k as int,
                            d,
                        ) || to@.take(j as int).contains(d)) by {
                        lemma_push_contains(seen, c, d);
                        assert(r0.contains(d) <==> (reached(pairs, topics, k as int, d)
                            || seen.contains(d)));
                        if known {
                            assert(r1 == r0);
                        } else {
                            assert(r1 == r0.push(c));
                            lemma_push_contains(r0, c, d);
                        }
                    }
                }
            }
            proof {
                assert(to@.take(j as int) =~= to@);
                assert forall|c: ConnectionId|
                    receivers(out@).contains(c) <==> #[trigger] reached(
                        pairs,
                        topics,
                        k as int + 1,
                        c,
                    ) by {
                    if reached(pairs, topics, k as int + 1, c) {
                        let x = choose|x: int|
                            0 <= x < k as int + 1 && x < topics.len() && pairs.contains(
                                (c, (#[trigger] topics[x])@),
                            );
                        if x < k {
                            assert(reached(pairs, topics, k as int, c));
                        }
                    }
                    if reached(pairs, topics, k as int, c) {
                        let x = choose|x: int|
                            0 <= x < k as int && x < topics.len() && pairs.contains(
                                (c, (#[trigger] topics[x])@),
                            );
                        assert(reached(pairs, topics, k as int + 1, c));
                    }
                    if to@.contains(c) {
                        assert(pairs.contains((c, topics[k as int]@)));
                        assert(reached(pairs, topics, k as int + 1, c));
                    }
                }
            }
            k = k + 1;
        }
        out
    }

    /// Whether the connection is subscribed to the topic.
    pub fn is_subscribed(&self, c: ConnectionId, topic: &Topic) -> (r: bool)
        ensures
            r == self@.subscriptions.contains((c, topic@)),
    {
        self.router.is_subscribed(c, topic)
    }

    /// The instances on which the user has a connection, each once.
    pub fn locate(&self, user: &str) -> (r: Vec<String>)
        ensures
            forall|i: int, j: int| 0 <= i < j < r@.len() ==> (#[trigger] r@[i])@ != (#[trigger] r@[j])@,
            forall|instance: Seq<char>| #[trigger]
                crate::presence::names_text(r@, instance) <==> crate::presence::located(
                    self@.presence,
                    user@,
                ).contains(instance),
    {
        self.presence.locate(user)
    }
}

/// Tearing a connection down a second time changes nothing.
pub proof fn lemma_teardown_idempotent(gateway: GatewayView, c: ConnectionId)
    ensures
        gateway.torn_down(c).torn_down(c) == gateway.torn_down(c),
{
    let once = gateway.torn_down(c);
    if gateway.states.contains_key(c) {
        assert(once.states.contains_key(c));
        assert(once.states[c] == ConnectionState::Closed);
    } else {
        assert(!once.states.contains_key(c));
    }
}

/// Tearing a connection down leaves every other connection as it was, with
/// its subscriptions.
pub proof fn lemma_teardown_leaves_others(
    gateway: GatewayView,
    c: ConnectionId,
    d: ConnectionId,
    topic: TopicKey,
)
    requires
        c != d,
    ensures
        gateway.torn_down(c).states.contains_key(d) == gateway.states.contains_key(d),
        gateway.states.contains_key(d) ==> gateway.torn_down(c).states[d] == gateway.states[d],
        gateway.torn_down(c).subscriptions.contains((d, topic)) == gateway.subscriptions.contains(
            (d, topic),
        ),
{
}

/// A connection that was torn down is subscribed to nothing.
pub proof fn lemma_teardown_ends_subscriptions(gateway: GatewayView, c: ConnectionId, topic: TopicKey)
    requires
        gateway.is_subscribed(c),
    ensures
        !gateway.torn_down(c).subscriptions.contains((c, topic)),
{
}

} // verus!

//! Events: what clients are told when state changes, and under which topics
//! each is published.

use crate::errors::Error;
use crate::models::Channel;
use crate::models::FieldsMember;
use crate::models::FieldsUser;
use crate::models::Member;
use crate::models::MemberCompositeKey;
use crate::models::Message;
use crate::models::PartialMember;
use crate::models::PartialUser;
use crate::models::RelationshipStatus;
use crate::models::User;
use crate::topics::Topic;
use crate::topics::TopicKey;
use vstd::prelude::*;

verus! {

/// A state change as clients see it. Each variant carries what a client
/// needs to bring its own state up to date.
#[derive(Clone, Debug, PartialEq, Eq)]
pub enum EventV1 {
    /// A message was sent.
    Message(Message),
    /// A message was deleted.
    MessageDelete { id: String, channel: String },
    /// A channel was made.
    ChannelCreate(Channel),
    /// A channel was deleted.
    ChannelDelete { id: String },
    /// A user joined a group.
    ChannelGroupJoin { id: String, user: String },
    /// A user left a group.
    ChannelGroupLeave { id: String, user: String },
    /// A server was deleted.
    ServerDelete { id: String },
    /// A member was changed.
    ServerMemberUpdate { id: MemberCompositeKey, data: PartialMember, clear: Vec<FieldsMember> },
    /// A user joined a server.
    ServerMemberJoin { id: String, user: String },
    /// A user left a server.
    ServerMemberLeave { id: String, user: String },
    /// A role was deleted.
    ServerRoleDelete { id: String, role_id: String },
    /// A user was changed.
    UserUpdate { id: String, data: PartialUser, clear: Vec<FieldsUser> },
    /// The relationship between the receiver and `user` changed.
    UserRelationship { id: String, user: User, status: RelationshipStatus },
}

/// The kind of an event, which tags it on the wire.
#[derive(Clone, Copy, Debug, PartialEq, Eq, Structural)]
pub enum EventKind {
    Message,
    MessageDelete,
    ChannelCreate,
    ChannelDelete,
    ChannelGroupJoin,
    ChannelGroupLeave,
    ServerDelete,
    ServerMemberUpdate,
    ServerMemberJoin,
    ServerMemberLeave,
    ServerRoleDelete,
    UserUpdate,
    UserRelationship,
}

/// An event with the topics it is published under.
#[derive(Clone, Debug, PartialEq, Eq)]
pub struct Publication {
    /// The topics, in the order in which the event is published under them.
    pub topics: Vec<Topic>,
    /// The event.
    pub event: EventV1,
}

/// The topics of the servers that the member records belong to.
pub open spec fn server_topics(memberships: Seq<Member>) -> Seq<TopicKey> {
    Seq::new(memberships.len(), |i: int| TopicKey::Server(memberships[i].id.server@))
}

/// The keys of a sequence of topics.
pub open spec fn topic_keys(topics: Seq<Topic>) -> Seq<TopicKey> {
    Seq::new(topics.len(), |i: int| topics[i]@)
}

impl EventV1 {
    /// The kind of the event.
    pub open spec fn spec_kind(self) -> EventKind {
        match self {
            EventV1::Message(_) => EventKind::Message,
            EventV1::MessageDelete { .. } => EventKind::MessageDelete,
            EventV1::ChannelCreate(_) => EventKind::ChannelCreate,
            EventV1::ChannelDelete { .. } => EventKind::ChannelDelete,
            EventV1::ChannelGroupJoin { .. } => EventKind::ChannelGroupJoin,
            EventV1::ChannelGroupLeave { .. } => EventKind::ChannelGroupLeave,
            EventV1::ServerDelete { .. } => EventKind::ServerDelete,
            EventV1::ServerMemberUpdate { .. } => EventKind::ServerMemberUpdate,
            EventV1::ServerMemberJoin { .. } => EventKind::ServerMemberJoin,
            EventV1::ServerMemberLeave { .. } => EventKind::ServerMemberLeave,
            EventV1::ServerRoleDelete { .. } => EventKind::ServerRoleDelete,
            EventV1::UserUpdate { .. } => EventKind::UserUpdate,
            EventV1::UserRelationship { .. } => EventKind::UserRelationship,
        }
    }

    /// The kind of the event.
    pub fn kind(&self) -> (r: EventKind)
        ensures
            r == self.spec_kind(),
    {
        match self {
            EventV1::Message(_) => EventKind::Message,
            EventV1::MessageDelete { .. } => EventKind::MessageDelete,
            EventV1::ChannelCreate(_) => EventKind::ChannelCreate,
            EventV1::ChannelDelete { .. } => EventKind::ChannelDelete,
            EventV1::ChannelGroupJoin { .. } => EventKind::ChannelGroupJoin,
            EventV1::ChannelGroupLeave { .. } => EventKind::ChannelGroupLeave,
            EventV1::ServerDelete { .. } => EventKind::ServerDelete,
            EventV1::ServerMemberUpdate { .. } => EventKind::ServerMemberUpdate,
            EventV1::ServerMemberJoin { .. } => EventKind::ServerMemberJoin,
            EventV1::ServerMemberLeave { .. } => EventKind::ServerMemberLeave,
            EventV1::ServerRoleDelete { .. } => EventKind::ServerRoleDelete,
            EventV1::UserUpdate { .. } => EventKind::UserUpdate,
            EventV1::UserRelationship { .. } => EventKind::UserRelationship,
        }
    }

    /// The event, to be published to all who are in the channel.
    pub fn p(self, channel: String) -> (r: Publication)
        ensures
            r.event == self,
            topic_keys(r.topics@) == seq![TopicKey::Channel(channel@)],
    {
        let mut topics: Vec<Topic> = Vec::new();
        topics.push(Topic::Channel(channel));
        proof {
            assert(topic_keys(topics@) =~= seq![TopicKey::Channel(channel@)]);
        }
        Publication { topics, event: self }
    }

    /// The event, to be published to the members of the server.
    pub fn server(self, id: String) -> (r: Publication)
        ensures
            r.event == self,
            topic_keys(r.topics@) == seq![TopicKey::Server(id@)],
    {
        let mut topics: Vec<Topic> = Vec::new();
        topics.push(Topic::Server(id));
        proof {
            assert(topic_keys(topics@) =~= seq![TopicKey::Server(id@)]);
        }
        Publication { topics, event: self }
    }

    /// The event, to be delivered to one user alone.
    pub fn private(self, id: String) -> (r: Publication)
        ensures
            r.event == self,
            topic_keys(r.topics@) == seq![TopicKey::User(id@)],
    {
        let mut topics: Vec<Topic> = Vec::new();
        topics.push(Topic::User(id));
        proof {
            assert(topic_keys(topics@) =~= seq![TopicKey::User(id@)]);
        }
        Publication { topics, event: self }
    }

    /// The event, to be published to the user and to the members of every
    /// server that the user is in, given the user's member records.
    pub fn p_user(self, id: String, memberships: &Vec<Member>) -> (r: Publication)
        ensures
            r.event == self,
            topic_keys(r.topics@) == seq![TopicKey::User(id@)] + server_topics(memberships@),
    {
        let mut topics: Vec<Topic> = Vec::new();
        topics.push(Topic::User(id));
        let mut i: usize = 0;
        proof {
            assert(topic_keys(topics@) =~= seq![TopicKey::User(id@)] + server_topics(
                memberships@.take(0),
            ));
        }
        while i < memberships.len()
            invariant
                i <= memberships@.len(),
                topic_keys(topics@) == seq![TopicKey::User(id@)] + server_topics(
                    memberships@.take(i as int),
                ),
            decreases memberships@.len() - i,
        {
            let ghost before = topic_keys(topics@);
            topics.push(Topic::Server(memberships[i].id.server.clone()));
            proof {
                assert(topic_keys(topics@) =~= before.push(
                    TopicKey::Server(memberships@[i as int].id.server@),
                ));
                assert(server_topics(memberships@.take(i as int + 1)) =~= server_topics(
                    memberships@.take(i as int),
                ).push(TopicKey::Server(memberships@[i as int].id.server@)));
                assert(topic_keys(topics@) =~= seq![TopicKey::User(id@)] + server_topics(
                    memberships@.take(i as int + 1),
                ));
            }
            i = i + 1;
        }
        proof {
            assert(memberships@.take(i as int) =~= memberships@);
        }
        Publication { topics, event: self }
    }
}

impl Message {
    /// What is published once the message has been stored: the message, to
    /// all who are in its channel. Where storing failed, its error and
    /// nothing to publish.
    pub fn send_without_notifications(self, stored: Result<(), Error>) -> (r: Result<
        Publication,
        Error,
    >)
        ensures
            match stored {
                Ok(_) => r.is_ok() && r.unwrap().event == EventV1::Message(self) && topic_keys(
                    r.unwrap().topics@,
                ) == seq![TopicKey::Channel(self.channel@)],
                Err(e) => r == Err::<Publication, Error>(e),
            },
    {
        match stored {
            Ok(_) => {
                let channel = self.channel.clone();
                Ok(EventV1::Message(self).p(channel))
            },
            Err(e) => Err(e),
        }
    }
}

} // verus!

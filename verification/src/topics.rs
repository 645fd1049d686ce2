//! Topics: the keys that connections subscribe to and that events are
//! published under.

use crate::text::str_eq;
use vstd::prelude::*;

verus! {

/// A routing key: the id of a channel, of a user or of a server.
#[derive(Clone, Debug, PartialEq, Eq)]
pub enum Topic {
    /// Events of a channel, for all who are in it.
    Channel(String),
    /// Events meant for one user alone.
    User(String),
    /// Events of a server, for all its members.
    Server(String),
}

/// A topic as a value: its kind and the text of its id.
pub enum TopicKey {
    Channel(Seq<char>),
    User(Seq<char>),
    Server(Seq<char>),
}

impl View for Topic {
    type V = TopicKey;

    open spec fn view(&self) -> TopicKey {
        match self {
            Topic::Channel(id) => TopicKey::Channel(id@),
            Topic::User(id) => TopicKey::User(id@),
            Topic::Server(id) => TopicKey::Server(id@),
        }
    }
}

impl Topic {
    /// Whether two topics are the same key.
    pub fn same(&self, other: &Topic) -> (r: bool)
        ensures
            r == (self@ == other@),
    {
        match (self, other) {
            (Topic::Channel(a), Topic::Channel(b)) => str_eq(a.as_str(), b.as_str()),
            (Topic::User(a), Topic::User(b)) => str_eq(a.as_str(), b.as_str()),
            (Topic::Server(a), Topic::Server(b)) => str_eq(a.as_str(), b.as_str()),
            _ => false,
        }
    }

    /// An exact copy of the topic.
    pub fn duplicate(&self) -> (r: Topic)
        ensures
            r == *self,
    {
        match self {
            Topic::Channel(id) => Topic::Channel(id.clone()),
            Topic::User(id) => Topic::User(id.clone()),
            Topic::Server(id) => Topic::Server(id.clone()),
        }
    }

    /// The id that the topic is made of.
    pub fn id(&self) -> (r: &str)
        ensures
            r@ == match self@ {
                TopicKey::Channel(id) => id,
                TopicKey::User(id) => id,
                TopicKey::Server(id) => id,
            },
    {
        match self {
            Topic::Channel(id) => id.as_str(),
            Topic::User(id) => id.as_str(),
            Topic::Server(id) => id.as_str(),
        }
    }
}

} // verus!

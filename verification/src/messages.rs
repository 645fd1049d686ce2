//! Messages: how they may be reacted to, and the messages that the system
//! writes itself.

use crate::ids::creation_time;
use crate::ids::new_id;
use crate::models::Interactions;
use crate::models::Message;
use crate::models::SystemMessage;
use crate::reactions::empty_reaction_map;
use crate::reactions::reaction_map_entries;
use crate::reactions::reaction_set_contains;
use crate::reactions::reaction_set_items;
use vstd::prelude::*;

verus! {

/// The author of the messages that the system writes.
pub open spec fn system_author() -> Seq<char> {
    "00000000000000000000000000"@
}

/// Whether `message` is the message that the system writes into `channel`
/// for `system`: by the system author, with nothing else set.
pub open spec fn is_system_message(message: Message, system: SystemMessage, channel: String) -> bool {
    &&& message.channel == channel
    &&& message.author@ == system_author()
    &&& message.system == Some(system)
    &&& message.nonce.is_none()
    &&& message.content.is_none()
    &&& message.attachments.is_none()
    &&& message.edited.is_none()
    &&& message.mentions.is_none()
    &&& message.replies.is_none()
    &&& reaction_map_entries(message.reactions).dom().is_empty()
    &&& message.interactions.reactions.is_none()
    &&& !message.interactions.restrict_reactions
    &&& message.masquerade.is_none()
}

impl Interactions {
    /// Whether the emoji may be used on a message with these interactions:
    /// any may where reactions are not restricted, else only those listed.
    pub open spec fn allows(self, emoji: Seq<char>) -> bool {
        !self.restrict_reactions || match self.reactions {
            Some(reactions) => reaction_set_items(reactions).contains(emoji),
            None => false,
        }
    }

    /// Whether the given emoji can be used to react.
    pub fn can_use(&self, emoji: &str) -> (r: bool)
        ensures
            r == self.allows(emoji@),
    {
        if self.restrict_reactions {
            if let Some(reactions) = &self.reactions {
                reaction_set_contains(reactions, emoji)
            } else {
                false
            }
        } else {
            true
        }
    }

    /// Whether nothing is set.
    pub fn is_default(&self) -> (r: bool)
        ensures
            r == (!self.restrict_reactions && self.reactions.is_none()),
    {
        !self.restrict_reactions && self.reactions.is_none()
    }
}

impl Default for Interactions {
    fn default() -> (r: Interactions)
        ensures
            r.reactions.is_none(),
            !r.restrict_reactions,
    {
        Interactions { reactions: None, restrict_reactions: false }
    }
}

impl SystemMessage {
    /// The message that the system writes into `channel` for this event,
    /// under the id given.
    pub fn into_message_with_id(self, id: String, channel: String) -> (r: Message)
        ensures
            r.id == id,
            is_system_message(r, self, channel),
    {
        Message {
            id,
            nonce: None,
            channel,
            author: "00000000000000000000000000".to_owned(),
            content: None,
            system: Some(self),
            attachments: None,
            edited: None,
            mentions: None,
            replies: None,
            reactions: empty_reaction_map(),
            interactions: Interactions::default(),
            masquerade: None,
        }
    }

    /// The message that the system writes into `channel` for this event,
    /// under a new id.
    pub fn into_message(self, channel: String) -> (r: Message)
        ensures
            r.id@.len() == 26,
            creation_time(r.id@).is_some(),
            is_system_message(r, self, channel),
    {
        self.into_message_with_id(new_id(), channel)
    }
}

} // verus!

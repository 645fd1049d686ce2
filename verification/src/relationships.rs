//! Changes to users and to the relationships between them: what each
//! request changes, and what is published for it.
//!
//! Storage is written by the caller. A function here says what to write, or
//! takes the outcome of the write and says what follows from it.

use crate::errors::Error;
use crate::events::topic_keys;
use crate::events::EventV1;
use crate::events::Publication;
use crate::ids::creation_time;
use crate::models::FieldsUser;
use crate::models::PartialUser;
use crate::models::RelationshipStatus;
use crate::models::User;
use crate::text::trim_text;
use crate::text::trimmed;
use crate::topics::TopicKey;
use crate::users::copy_optional_file;
use crate::users::copy_partial_user;
use crate::users::copy_status;
use crate::users::get_relationship;
use crate::users::relationship_between;
use vstd::prelude::*;

verus! {

/// The statuses that the two sides of a relationship are set to.
#[derive(Clone, Copy, Debug, PartialEq, Eq, Structural)]
pub struct RelationshipChange {
    /// What the one who asks has towards the other.
    pub local: RelationshipStatus,
    /// What the other has towards the one who asks.
    pub remote: RelationshipStatus,
}

/// What a friend request does, given how the one who asks stands to the
/// other: it accepts an incoming request, sends one to a stranger, and is
/// refused otherwise.
pub open spec fn friend_request(status: RelationshipStatus) -> Result<RelationshipChange, Error> {
    match status {
        RelationshipStatus::User => Err(Error::NoEffect),
        RelationshipStatus::Friend => Err(Error::AlreadyFriends),
        RelationshipStatus::Outgoing => Err(Error::AlreadySentRequest),
        RelationshipStatus::Blocked => Err(Error::Blocked),
        RelationshipStatus::BlockedOther => Err(Error::BlockedByOther),
        RelationshipStatus::Incoming => Ok(
            RelationshipChange {
                local: RelationshipStatus::Friend,
                remote: RelationshipStatus::Friend,
            },
        ),
        RelationshipStatus::Unrelated => Ok(
            RelationshipChange {
                local: RelationshipStatus::Outgoing,
                remote: RelationshipStatus::Incoming,
            },
        ),
    }
}

/// What removing a friend does: it ends a friendship or a pending request,
/// and has no effect otherwise.
pub open spec fn friend_removal(status: RelationshipStatus) -> Result<RelationshipChange, Error> {
    match status {
        RelationshipStatus::Friend | RelationshipStatus::Outgoing | RelationshipStatus::Incoming => Ok(
            RelationshipChange {
                local: RelationshipStatus::Unrelated,
                remote: RelationshipStatus::Unrelated,
            },
        ),
        _ => Err(Error::NoEffect),
    }
}

/// What blocking does: both sides are blocked where the other had blocked
/// already, else the other is marked as blocked by this user; it has no
/// effect on oneself or on a user already blocked.
pub open spec fn block(status: RelationshipStatus) -> Result<RelationshipChange, Error> {
    match status {
        RelationshipStatus::User | RelationshipStatus::Blocked => Err(Error::NoEffect),
        RelationshipStatus::BlockedOther => Ok(
            RelationshipChange {
                local: RelationshipStatus::Blocked,
                remote: RelationshipStatus::Blocked,
            },
        ),
        _ => Ok(
            RelationshipChange {
                local: RelationshipStatus::Blocked,
                remote: RelationshipStatus::BlockedOther,
            },
        ),
    }
}

/// What unblocking does, given how each side stands to the other: where
/// both had blocked, this user is left blocked by the other; where only
/// this user had, the two are strangers again; it has no effect where this
/// user had not blocked, and the two sides disagreeing is an internal error.
pub open spec fn unblock(status: RelationshipStatus, reverse: RelationshipStatus) -> Result<
    RelationshipChange,
    Error,
> {
    match status {
        RelationshipStatus::Blocked => match reverse {
            RelationshipStatus::Blocked => Ok(
                RelationshipChange {
                    local: RelationshipStatus::BlockedOther,
                    remote: RelationshipStatus::Blocked,
                },
            ),
            RelationshipStatus::BlockedOther => Ok(
                RelationshipChange {
                    local: RelationshipStatus::Unrelated,
                    remote: RelationshipStatus::Unrelated,
                },
            ),
            _ => Err(Error::InternalError),
        },
        _ => Err(Error::NoEffect),
    }
}

/// The fields that a deleted account loses.
pub open spec fn deleted_fields() -> Seq<FieldsUser> {
    seq![
        FieldsUser::Avatar,
        FieldsUser::StatusText,
        FieldsUser::StatusPresence,
        FieldsUser::ProfileContent,
        FieldsUser::ProfileBackground,
    ]
}

/// An update that sets nothing.
pub open spec fn is_empty_update(partial: PartialUser) -> bool {
    partial.username.is_none() && partial.avatar.is_none() && partial.badges.is_none()
        && partial.status.is_none() && partial.profile.is_none() && partial.flags.is_none()
        && partial.online.is_none()
}

impl User {
    /// The user with the fields that the update sets.
    pub open spec fn with_options(self, partial: PartialUser) -> User {
        User {
            username: match partial.username {
                Some(name) => name,
                None => self.username,
            },
            avatar: if partial.avatar.is_some() {
                partial.avatar
            } else {
                self.avatar
            },
            badges: if partial.badges.is_some() {
                partial.badges
            } else {
                self.badges
            },
            status: if partial.status.is_some() {
                partial.status
            } else {
                self.status
            },
            profile: if partial.profile.is_some() {
                partial.profile
            } else {
                self.profile
            },
            flags: if partial.flags.is_some() {
                partial.flags
            } else {
                self.flags
            },
            online: if partial.online.is_some() {
                partial.online
            } else {
                self.online
            },
            ..self
        }
    }

    /// The user with each of the fields cleared, one after the other.
    pub open spec fn without_all(self, fields: Seq<FieldsUser>) -> User
        decreases fields.len(),
    {
        if fields.len() == 0 {
            self
        } else {
            self.without_all(fields.drop_last()).without(fields.last())
        }
    }

    /// Sets the fields that the update sets.
    pub fn apply_options(&mut self, partial: PartialUser)
        ensures
            *final(self) == old(self).with_options(partial),
    {
        if let Some(name) = partial.username {
            self.username = name;
        }
        if partial.avatar.is_some() {
            self.avatar = partial.avatar;
        }
        if partial.badges.is_some() {
            self.badges = partial.badges;
        }
        if partial.status.is_some() {
            self.status = partial.status;
        }
        if partial.profile.is_some() {
            self.profile = partial.profile;
        }
        if partial.flags.is_some() {
            self.flags = partial.flags;
        }
        if partial.online.is_some() {
            self.online = partial.online;
        }
    }

    /// Changes the user: clears the fields of `remove`, then sets the fields
    /// of `partial`. Returns the event that tells of the change.
    pub fn update(&mut self, partial: PartialUser, remove: Vec<FieldsUser>) -> (r: EventV1)
        ensures
            *final(self) == old(self).without_all(remove@).with_options(partial),
            r == (EventV1::UserUpdate { id: old(self).id, data: partial, clear: remove }),
    {
        let mut i: usize = 0;
        proof {
            assert(remove@.take(0) =~= Seq::<FieldsUser>::empty());
        }
        while i < remove.len()
            invariant
                i <= remove@.len(),
                *self == old(self).without_all(remove@.take(i as int)),
            decreases remove@.len() - i,
        {
            proof {
                assert(remove@.take(i as int + 1).drop_last() =~= remove@.take(i as int));
                assert(remove@.take(i as int + 1).last() == remove@[i as int]);
            }
            self.remove(&remove[i]);
            i = i + 1;
        }
        proof {
            assert(remove@.take(i as int) =~= remove@);
            lemma_id_is_kept(*old(self), remove@, partial);
        }
        self.apply_options(copy_partial_user(&partial));
        EventV1::UserUpdate { id: self.id.clone(), data: partial, clear: remove }
    }

    /// Marks the account as deleted: the name becomes "Deleted User "
    /// followed by the id, the flags become 2, and avatar, status and
    /// profile are cleared. Returns the event that tells of the change.
    pub fn mark_deleted(&mut self) -> (r: EventV1)
        ensures
            r is UserUpdate,
            r->UserUpdate_id == old(self).id,
            r->UserUpdate_clear@ == deleted_fields(),
            r->UserUpdate_data.username.is_some(),
            r->UserUpdate_data.username.unwrap()@ == "Deleted User "@ + old(self).id@,
            r->UserUpdate_data.flags == Some(2i32),
            is_empty_update(
                PartialUser { username: None, flags: None, ..r->UserUpdate_data },
            ),
            *final(self) == old(self).without_all(deleted_fields()).with_options(r->UserUpdate_data),
    {
        let name = "Deleted User ".to_owned().concat(self.id.as_str());
        let partial = PartialUser {
            username: Some(name),
            avatar: None,
            badges: None,
            status: None,
            profile: None,
            flags: Some(2),
            online: None,
        };
        let mut remove: Vec<FieldsUser> = Vec::new();
        remove.push(FieldsUser::Avatar);
        remove.push(FieldsUser::StatusText);
        remove.push(FieldsUser::StatusPresence);
        remove.push(FieldsUser::ProfileContent);
        remove.push(FieldsUser::ProfileBackground);
        proof {
            assert(remove@ =~= deleted_fields());
        }
        self.update(partial, remove)
    }

    /// Changes the username to what is left of `username` when the white
    /// space around it is removed, unless that name is taken. Returns the
    /// event that tells of the change.
    pub fn update_username(&mut self, username: &str, taken: bool) -> (r: Result<EventV1, Error>)
        ensures
            match r {
                Err(e) => taken && e == Error::UsernameTaken && *final(self) == *old(self),
                Ok(event) => !taken && event is UserUpdate && event->UserUpdate_id == old(self).id
                    && event->UserUpdate_clear@.len() == 0 && event->UserUpdate_data.username.is_some()
                    && event->UserUpdate_data.username.unwrap()@ == trimmed(username@)
                    && is_empty_update(PartialUser { username: None, ..event->UserUpdate_data })
                    && *final(self) == old(self).with_options(event->UserUpdate_data),
            },
    {
        if taken {
            return Err(Error::UsernameTaken);
        }
        let name = trim_text(username).to_owned();
        let partial = PartialUser {
            username: Some(name),
            avatar: None,
            badges: None,
            status: None,
            profile: None,
            flags: None,
            online: None,
        };
        Ok(self.update(partial, Vec::new()))
    }

    /// What a username is checked and stored as: the text without the white
    /// space around it.
    pub fn normalise_username(username: &str) -> (r: String)
        ensures
            r@ == trimmed(username@),
    {
        trim_text(username).to_owned()
    }

    /// A copy of the user without profile and relations.
    pub fn outward_copy(&self) -> (r: User)
        ensures
            r == (User { profile: None, relations: None, ..*self }),
    {
        User {
            id: self.id.clone(),
            username: self.username.clone(),
            avatar: copy_optional_file(&self.avatar),
            relations: None,
            badges: self.badges,
            status: copy_status(&self.status),
            profile: None,
            flags: self.flags,
            privileged: self.privileged,
            bot: match &self.bot {
                Some(bot) => Some(crate::models::BotInformation { owner: bot.owner.clone() }),
                None => None,
            },
            relationship: self.relationship,
            online: self.online,
        }
    }

    /// What a friend request to `target` changes.
    pub fn add_friend(&self, target: &User) -> (r: Result<RelationshipChange, Error>)
        ensures
            r == friend_request(relationship_between(*self, target.id@)),
    {
        match get_relationship(self, target.id.as_str()) {
            RelationshipStatus::User => Err(Error::NoEffect),
            RelationshipStatus::Friend => Err(Error::AlreadyFriends),
            RelationshipStatus::Outgoing => Err(Error::AlreadySentRequest),
            RelationshipStatus::Blocked => Err(Error::Blocked),
            RelationshipStatus::BlockedOther => Err(Error::BlockedByOther),
            RelationshipStatus::Incoming => Ok(
                RelationshipChange {
                    local: RelationshipStatus::Friend,
                    remote: RelationshipStatus::Friend,
                },
            ),
            RelationshipStatus::Unrelated => Ok(
                RelationshipChange {
                    local: RelationshipStatus::Outgoing,
                    remote: RelationshipStatus::Incoming,
                },
            ),
        }
    }

    /// What removing `target` as a friend changes.
    pub fn remove_friend(&self, target: &User) -> (r: Result<RelationshipChange, Error>)
        ensures
            r == friend_removal(relationship_between(*self, target.id@)),
    {
        match get_relationship(self, target.id.as_str()) {
            RelationshipStatus::Friend | RelationshipStatus::Outgoing | RelationshipStatus::Incoming => Ok(
                RelationshipChange {
                    local: RelationshipStatus::Unrelated,
                    remote: RelationshipStatus::Unrelated,
                },
            ),
            _ => Err(Error::NoEffect),
        }
    }

    /// What blocking `target` changes.
    pub fn block_user(&self, target: &User) -> (r: Result<RelationshipChange, Error>)
        ensures
            r == block(relationship_between(*self, target.id@)),
    {
        match get_relationship(self, target.id.as_str()) {
            RelationshipStatus::User | RelationshipStatus::Blocked => Err(Error::NoEffect),
            RelationshipStatus::BlockedOther => Ok(
                RelationshipChange {
                    local: RelationshipStatus::Blocked,
                    remote: RelationshipStatus::Blocked,
                },
            ),
            _ => Ok(
                RelationshipChange {
                    local: RelationshipStatus::Blocked,
                    remote: RelationshipStatus::BlockedOther,
                },
            ),
        }
    }

    /// What unblocking `target` changes.
    pub fn unblock_user(&self, target: &User) -> (r: Result<RelationshipChange, Error>)
        ensures
            r == unblock(
                relationship_between(*self, target.id@),
                relationship_between(*target, self.id@),
            ),
    {
        match get_relationship(self, target.id.as_str()) {
            RelationshipStatus::Blocked => match get_relationship(target, self.id.as_str()) {
                RelationshipStatus::Blocked => Ok(
                    RelationshipChange {
                        local: RelationshipStatus::BlockedOther,
                        remote: RelationshipStatus::Blocked,
                    },
                ),
                RelationshipStatus::BlockedOther => Ok(
                    RelationshipChange {
                        local: RelationshipStatus::Unrelated,
                        remote: RelationshipStatus::Unrelated,
                    },
                ),
                _ => Err(Error::InternalError),
            },
            _ => Err(Error::NoEffect),
        }
    }

    /// What follows once the two sides of a relationship were written to
    /// storage. Where the write failed: a database error, and nothing
    /// changes. Where it succeeded: `target` is given the status `local` as
    /// its relationship, and two events are to be delivered, the first to
    /// `target` alone, showing this user with the status `remote`, the second
    /// to this user alone, showing `target` with the status `local`.
    pub fn apply_relationship(
        &self,
        target: &mut User,
        local: RelationshipStatus,
        remote: RelationshipStatus,
        stored: bool,
    ) -> (r: Result<Vec<Publication>, Error>)
        ensures
            match r {
                Err(e) => !stored && *final(target) == *old(target) && e is DatabaseError
                    && e->DatabaseError_operation@ == "update_one"@ && e->DatabaseError_with@
                    == "user"@,
                Ok(out) => stored && *final(target) == (User {
                    relationship: Some(local),
                    ..*old(target)
                }) && out@.len() == 2 && out@[0].event == (EventV1::UserRelationship {
                    id: old(target).id,
                    user: self.related_at(*old(target), creation_time(self.id@)),
                    status: remote,
                }) && topic_keys(out@[0].topics@) == seq![TopicKey::User(old(target).id@)]
                    && out@[1].event == (EventV1::UserRelationship {
                    id: self.id,
                    user: old(target).related_at(*self, creation_time(old(target).id@)),
                    status: local,
                }) && topic_keys(out@[1].topics@) == seq![TopicKey::User(self.id@)],
            },
    {
        if !stored {
            return Err(
                Error::DatabaseError { operation: "update_one".to_owned(), with: "user".to_owned() },
            );
        }
        let to_target = EventV1::UserRelationship {
            id: target.id.clone(),
            user: self.outward_copy().with_relationship(target),
            status: remote,
        }.private(target.id.clone());
        let to_self = EventV1::UserRelationship {
            id: self.id.clone(),
            user: target.outward_copy().with_relationship(self),
            status: local,
        }.private(self.id.clone());
        target.relationship = Some(local);
        let mut out: Vec<Publication> = Vec::new();
        out.push(to_target);
        out.push(to_self);
        Ok(out)
    }

    /// The account that a token belongs to, given what looking the token up
    /// as a user's and as a bot's gave: for the hint `User` the first, for
    /// `Bot` the second, and for `Any` the first where it was found, else
    /// the second.
    pub fn from_token(
        hint: crate::models::UserHint,
        as_user: Result<User, Error>,
        as_bot: Result<User, Error>,
    ) -> (r: Result<User, Error>)
        ensures
            r == match hint {
                crate::models::UserHint::Bot => as_bot,
                crate::models::UserHint::User => as_user,
                crate::models::UserHint::Any => if as_user.is_ok() {
                    as_user
                } else {
                    as_bot
                },
            },
    {
        match hint {
            crate::models::UserHint::Bot => as_bot,
            crate::models::UserHint::User => as_user,
            crate::models::UserHint::Any => match as_user {
                Ok(user) => Ok(user),
                Err(_) => as_bot,
            },
        }
    }
}

/// Who a request comes from, given what looking up its bot token gave, where
/// it carries one, and what looking up its session gave, where it has one.
/// A request with a bot token is the bot's or nobody's: the session is not
/// considered. A request from nobody is refused as having no valid session.
pub open spec fn requester(
    bot: Option<Result<User, Error>>,
    session: Option<Result<User, Error>>,
) -> Result<User, Error> {
    match bot {
        Some(found) => match found {
            Ok(user) => Ok(user),
            Err(_) => Err(Error::InvalidSession),
        },
        None => match session {
            Some(Ok(user)) => Ok(user),
            _ => Err(Error::InvalidSession),
        },
    }
}

impl User {
    /// The user that a request comes from.
    pub fn from_request(bot: Option<Result<User, Error>>, session: Option<Result<User, Error>>) -> (r:
        Result<User, Error>)
        ensures
            r == requester(bot, session),
    {
        match bot {
            Some(found) => match found {
                Ok(user) => Ok(user),
                Err(_) => Err(Error::InvalidSession),
            },
            None => match session {
                Some(Ok(user)) => Ok(user),
                _ => Err(Error::InvalidSession),
            },
        }
    }
}

/// Clearing fields and setting fields leave the id as it is.
proof fn lemma_id_is_kept(user: User, fields: Seq<FieldsUser>, partial: PartialUser)
    ensures
        user.without_all(fields).id == user.id,
        user.without_all(fields).with_options(partial).id == user.id,
    decreases fields.len(),
{
    if fields.len() > 0 {
        lemma_id_is_kept(user, fields.drop_last(), partial);
    }
}

} // verus!

//! The permission calculator: a context that holds what one resolution has
//! looked up so far, and the resolution that fills it from storage.
//!
//! A calculator is made for one question and thrown away after it. It
//! fetches an entity only where its slot is empty, keeps what it fetched, and
//! remembers the value it computed.

use crate::errors::Error;
use crate::models::Channel;
use crate::models::Member;
use crate::models::Server;
use crate::models::User;
use crate::permissions::PermissionValue;
use crate::permissions::Permissions;
use crate::permissions::Perms;
use crate::permissions::GRANT_ALL_SAFE;
use crate::resolution::channel_permission_of;
use crate::resolution::direct_message_permission;
use crate::resolution::group_permission;
use crate::resolution::server_permission;
use crate::resolution::server_permission_of;
use crate::text::str_eq;
use crate::users::calculate;
use crate::users::user_permission;
use crate::users::UserPerms;
use vstd::prelude::*;

verus! {

/// The storage that a resolution reads from. An entity that does not exist
/// is reported as `Error::NotFound`; any other error is a failure of the
/// storage itself.
pub trait AbstractDatabase {
    /// The user with the given id.
    fn fetch_user(&self, id: &str) -> Result<User, Error>;

    /// The server with the given id.
    fn fetch_server(&self, id: &str) -> Result<Server, Error>;

    /// The member record of `user` in `server`.
    fn fetch_member(&self, server: &str, user: &str) -> Result<Member, Error>;

    /// The channel with the given id.
    fn fetch_channel(&self, id: &str) -> Result<Channel, Error>;
}

/// One slot of a calculator's context: empty, or an entity that the caller
/// lent or that the calculator fetched.
pub enum Value<'a, T> {
    /// An entity that the calculator owns.
    Owned(T),
    /// An entity that the caller lent.
    Ref(&'a T),
    /// Nothing yet.
    Empty,
}

impl<'a, T> Value<'a, T> {
    /// What the slot holds.
    pub open spec fn value(self) -> Option<T> {
        match self {
            Value::Owned(t) => Some(t),
            Value::Ref(t) => Some(*t),
            Value::Empty => None,
        }
    }

    /// Whether the slot holds an entity, so that none needs to be fetched.
    pub fn has(&self) -> (r: bool)
        ensures
            r == self.value().is_some(),
    {
        match self {
            Value::Empty => false,
            _ => true,
        }
    }

    /// The entity held; `None` only where none was set.
    pub fn get(&self) -> (r: Option<&T>)
        ensures
            match r {
                Some(t) => self.value() == Some(*t),
                None => self.value().is_none(),
            },
    {
        match self {
            Value::Owned(t) => Some(t),
            Value::Ref(t) => Some(*t),
            Value::Empty => None,
        }
    }

    /// Stores an entity in the slot.
    pub fn set(&mut self, t: T)
        ensures
            final(self).value() == Some(t),
    {
        *self = Value::Owned(t);
    }
}

/// The context of one resolution: who asks, what is asked about, and what
/// was computed.
pub struct PermissionCalculator<'a> {
    /// The user who asks.
    pub perspective: &'a User,
    /// The user asked about, or the other recipient of a direct message.
    pub user: Value<'a, User>,
    /// The channel asked about.
    pub channel: Value<'a, Channel>,
    /// The server asked about, or the server of the channel.
    pub server: Value<'a, Server>,
    /// The member record of the one who asks.
    pub member: Value<'a, Member>,
    /// The user permission computed, once it has been.
    pub cached_user_permission: Option<u32>,
    /// The permission computed, once it has been.
    pub cached_permission: Option<u64>,
}

/// A calculator for what `perspective` may do, with nothing to ask about yet.
pub fn perms<'a>(perspective: &'a User) -> (r: PermissionCalculator<'a>)
    ensures
        *r.perspective == *perspective,
        r.user.value().is_none(),
        r.channel.value().is_none(),
        r.server.value().is_none(),
        r.member.value().is_none(),
        r.cached_user_permission.is_none(),
        r.cached_permission.is_none(),
{
    PermissionCalculator {
        perspective,
        user: Value::Empty,
        channel: Value::Empty,
        server: Value::Empty,
        member: Value::Empty,
        cached_user_permission: None,
        cached_permission: None,
    }
}

impl<'a> PermissionCalculator<'a> {
    /// A calculator for what `perspective` may do.
    pub fn new(perspective: &'a User) -> (r: PermissionCalculator<'a>)
        ensures
            *r.perspective == *perspective,
            r.user.value().is_none(),
            r.channel.value().is_none(),
            r.server.value().is_none(),
            r.member.value().is_none(),
            r.cached_user_permission.is_none(),
            r.cached_permission.is_none(),
    {
        perms(perspective)
    }

    /// The calculator with the user asked about.
    pub fn user(self, user: &'a User) -> (r: PermissionCalculator<'a>)
        ensures
            r.user.value() == Some(*user),
            r.perspective == self.perspective,
            r.channel == self.channel,
            r.server == self.server,
            r.member == self.member,
            r.cached_user_permission == self.cached_user_permission,
            r.cached_permission == self.cached_permission,
    {
        PermissionCalculator { user: Value::Ref(user), ..self }
    }

    /// The calculator with the channel asked about.
    pub fn channel(self, channel: &'a Channel) -> (r: PermissionCalculator<'a>)
        ensures
            r.channel.value() == Some(*channel),
            r.perspective == self.perspective,
            r.user == self.user,
            r.server == self.server,
            r.member == self.member,
            r.cached_user_permission == self.cached_user_permission,
            r.cached_permission == self.cached_permission,
    {
        PermissionCalculator { channel: Value::Ref(channel), ..self }
    }

    /// The calculator with the server asked about.
    pub fn server(self, server: &'a Server) -> (r: PermissionCalculator<'a>)
        ensures
            r.server.value() == Some(*server),
            r.perspective == self.perspective,
            r.user == self.user,
            r.channel == self.channel,
            r.member == self.member,
            r.cached_user_permission == self.cached_user_permission,
            r.cached_permission == self.cached_permission,
    {
        PermissionCalculator { server: Value::Ref(server), ..self }
    }

    /// The calculator with the member record of the one who asks.
    pub fn member(self, member: &'a Member) -> (r: PermissionCalculator<'a>)
        ensures
            r.member.value() == Some(*member),
            r.perspective == self.perspective,
            r.user == self.user,
            r.channel == self.channel,
            r.server == self.server,
            r.cached_user_permission == self.cached_user_permission,
            r.cached_permission == self.cached_permission,
    {
        PermissionCalculator { member: Value::Ref(member), ..self }
    }

    /// What the context says the answer is: everything for a privileged
    /// actor; else the channel's value where a channel is set, the server's
    /// where only a server is, and an internal error where neither is.
    pub open spec fn resolution(self) -> Result<u64, Error> {
        if self.perspective.privileged {
            Ok(GRANT_ALL_SAFE)
        } else {
            match self.channel.value() {
                Some(channel) => channel_permission_of(
                    *self.perspective,
                    channel,
                    self.server.value(),
                    self.member.value(),
                    self.user.value(),
                ),
                None => match self.server.value() {
                    Some(server) => Ok(
                        server_permission_of(*self.perspective, server, self.member.value()),
                    ),
                    None => Err(Error::InternalError),
                },
            }
        }
    }

    /// What the one who asks may do towards the user in the context.
    pub fn calc_user(&mut self) -> (r: UserPerms)
        requires
            old(self).user.value().is_some(),
        ensures
            r.mask() == user_permission(*old(self).perspective, old(self).user.value().unwrap().id@),
            final(self).cached_user_permission == Some(r.mask()),
            final(self).perspective == old(self).perspective,
            final(self).user == old(self).user,
            final(self).channel == old(self).channel,
            final(self).server == old(self).server,
            final(self).member == old(self).member,
            final(self).cached_permission == old(self).cached_permission,
    {
        let user = self.user.get().unwrap();
        let value = calculate(self.perspective, user.id.as_str());
        self.cached_user_permission = Some(value.0[0]);
        value
    }
}

/// Whether a channel belongs to a server.
pub open spec fn is_server_channel(channel: Channel) -> bool {
    channel is TextChannel || channel is VoiceChannel
}

/// The recipients of a direct message channel.
pub open spec fn direct_recipients(channel: Channel) -> Seq<String> {
    match channel {
        Channel::DirectMessage { recipients, .. } => recipients@,
        _ => Seq::empty(),
    }
}

/// Resolves the server in the context, fetching the member record of the one
/// who asks where the context has none and they are not the owner. A member
/// that storage reports as not found leaves the slot empty; any other failure
/// of the fetch ends the resolution with that error.
pub fn calculate_server_permission<D: AbstractDatabase>(
    data: &mut PermissionCalculator<'_>,
    db: &D,
) -> (r: Result<PermissionValue, Error>)
    requires
        old(data).server.value().is_some(),
    ensures
        final(data).perspective == old(data).perspective,
        final(data).user == old(data).user,
        final(data).channel == old(data).channel,
        final(data).server == old(data).server,
        final(data).cached_user_permission == old(data).cached_user_permission,
        final(data).cached_permission == old(data).cached_permission,
        old(data).member.value().is_some() || old(data).perspective.id@ == old(
            data,
        ).server.value().unwrap().owner@ ==> final(data).member == old(data).member && r.is_ok(),
        match r {
            Ok(v) => v.0 == server_permission_of(
                *old(data).perspective,
                old(data).server.value().unwrap(),
                final(data).member.value(),
            ),
            Err(e) => e != Error::NotFound && final(data).member == old(data).member,
        },
{
    let owner = match data.server.get() {
        Some(server) => str_eq(data.perspective.id.as_str(), server.owner.as_str()),
        None => false,
    };
    if owner {
        return Ok(PermissionValue(GRANT_ALL_SAFE));
    }
    if !data.member.has() {
        let fetched = match data.server.get() {
            Some(server) => db.fetch_member(server.id.as_str(), data.perspective.id.as_str()),
            None => Err(Error::InternalError),
        };
        match fetched {
            Ok(member) => {
                data.member.set(member);
            },
            Err(e) => {
                if !e.is_not_found() {
                    return Err(e);
                }
            },
        }
    }
    match data.server.get() {
        Some(server) => Ok(server_permission(data.perspective, server, data.member.get())),
        None => Err(Error::InternalError),
    }
}

/// Resolves the channel in the context. For a channel of a server it
/// fetches the server where the context has none, and resolves the server
/// first. For a direct message it fetches the other recipient and stores
/// them as the context's user. Any failure of a fetch ends the resolution
/// with that error, except that a member reported as not found counts as
/// absent.
pub fn calculate_channel_permission<D: AbstractDatabase>(
    data: &mut PermissionCalculator<'_>,
    db: &D,
) -> (r: Result<PermissionValue, Error>)
    requires
        old(data).channel.value().is_some(),
    ensures
        final(data).perspective == old(data).perspective,
        final(data).channel == old(data).channel,
        final(data).cached_user_permission == old(data).cached_user_permission
            || old(data).channel.value().unwrap() is DirectMessage,
        final(data).cached_permission == old(data).cached_permission,
        old(data).server.value().is_some() || !is_server_channel(old(data).channel.value().unwrap())
            ==> final(data).server == old(data).server,
        old(data).member.value().is_some() || !is_server_channel(old(data).channel.value().unwrap())
            ==> final(data).member == old(data).member,
        !(old(data).channel.value().unwrap() is DirectMessage) ==> final(data).user == old(data).user,
        r.is_ok() ==> Ok::<u64, Error>(r.unwrap().0) == channel_permission_of(
            *old(data).perspective,
            old(data).channel.value().unwrap(),
            final(data).server.value(),
            final(data).member.value(),
            final(data).user.value(),
        ),
        old(data).channel.value().unwrap() is SavedMessages || old(data).channel.value().unwrap() is Group
            ==> r.is_ok(),
        is_server_channel(old(data).channel.value().unwrap()) && old(data).server.value().is_some() && (
        old(data).member.value().is_some() || old(data).perspective.id@ == old(
            data,
        ).server.value().unwrap().owner@) ==> r.is_ok() && final(data).member == old(data).member,
        old(data).channel.value().unwrap() is DirectMessage && crate::resolution::other_recipient(
            direct_recipients(old(data).channel.value().unwrap()),
            old(data).perspective.id@,
        ).is_none() ==> r == Err::<PermissionValue, Error>(Error::InternalError) && final(data).user
            == old(data).user,
{
    let needs_server = match data.channel.get() {
        Some(Channel::TextChannel { .. }) | Some(Channel::VoiceChannel { .. }) => true,
        _ => false,
    };
    let mut permissions = PermissionValue(0);
    if needs_server {
        if !data.server.has() {
            let fetched = match data.channel.get() {
                Some(Channel::TextChannel { server, .. }) | Some(Channel::VoiceChannel { server, .. }) => {
                    db.fetch_server(server.as_str())
                },
                _ => Err(Error::InternalError),
            };
            match fetched {
                Ok(server) => {
                    data.server.set(server);
                },
                Err(e) => {
                    return Err(e);
                },
            }
        }
        match calculate_server_permission(data, db) {
            Ok(value) => {
                permissions = value;
            },
            Err(e) => {
                return Err(e);
            },
        }
    }
    let other = match data.channel.get() {
        Some(Channel::DirectMessage { recipients, .. }) => {
            match crate::resolution::find_other_recipient(recipients, data.perspective.id.as_str()) {
                Some(k) => match db.fetch_user(recipients[k].as_str()) {
                    Ok(user) => Some(user),
                    Err(e) => {
                        return Err(e);
                    },
                },
                None => {
                    return Err(Error::InternalError);
                },
            }
        },
        _ => None,
    };
    if let Some(user) = other {
        data.user.set(user);
    }
    match data.channel.get() {
        Some(Channel::SavedMessages { .. }) => Ok(
            PermissionValue(crate::permissions::DEFAULT_PERMISSION_SAVED_MESSAGES),
        ),
        Some(Channel::DirectMessage { .. }) => match data.user.get() {
            Some(user) => Ok(direct_message_permission(data.perspective, user)),
            None => Err(Error::InternalError),
        },
        Some(Channel::Group { owner, permissions, recipients, .. }) => Ok(
            group_permission(data.perspective, owner.as_str(), recipients, *permissions),
        ),
        Some(Channel::TextChannel { default_permissions, role_permissions, .. })
        | Some(Channel::VoiceChannel { default_permissions, role_permissions, .. }) => {
            match data.server.get() {
                Some(server) => {
                    if str_eq(data.perspective.id.as_str(), server.owner.as_str()) {
                        Ok(PermissionValue(GRANT_ALL_SAFE))
                    } else {
                        match data.member.get() {
                            Some(member) => Ok(
                                crate::resolution::apply_channel_overrides(
                                    permissions,
                                    server,
                                    member,
                                    default_permissions,
                                    role_permissions,
                                ),
                            ),
                            None => Ok(PermissionValue(GRANT_ALL_SAFE)),
                        }
                    }
                },
                None => Err(Error::InternalError),
            }
        },
        None => Err(Error::InternalError),
    }
}

impl<'a> PermissionCalculator<'a> {
    /// Whether the context holds all that its question needs, so that the
    /// resolution reads nothing from storage.
    pub open spec fn is_complete(self) -> bool {
        self.perspective.privileged || match self.channel.value() {
            Some(channel) => channel is SavedMessages || channel is Group || (is_server_channel(
                channel,
            ) && self.server.value().is_some() && (self.member.value().is_some()
                || self.perspective.id@ == self.server.value().unwrap().owner@)),
            None => self.server.value().is_some() && (self.member.value().is_some()
                || self.perspective.id@ == self.server.value().unwrap().owner@),
        }
    }

    /// What the one who asks may do in the channel of the context or, where
    /// the context has no channel, in its server.
    ///
    /// A privileged actor may do everything, and nothing is fetched for
    /// them. Otherwise the entities that the question needs and the context
    /// lacks are fetched and kept, and the value is what `resolution` says of
    /// the context as it then is; the value is remembered in the context. A
    /// context with neither a channel nor a server is an internal error.
    pub fn calc<D: AbstractDatabase>(&mut self, db: &D) -> (r: Result<Perms, Error>)
        ensures
            final(self).perspective == old(self).perspective,
            final(self).channel == old(self).channel,
            old(self).perspective.privileged ==> r.is_ok() && *final(self) == *old(self),
            old(self).server.value().is_some() ==> final(self).server == old(self).server,
            old(self).member.value().is_some() ==> final(self).member == old(self).member,
            old(self).is_complete() ==> r.is_ok() && final(self).server == old(self).server
                && final(self).member == old(self).member && final(self).user == old(self).user,
            match r {
                Ok(p) => Ok::<u64, Error>(p.mask()) == final(self).resolution() && (
                old(self).perspective.privileged || final(self).cached_permission == Some(p.mask())),
                Err(e) => final(self).cached_permission == old(self).cached_permission,
            },
            old(self).channel.value().is_none() && old(self).server.value().is_none() && !old(
                self,
            ).perspective.privileged ==> r == Err::<Perms, Error>(Error::InternalError),
    {
        if self.perspective.privileged {
            return Ok(Permissions([GRANT_ALL_SAFE]));
        }
        let value = if self.channel.has() {
            match calculate_channel_permission(self, db) {
                Ok(v) => v,
                Err(e) => {
                    return Err(e);
                },
            }
        } else if self.server.has() {
            match calculate_server_permission(self, db) {
                Ok(v) => v,
                Err(e) => {
                    return Err(e);
                },
            }
        } else {
            return Err(Error::InternalError);
        };
        self.cached_permission = Some(value.0);
        Ok(Permissions([value.0]))
    }
}

/// An entity that a resolution needs from storage.
#[derive(Clone, Debug, PartialEq, Eq)]
pub enum Lookup {
    /// The server with the given id.
    Server { id: String },
    /// The member record of `user` in `server`.
    Member { server: String, user: String },
    /// The user with the given id.
    User { id: String },
}

/// A lookup as a value.
pub enum LookupKey {
    Server { id: Seq<char> },
    Member { server: Seq<char>, user: Seq<char> },
    User { id: Seq<char> },
}

impl View for Lookup {
    type V = LookupKey;

    open spec fn view(&self) -> LookupKey {
        match self {
            Lookup::Server { id } => LookupKey::Server { id: id@ },
            Lookup::Member { server, user } => LookupKey::Member { server: server@, user: user@ },
            Lookup::User { id } => LookupKey::User { id: id@ },
        }
    }
}

/// The key of a lookup that may be there.
pub open spec fn lookup_key(lookup: Option<Lookup>) -> Option<LookupKey> {
    match lookup {
        Some(l) => Some(l@),
        None => None,
    }
}

impl<'a> PermissionCalculator<'a> {
    /// The member record that the context lacks: that of the one who asks
    /// in the context's server, unless they own the server, the record is
    /// there, or it is known to be absent.
    pub open spec fn member_wanted(self, member_absent: bool) -> Option<LookupKey> {
        match self.server.value() {
            Some(server) => if self.perspective.id@ != server.owner@ && self.member.value().is_none()
                && !member_absent {
                Some(LookupKey::Member { server: server.id@, user: self.perspective.id@ })
            } else {
                None
            },
            None => None,
        }
    }

    /// What the resolution needs from storage next, given whether the
    /// member record is known to be absent: for a channel of a server the
    /// server, then the member record; for a direct message the other
    /// recipient, unless the context's user is that recipient; for a server
    /// the member record; nothing for a privileged actor and for the other
    /// kinds of channel.
    pub open spec fn wanted(self, member_absent: bool) -> Option<LookupKey> {
        if self.perspective.privileged {
            None
        } else {
            match self.channel.value() {
                Some(Channel::TextChannel { server, .. }) | Some(Channel::VoiceChannel { server, .. }) => {
                    if self.server.value().is_none() {
                        Some(LookupKey::Server { id: server@ })
                    } else {
                        self.member_wanted(member_absent)
                    }
                },
                Some(Channel::DirectMessage { recipients, .. }) => match crate::resolution::other_recipient(
                    recipients@,
                    self.perspective.id@,
                ) {
                    Some(k) => if self.user.value().is_some() && self.user.value().unwrap().id@
                        == recipients@[k]@ {
                        None
                    } else {
                        Some(LookupKey::User { id: recipients@[k]@ })
                    },
                    None => None,
                },
                Some(_) => None,
                None => self.member_wanted(member_absent),
            }
        }
    }

    /// The member record that the context lacks.
    fn next_member(&self, member_absent: bool) -> (r: Option<Lookup>)
        ensures
            lookup_key(r) == self.member_wanted(member_absent),
    {
        match self.server.get() {
            Some(server) => {
                if !str_eq(self.perspective.id.as_str(), server.owner.as_str()) && !self.member.has()
                    && !member_absent {
                    Some(
                        Lookup::Member { server: server.id.clone(), user: self.perspective.id.clone() },
                    )
                } else {
                    None
                }
            },
            None => None,
        }
    }

    /// What to read from storage next, for a caller that does the reading
    /// itself and puts what it read into the context; `None` when `resolve`
    /// can be called. `member_absent` says that the member record was
    /// looked up and does not exist.
    pub fn next_lookup(&self, member_absent: bool) -> (r: Option<Lookup>)
        ensures
            lookup_key(r) == self.wanted(member_absent),
    {
        if self.perspective.privileged {
            return None;
        }
        match self.channel.get() {
            Some(Channel::TextChannel { server, .. }) | Some(Channel::VoiceChannel { server, .. }) => {
                if !self.server.has() {
                    Some(Lookup::Server { id: server.clone() })
                } else {
                    self.next_member(member_absent)
                }
            },
            Some(Channel::DirectMessage { recipients, .. }) => {
                match crate::resolution::find_other_recipient(recipients, self.perspective.id.as_str()) {
                    Some(k) => {
                        let known = match self.user.get() {
                            Some(user) => str_eq(user.id.as_str(), recipients[k].as_str()),
                            None => false,
                        };
                        if known {
                            None
                        } else {
                            Some(Lookup::User { id: recipients[k].clone() })
                        }
                    },
                    None => None,
                }
            },
            Some(_) => None,
            None => self.next_member(member_absent),
        }
    }

    /// Resolves from what the context holds, reading nothing: the value
    /// that `resolution` gives, which is remembered in the context, or its
    /// error, which leaves the context as it is.
    pub fn resolve(&mut self) -> (r: Result<Perms, Error>)
        ensures
            match r {
                Ok(p) => old(self).resolution() == Ok::<u64, Error>(p.mask()),
                Err(e) => old(self).resolution() == Err::<u64, Error>(e),
            },
            final(self).perspective == old(self).perspective,
            final(self).user == old(self).user,
            final(self).channel == old(self).channel,
            final(self).server == old(self).server,
            final(self).member == old(self).member,
            final(self).cached_user_permission == old(self).cached_user_permission,
            final(self).cached_permission == match r {
                Ok(p) => if old(self).perspective.privileged {
                    old(self).cached_permission
                } else {
                    Some(p.mask())
                },
                Err(_) => old(self).cached_permission,
            },
    {
        if self.perspective.privileged {
            return Ok(Permissions([GRANT_ALL_SAFE]));
        }
        let value = match self.channel.get() {
            Some(channel) => crate::resolution::channel_permission(
                self.perspective,
                channel,
                self.server.get(),
                self.member.get(),
                self.user.get(),
            ),
            None => match self.server.get() {
                Some(server) => Ok(server_permission(self.perspective, server, self.member.get())),
                None => Err(Error::InternalError),
            },
        };
        match value {
            Ok(v) => {
                self.cached_permission = Some(v.0);
                Ok(Permissions([v.0]))
            },
            Err(e) => Err(e),
        }
    }
}

/// Asked about a server by its owner, a context resolves to everything,
/// whatever the server's default permissions and roles are and whatever else
/// the context holds.
pub proof fn lemma_owner_resolves_to_everything(context: PermissionCalculator)
    requires
        context.channel.value().is_none(),
        context.server.value().is_some(),
        context.perspective.id@ == context.server.value().unwrap().owner@,
    ensures
        context.resolution() == Ok::<u64, Error>(GRANT_ALL_SAFE),
{
}

} // verus!

//! Users as others see them: relationships, user-to-user permissions, and
//! the fields that are withheld from other users.

use crate::ids::created_at;
use crate::ids::creation_time;
use crate::models::Badges;
use crate::models::FieldsUser;
use crate::models::File;
use crate::models::PartialUser;
use crate::models::Presence;
use crate::models::Relationship;
use crate::models::RelationshipStatus;
use crate::models::User;
use crate::models::UserProfile;
use crate::models::UserStatus;
use crate::text::str_eq;
use vstd::prelude::*;

verus! {

/// Accounts made before this time, in milliseconds since the Unix epoch, are
/// early adopters.
pub const EARLY_ADOPTER_CUTOFF: u64 = 1629638578431;

/// A capability of one user towards another.
#[derive(Clone, Copy, Debug, PartialEq, Eq, Structural)]
pub enum UserPermission {
    Access,
    SendMessage,
    Invite,
    ViewProfile,
}

impl UserPermission {
    /// The mask of the capability.
    pub open spec fn spec_value(self) -> u32 {
        match self {
            UserPermission::Access => 1,
            UserPermission::SendMessage => 2,
            UserPermission::Invite => 4,
            UserPermission::ViewProfile => 8,
        }
    }

    /// The mask of the capability.
    #[verifier::when_used_as_spec(spec_value)]
    pub fn value(self) -> (r: u32)
        ensures
            r == self.spec_value(),
    {
        match self {
            UserPermission::Access => 1,
            UserPermission::SendMessage => 2,
            UserPermission::Invite => 4,
            UserPermission::ViewProfile => 8,
        }
    }
}

/// What one user may do towards another.
#[derive(Clone, Copy, Debug, PartialEq, Eq)]
pub struct UserPermissions(pub [u32; 1]);

/// The result of resolving one user's permission towards another.
pub type UserPerms = UserPermissions;

impl UserPermissions {
    /// The mask held.
    pub open spec fn mask(self) -> u32 {
        self.0[0]
    }

    /// Whether the other user can be reached at all.
    pub fn get_access(&self) -> (r: bool)
        ensures
            r == (self.mask() & 1 == 1),
    {
        (self.0[0] & 1) == 1
    }

    /// Whether messages may be sent to the other user.
    pub fn get_send_message(&self) -> (r: bool)
        ensures
            r == (self.mask() & 2 == 2),
    {
        (self.0[0] & 2) == 2
    }

    /// Whether the other user may be invited.
    pub fn get_invite(&self) -> (r: bool)
        ensures
            r == (self.mask() & 4 == 4),
    {
        (self.0[0] & 4) == 4
    }

    /// Whether the other user's status may be seen.
    pub fn get_view_profile(&self) -> (r: bool)
        ensures
            r == (self.mask() & 8 == 8),
    {
        (self.0[0] & 8) == 8
    }
}

/// The status of the first entry of `relations` that names `target`, or
/// `Unrelated` where none does.
pub open spec fn status_in(relations: Seq<Relationship>, target: Seq<char>) -> RelationshipStatus
    decreases relations.len(),
{
    if relations.len() == 0 {
        RelationshipStatus::Unrelated
    } else if relations[0].id@ == target {
        relations[0].status
    } else {
        status_in(relations.drop_first(), target)
    }
}

/// How `a` stands to the user with id `b`: a friend of themselves, else as
/// `a`'s relations say.
pub open spec fn relationship_between(a: User, b: Seq<char>) -> RelationshipStatus {
    if a.id@ == b {
        RelationshipStatus::Friend
    } else {
        match a.relations {
            Some(relations) => status_in(relations@, b),
            None => RelationshipStatus::Unrelated,
        }
    }
}

/// How `a` stands to the user with id `b`.
pub fn get_relationship(a: &User, b: &str) -> (r: RelationshipStatus)
    ensures
        r == relationship_between(*a, b@),
{
    if str_eq(a.id.as_str(), b) {
        return RelationshipStatus::Friend;
    }
    if let Some(relations) = &a.relations {
        let mut i: usize = 0;
        proof {
            assert(relations@.skip(0) =~= relations@);
        }
        while i < relations.len()
            invariant
                a.id@ != b@,
                a.relations == Some(*relations),
                i <= relations@.len(),
                status_in(relations@, b@) == status_in(relations@.skip(i as int), b@),
            decreases relations@.len() - i,
        {
            proof {
                assert(relations@.skip(i as int).drop_first() =~= relations@.skip(i as int + 1));
                assert(relations@.skip(i as int)[0] == relations@[i as int]);
            }
            if str_eq(relations[i].id.as_str(), b) {
                proof {
                    assert(status_in(relations@.skip(i as int), b@) == relations@[i as int].status);
                }
                return relations[i].status;
            }
            i = i + 1;
        }
        proof {
            assert(relations@.skip(i as int).len() == 0);
        }
    }
    RelationshipStatus::Unrelated
}

/// The mask that `user` has towards `target`: access, messages and invites
/// for a friend, nothing for anyone else.
pub open spec fn user_permission(user: User, target: Seq<char>) -> u32 {
    if relationship_between(user, target) == RelationshipStatus::Friend {
        7
    } else {
        0
    }
}

/// What `user` may do towards the user with id `target`.
pub fn calculate(user: &User, target: &str) -> (r: UserPermissions)
    ensures
        r.mask() == user_permission(*user, target@),
{
    match get_relationship(user, target) {
        RelationshipStatus::Friend => {
            let access: u32 = UserPermission::Access.value();
            let send: u32 = UserPermission::SendMessage.value();
            let invite: u32 = UserPermission::Invite.value();
            assert(1u32 | 2u32 | 4u32 == 7u32) by (bit_vector);
            UserPermissions([access | send | invite])
        },
        _ => UserPermissions([0]),
    }
}

/// An exact copy of a file record.
pub fn copy_file(file: &File) -> (r: File)
    ensures
        r == *file,
{
    File { id: file.id.clone(), tag: file.tag.clone(), filename: file.filename.clone() }
}

/// An exact copy of an optional text.
pub fn copy_text(text: &Option<String>) -> (r: Option<String>)
    ensures
        r == *text,
{
    match text {
        Some(t) => Some(t.clone()),
        None => None,
    }
}

/// An exact copy of an optional file record.
pub fn copy_optional_file(file: &Option<File>) -> (r: Option<File>)
    ensures
        r == *file,
{
    match file {
        Some(f) => Some(copy_file(f)),
        None => None,
    }
}

/// An exact copy of an optional status.
pub fn copy_status(status: &Option<UserStatus>) -> (r: Option<UserStatus>)
    ensures
        r == *status,
{
    match status {
        Some(s) => Some(UserStatus { text: copy_text(&s.text), presence: s.presence }),
        None => None,
    }
}

/// An exact copy of an optional profile.
pub fn copy_profile(profile: &Option<UserProfile>) -> (r: Option<UserProfile>)
    ensures
        r == *profile,
{
    match profile {
        Some(p) => Some(
            UserProfile { content: copy_text(&p.content), background: copy_optional_file(&p.background) },
        ),
        None => None,
    }
}

/// An exact copy of the fields of an update.
pub fn copy_partial_user(partial: &PartialUser) -> (r: PartialUser)
    ensures
        r == *partial,
{
    PartialUser {
        username: copy_text(&partial.username),
        avatar: copy_optional_file(&partial.avatar),
        badges: partial.badges,
        status: copy_status(&partial.status),
        profile: copy_profile(&partial.profile),
        flags: partial.flags,
        online: partial.online,
    }
}

/// The badge mask that others see: the user's own, with the early adopter
/// badge where the account was made before the cutoff.
pub open spec fn shown_badges(badges: Option<i32>, created: Option<u64>) -> i32 {
    let own = match badges {
        Some(b) => b,
        None => 0i32,
    };
    match created {
        Some(t) => if t < EARLY_ADOPTER_CUTOFF {
            own | 256i32
        } else {
            own
        },
        None => own,
    }
}

/// Whether a status says that the user wants to be seen as offline.
pub open spec fn is_invisible(status: Option<UserStatus>) -> bool {
    match status {
        Some(s) => s.presence == Some(Presence::Invisible),
        None => false,
    }
}

impl User {
    /// The user with one field cleared.
    pub open spec fn without(self, field: FieldsUser) -> User {
        match field {
            FieldsUser::Avatar => User { avatar: None, ..self },
            FieldsUser::StatusText => match self.status {
                Some(s) => User { status: Some(UserStatus { text: None, ..s }), ..self },
                None => self,
            },
            FieldsUser::StatusPresence => match self.status {
                Some(s) => User { status: Some(UserStatus { presence: None, ..s }), ..self },
                None => self,
            },
            FieldsUser::ProfileContent => match self.profile {
                Some(p) => User { profile: Some(UserProfile { content: None, ..p }), ..self },
                None => self,
            },
            FieldsUser::ProfileBackground => match self.profile {
                Some(p) => User { profile: Some(UserProfile { background: None, ..p }), ..self },
                None => self,
            },
        }
    }

    /// The user as others see them, given the creation time that the id
    /// carries: without profile and relations, with the badges shown to
    /// others, and offline without a status where they chose to be invisible.
    pub open spec fn foreign_at(self, created: Option<u64>) -> User {
        let shown = User {
            profile: None,
            relations: None,
            badges: Some(shown_badges(self.badges, created)),
            ..self
        };
        if is_invisible(self.status) {
            User { status: None, online: Some(false), ..shown }
        } else {
            shown
        }
    }

    /// The user as `perspective` sees them: as others do, and with the
    /// relationship filled in where none was set.
    pub open spec fn related_at(self, perspective: User, created: Option<u64>) -> User {
        let user = self.foreign_at(created);
        match user.relationship {
            Some(_) => user,
            None => User {
                relationship: Some(relationship_between(perspective, user.id@)),
                ..user
            },
        }
    }

    /// The user with the status withheld unless the permission shows it.
    pub open spec fn permitted(self, permission: UserPermissions) -> User {
        if permission.mask() & 8 == 8 {
            self
        } else {
            User { status: None, ..self }
        }
    }

    /// Clears one field.
    pub fn remove(&mut self, field: &FieldsUser)
        ensures
            *final(self) == old(self).without(*field),
    {
        match field {
            FieldsUser::Avatar => {
                self.avatar = None;
            },
            FieldsUser::StatusText => {
                if let Some(x) = self.status.take() {
                    self.status = Some(UserStatus { text: None, presence: x.presence });
                }
            },
            FieldsUser::StatusPresence => {
                if let Some(x) = self.status.take() {
                    self.status = Some(UserStatus { text: x.text, presence: None });
                }
            },
            FieldsUser::ProfileContent => {
                if let Some(x) = self.profile.take() {
                    self.profile = Some(UserProfile { content: None, background: x.background });
                }
            },
            FieldsUser::ProfileBackground => {
                if let Some(x) = self.profile.take() {
                    self.profile = Some(UserProfile { content: x.content, background: None });
                }
            },
        }
    }

    /// The user as others see them, for a creation time already read from
    /// the id.
    pub fn foreign_created(self, created: Option<u64>) -> (r: User)
        ensures
            r == self.foreign_at(created),
    {
        let mut user = self;
        user.profile = None;
        user.relations = None;
        let mut badges: i32 = match user.badges {
            Some(b) => b,
            None => 0,
        };
        if let Some(t) = created {
            if t < EARLY_ADOPTER_CUTOFF {
                badges = badges | Badges::EarlyAdopter.value();
            }
        }
        user.badges = Some(badges);
        let invisible = match &user.status {
            Some(status) => match status.presence {
                Some(Presence::Invisible) => true,
                _ => false,
            },
            None => false,
        };
        if invisible {
            user.status = None;
            user.online = Some(false);
        }
        user
    }

    /// The user as others see them.
    pub fn foreign(self) -> (r: User)
        ensures
            r == self.foreign_at(creation_time(self.id@)),
    {
        let created = created_at(self.id.as_str());
        self.foreign_created(created)
    }

    /// The user as `perspective` sees them, with the relationship filled in
    /// where none is set.
    #[must_use]
    pub fn with_relationship(self, perspective: &User) -> (r: User)
        ensures
            r == self.related_at(*perspective, creation_time(self.id@)),
    {
        let mut user = self.foreign();
        if user.relationship.is_none() {
            user.relationship = Some(get_relationship(perspective, user.id.as_str()));
        }
        user
    }

    /// Withholds the status unless the permission shows it.
    #[must_use]
    pub fn apply_permission(self, permission: &UserPerms) -> (r: User)
        ensures
            r == self.permitted(*permission),
    {
        let mut user = self;
        if !permission.get_view_profile() {
            user.status = None;
        }
        user
    }

    /// The user as `perspective` sees them under the given permission.
    #[must_use]
    pub fn with_perspective(self, perspective: &User, permission: &UserPerms) -> (r: User)
        ensures
            r == self.related_at(*perspective, creation_time(self.id@)).permitted(*permission),
    {
        self.with_relationship(perspective).apply_permission(permission)
    }

    /// The user as `perspective` sees them under the permission that
    /// `perspective` has towards them.
    pub fn with_auto_perspective(self, perspective: &User) -> (r: User)
        ensures
            r == self.related_at(*perspective, creation_time(self.id@)).permitted(
                UserPermissions([user_permission(*perspective, self.id@)]),
            ),
    {
        let user = self.with_relationship(perspective);
        let permissions = calculate(perspective, user.id.as_str());
        assert(permissions.0 =~= [user_permission(*perspective, self.id@)]);
        user.apply_permission(&permissions)
    }

    /// Whether this user has blocked the other, or was blocked by them.
    pub fn has_blocked(&self, user: &str) -> (r: bool)
        ensures
            r == (relationship_between(*self, user@) == RelationshipStatus::Blocked
                || relationship_between(*self, user@) == RelationshipStatus::BlockedOther),
    {
        match get_relationship(self, user) {
            RelationshipStatus::Blocked | RelationshipStatus::BlockedOther => true,
            _ => false,
        }
    }

    /// Whether two users share a server or a group, given the ids of the
    /// servers and of the channels that they share.
    pub fn has_mutual_connection(mutual_servers: &Vec<String>, mutual_channels: &Vec<String>) -> (r:
        bool)
        ensures
            r == (mutual_servers@.len() > 0 || mutual_channels@.len() > 0),
    {
        mutual_servers.len() > 0 || mutual_channels.len() > 0
    }

    /// Whether a user who is in `server_count` servers may join another.
    pub fn can_acquire_server(server_count: usize) -> (r: bool)
        ensures
            r == (server_count <= 100),
    {
        server_count <= 100
    }
}

} // verus!

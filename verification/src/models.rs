//! The entities that permissions are resolved over and that events carry.

use crate::permissions::Override;
use indexmap::IndexMap;
use indexmap::IndexSet;
use vstd::prelude::*;

verus! {

/// A stored file, such as an avatar.
#[derive(Clone, Debug, PartialEq, Eq)]
pub struct File {
    /// Unique id.
    pub id: String,
    /// Bucket the file was uploaded to.
    pub tag: String,
    /// Name of the file as uploaded.
    pub filename: String,
}

/// How one user stands to another.
#[derive(Clone, Copy, Debug, PartialEq, Eq, Structural)]
pub enum RelationshipStatus {
    /// No relationship.
    Unrelated,
    /// The user themselves.
    User,
    Friend,
    Outgoing,
    Incoming,
    Blocked,
    BlockedOther,
}

/// One entry of a user's relations.
#[derive(Clone, Debug, PartialEq, Eq)]
pub struct Relationship {
    /// The other user.
    pub id: String,
    /// How this user stands to them.
    pub status: RelationshipStatus,
}

/// What a user shows of their availability.
#[derive(Clone, Copy, Debug, PartialEq, Eq, Structural)]
pub enum Presence {
    Online,
    Idle,
    Busy,
    Invisible,
}

/// A user's status line and presence.
#[derive(Clone, Debug, PartialEq, Eq)]
pub struct UserStatus {
    /// Custom status text.
    pub text: Option<String>,
    /// Current presence.
    pub presence: Option<Presence>,
}

/// A user's profile.
#[derive(Clone, Debug, PartialEq, Eq)]
pub struct UserProfile {
    /// Text on the profile.
    pub content: Option<String>,
    /// Background shown on the profile.
    pub background: Option<File>,
}

/// Marks shown on a user.
#[derive(Clone, Copy, Debug, PartialEq, Eq, Structural)]
pub enum Badges {
    Developer,
    Translator,
    Supporter,
    ResponsibleDisclosure,
    Founder,
    PlatformModeration,
    ActiveSupporter,
    Paw,
    EarlyAdopter,
    ReservedRelevantJokeBadge1,
}

impl Badges {
    /// The bit of the badge in a user's badge mask.
    pub open spec fn spec_value(self) -> i32 {
        match self {
            Badges::Developer => 1,
            Badges::Translator => 2,
            Badges::Supporter => 4,
            Badges::ResponsibleDisclosure => 8,
            Badges::Founder => 16,
            Badges::PlatformModeration => 32,
            Badges::ActiveSupporter => 64,
            Badges::Paw => 128,
            Badges::EarlyAdopter => 256,
            Badges::ReservedRelevantJokeBadge1 => 512,
        }
    }

    /// The bit of the badge in a user's badge mask.
    #[verifier::when_used_as_spec(spec_value)]
    pub fn value(self) -> (r: i32)
        ensures
            r == self.spec_value(),
    {
        match self {
            Badges::Developer => 1,
            Badges::Translator => 2,
            Badges::Supporter => 4,
            Badges::ResponsibleDisclosure => 8,
            Badges::Founder => 16,
            Badges::PlatformModeration => 32,
            Badges::ActiveSupporter => 64,
            Badges::Paw => 128,
            Badges::EarlyAdopter => 256,
            Badges::ReservedRelevantJokeBadge1 => 512,
        }
    }
}

/// A field of a user that can be cleared.
#[derive(Clone, Copy, Debug, PartialEq, Eq, Structural)]
pub enum FieldsUser {
    Avatar,
    StatusText,
    StatusPresence,
    ProfileContent,
    ProfileBackground,
}

/// Which kind of account a token is expected to belong to.
#[derive(Clone, Copy, Debug, PartialEq, Eq, Structural)]
pub enum UserHint {
    Any,
    Bot,
    User,
}

/// What marks a user as a bot.
#[derive(Clone, Debug, PartialEq, Eq)]
pub struct BotInformation {
    /// The user who owns the bot.
    pub owner: String,
}

/// A user.
#[derive(Clone, Debug, PartialEq, Eq)]
pub struct User {
    /// Unique id.
    pub id: String,
    /// Username.
    pub username: String,
    /// Avatar.
    pub avatar: Option<File>,
    /// How this user stands to others.
    pub relations: Option<Vec<Relationship>>,
    /// Mask of badges.
    pub badges: Option<i32>,
    /// Status line and presence.
    pub status: Option<UserStatus>,
    /// Profile.
    pub profile: Option<UserProfile>,
    /// Mask of account flags.
    pub flags: Option<i32>,
    /// Whether the user is a platform-level privileged actor.
    pub privileged: bool,
    /// Set where the user is a bot.
    pub bot: Option<BotInformation>,
    /// How the one looking at this user stands to them.
    pub relationship: Option<RelationshipStatus>,
    /// Whether the user is online.
    pub online: Option<bool>,
}

/// The fields of a user that an update sets; `None` leaves a field as it is.
#[derive(Clone, Debug, PartialEq, Eq)]
pub struct PartialUser {
    pub username: Option<String>,
    pub avatar: Option<File>,
    pub badges: Option<i32>,
    pub status: Option<UserStatus>,
    pub profile: Option<UserProfile>,
    pub flags: Option<i32>,
    pub online: Option<bool>,
}

/// The identity of a member: a server and a user.
#[derive(Clone, Debug, PartialEq, Eq)]
pub struct MemberCompositeKey {
    /// The server.
    pub server: String,
    /// The user.
    pub user: String,
}

/// A user's membership of a server.
#[derive(Clone, Debug, PartialEq, Eq)]
pub struct Member {
    /// Server and user.
    pub id: MemberCompositeKey,
    /// Nickname in the server.
    pub nickname: Option<String>,
    /// Avatar in the server.
    pub avatar: Option<File>,
    /// Ids of the roles held.
    pub roles: Option<Vec<String>>,
}

/// A field of a member that can be cleared.
#[derive(Clone, Copy, Debug, PartialEq, Eq, Structural)]
pub enum FieldsMember {
    Nickname,
    Avatar,
}

/// The fields of a member that an update sets.
#[derive(Clone, Debug, PartialEq, Eq)]
pub struct PartialMember {
    pub nickname: Option<String>,
    pub avatar: Option<File>,
    pub roles: Option<Vec<String>>,
}

/// A role of a server.
#[derive(Clone, Debug, PartialEq, Eq)]
pub struct Role {
    /// Unique id within the server.
    pub id: String,
    /// Name.
    pub name: String,
    /// What the role allows and denies.
    pub permissions: Override,
    /// Place in the order of application: the role of lowest rank is applied
    /// last.
    pub rank: i64,
}

/// A server.
#[derive(Clone, Debug, PartialEq, Eq)]
pub struct Server {
    /// Unique id.
    pub id: String,
    /// The user who owns the server.
    pub owner: String,
    /// Name.
    pub name: String,
    /// What every member has before roles are applied.
    pub default_permissions: u64,
    /// The roles, one for each id.
    pub roles: Vec<Role>,
}

/// What a channel allows and denies to the holders of one role.
#[derive(Clone, Debug, PartialEq, Eq)]
pub struct RoleOverride {
    /// The role's id.
    pub role: String,
    /// What the channel changes for it.
    pub permissions: Override,
}

/// A channel.
#[derive(Clone, Debug, PartialEq, Eq)]
pub enum Channel {
    /// One user's notes to themselves.
    SavedMessages { id: String, user: String },
    /// A conversation between two users.
    DirectMessage { id: String, active: bool, recipients: Vec<String> },
    /// A conversation among the users in `recipients`.
    Group {
        id: String,
        name: String,
        owner: String,
        description: Option<String>,
        recipients: Vec<String>,
        permissions: Option<u64>,
    },
    /// A text channel of a server.
    TextChannel {
        id: String,
        server: String,
        name: String,
        default_permissions: Option<Override>,
        role_permissions: Vec<RoleOverride>,
    },
    /// A voice channel of a server.
    VoiceChannel {
        id: String,
        server: String,
        name: String,
        default_permissions: Option<Override>,
        role_permissions: Vec<RoleOverride>,
    },
}

/// A name or an avatar that a message is shown under.
#[derive(Clone, Debug, PartialEq, Eq)]
pub struct Masquerade {
    /// Name shown in place of the author's.
    pub name: Option<String>,
    /// Avatar shown in place of the author's.
    pub avatar: Option<String>,
    /// Colour shown in place of the author's role colour.
    pub colour: Option<String>,
}

/// How a message may be reacted to.
#[derive(Clone, Debug, PartialEq, Eq)]
pub struct Interactions {
    /// Reactions that are always shown.
    pub reactions: Option<IndexSet<String>>,
    /// Whether only the reactions listed may be used.
    pub restrict_reactions: bool,
}

/// An event that the system itself writes into a channel.
#[derive(Clone, Debug, PartialEq, Eq)]
pub enum SystemMessage {
    Text { content: String },
    UserAdded { id: String, by: String },
    UserRemove { id: String, by: String },
    UserJoined { id: String },
    UserLeft { id: String },
    UserKicked { id: String },
    UserBanned { id: String },
    ChannelRenamed { name: String, by: String },
    ChannelDescriptionChanged { by: String },
    ChannelIconChanged { by: String },
    ChannelOwnershipChanged { from: String, to: String },
}

/// A message.
#[derive(Clone, Debug, PartialEq, Eq)]
pub struct Message {
    /// Unique id.
    pub id: String,
    /// Value that the sending client made up.
    pub nonce: Option<String>,
    /// Channel the message was sent in.
    pub channel: String,
    /// User or webhook that sent the message.
    pub author: String,
    /// Text of the message.
    pub content: Option<String>,
    /// Set where the system wrote the message.
    pub system: Option<SystemMessage>,
    /// Attached files.
    pub attachments: Option<Vec<File>>,
    /// When the message was last edited.
    pub edited: Option<String>,
    /// Users mentioned.
    pub mentions: Option<Vec<String>>,
    /// Messages replied to.
    pub replies: Option<Vec<String>>,
    /// Emoji, each with the users who reacted with it.
    pub reactions: IndexMap<String, IndexSet<String>>,
    /// How the message may be reacted to.
    pub interactions: Interactions,
    /// Name or avatar that the message is shown under.
    pub masquerade: Option<Masquerade>,
}

/// An invite into a server, by way of one of its channels.
#[derive(Clone, Debug, PartialEq, Eq)]
pub struct ServerInvite {
    /// The code that is handed out.
    pub code: String,
    /// The user who made the invite.
    pub creator: String,
    /// The channel it leads to.
    pub channel: String,
}

/// A search for users by name.
#[derive(Clone, Debug, PartialEq, Eq)]
pub struct LookupQuery {
    /// The exact username searched for.
    pub username: String,
}

} // verus!

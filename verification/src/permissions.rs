//! Permission values, overrides and the capability bits they are made of.
//!
//! A permission value is a set of capabilities held as a 64-bit mask. An
//! override changes a value: it clears the bits it denies, then sets the bits
//! it allows.

use vstd::prelude::*;

verus! {

/// Server-level capability: manage the channel.
pub const MANAGE_CHANNEL: u64 = 0x1;
/// Server-level capability: manage the server.
pub const MANAGE_SERVER: u64 = 0x2;
/// Server-level capability: manage permissions.
pub const MANAGE_PERMISSIONS: u64 = 0x4;
/// Server-level capability: manage roles.
pub const MANAGE_ROLE: u64 = 0x8;
/// Server-level capability: manage emoji and other customisation.
pub const MANAGE_CUSTOMISATION: u64 = 0x10;
/// Server-level capability: kick members.
pub const KICK_MEMBERS: u64 = 0x40;
/// Server-level capability: ban members.
pub const BAN_MEMBERS: u64 = 0x80;
/// Server-level capability: time members out.
pub const TIMEOUT_MEMBERS: u64 = 0x100;
/// Server-level capability: assign roles.
pub const ASSIGN_ROLES: u64 = 0x200;
/// Server-level capability: change one's own nickname.
pub const CHANGE_NICKNAME: u64 = 0x400;
/// Server-level capability: change the nicknames of others.
pub const MANAGE_NICKNAMES: u64 = 0x800;
/// Server-level capability: change one's own avatar.
pub const CHANGE_AVATAR: u64 = 0x1000;
/// Server-level capability: remove the avatars of others.
pub const REMOVE_AVATARS: u64 = 0x2000;
/// Channel-level capability: see the channel.
pub const VIEW_CHANNEL: u64 = 0x10_0000;
/// Channel-level capability: read earlier messages.
pub const READ_MESSAGE_HISTORY: u64 = 0x20_0000;
/// Channel-level capability: send messages.
pub const SEND_MESSAGE: u64 = 0x40_0000;
/// Channel-level capability: delete the messages of others.
pub const MANAGE_MESSAGES: u64 = 0x80_0000;
/// Channel-level capability: manage webhooks.
pub const MANAGE_WEBHOOKS: u64 = 0x100_0000;
/// Channel-level capability: invite others.
pub const INVITE_OTHERS: u64 = 0x200_0000;
/// Channel-level capability: send embedded content.
pub const SEND_EMBEDS: u64 = 0x400_0000;
/// Channel-level capability: upload files.
pub const UPLOAD_FILES: u64 = 0x800_0000;
/// Channel-level capability: send under another name or avatar.
pub const MASQUERADE: u64 = 0x1000_0000;
/// Channel-level capability: react to messages.
pub const REACT: u64 = 0x2000_0000;
/// Channel-level capability: connect to a voice channel.
pub const CONNECT: u64 = 0x4000_0000;
/// Channel-level capability: speak in a voice channel.
pub const SPEAK: u64 = 0x8000_0000;
/// Channel-level capability: share video.
pub const VIDEO: u64 = 0x1_0000_0000;
/// Channel-level capability: mute members.
pub const MUTE_MEMBERS: u64 = 0x2_0000_0000;
/// Channel-level capability: deafen members.
pub const DEAFEN_MEMBERS: u64 = 0x4_0000_0000;
/// Channel-level capability: move members between voice channels.
pub const MOVE_MEMBERS: u64 = 0x8_0000_0000;
/// Every capability that can be granted safely: the value of owners and of
/// privileged actors.
pub const GRANT_ALL_SAFE: u64 = 0x000F_FFFF_FFFF_FFFF;

/// What a channel is worth to someone who may only look at it.
pub const DEFAULT_PERMISSION_VIEW_ONLY: u64 = 0x30_0000;
/// What a member has where nothing else is said.
pub const DEFAULT_PERMISSION: u64 = 0xCE70_0000;
/// The value of one's own saved messages.
pub const DEFAULT_PERMISSION_SAVED_MESSAGES: u64 = 0x000F_FFFF_FFFF_FFFF;
/// The value of a direct message channel, and of a group that sets none.
pub const DEFAULT_PERMISSION_DIRECT_MESSAGE: u64 = 0xEE70_0001;
/// What a new server grants its members.
pub const DEFAULT_PERMISSION_SERVER: u64 = 0xEE70_1400;

/// A capability, by name.
#[derive(Clone, Copy, Debug, PartialEq, Eq, Structural)]
pub enum Permission {
    ManageChannel,
    ManageServer,
    ManagePermissions,
    ManageRole,
    ManageCustomisation,
    KickMembers,
    BanMembers,
    TimeoutMembers,
    AssignRoles,
    ChangeNickname,
    ManageNicknames,
    ChangeAvatar,
    RemoveAvatars,
    ViewChannel,
    ReadMessageHistory,
    SendMessage,
    ManageMessages,
    ManageWebhooks,
    InviteOthers,
    SendEmbeds,
    UploadFiles,
    Masquerade,
    React,
    Connect,
    Speak,
    Video,
    MuteMembers,
    DeafenMembers,
    MoveMembers,
    GrantAllSafe,
}

impl Permission {
    /// The mask of this capability.
    pub open spec fn spec_value(self) -> u64 {
        match self {
            Permission::ManageChannel => MANAGE_CHANNEL,
            Permission::ManageServer => MANAGE_SERVER,
            Permission::ManagePermissions => MANAGE_PERMISSIONS,
            Permission::ManageRole => MANAGE_ROLE,
            Permission::ManageCustomisation => MANAGE_CUSTOMISATION,
            Permission::KickMembers => KICK_MEMBERS,
            Permission::BanMembers => BAN_MEMBERS,
            Permission::TimeoutMembers => TIMEOUT_MEMBERS,
            Permission::AssignRoles => ASSIGN_ROLES,
            Permission::ChangeNickname => CHANGE_NICKNAME,
            Permission::ManageNicknames => MANAGE_NICKNAMES,
            Permission::ChangeAvatar => CHANGE_AVATAR,
            Permission::RemoveAvatars => REMOVE_AVATARS,
            Permission::ViewChannel => VIEW_CHANNEL,
            Permission::ReadMessageHistory => READ_MESSAGE_HISTORY,
            Permission::SendMessage => SEND_MESSAGE,
            Permission::ManageMessages => MANAGE_MESSAGES,
            Permission::ManageWebhooks => MANAGE_WEBHOOKS,
            Permission::InviteOthers => INVITE_OTHERS,
            Permission::SendEmbeds => SEND_EMBEDS,
            Permission::UploadFiles => UPLOAD_FILES,
            Permission::Masquerade => MASQUERADE,
            Permission::React => REACT,
            Permission::Connect => CONNECT,
            Permission::Speak => SPEAK,
            Permission::Video => VIDEO,
            Permission::MuteMembers => MUTE_MEMBERS,
            Permission::DeafenMembers => DEAFEN_MEMBERS,
            Permission::MoveMembers => MOVE_MEMBERS,
            Permission::GrantAllSafe => GRANT_ALL_SAFE,
        }
    }

    /// The mask of this capability.
    #[verifier::when_used_as_spec(spec_value)]
    pub fn value(self) -> (r: u64)
        ensures
            r == self.spec_value(),
    {
        match self {
            Permission::ManageChannel => MANAGE_CHANNEL,
            Permission::ManageServer => MANAGE_SERVER,
            Permission::ManagePermissions => MANAGE_PERMISSIONS,
            Permission::ManageRole => MANAGE_ROLE,
            Permission::ManageCustomisation => MANAGE_CUSTOMISATION,
            Permission::KickMembers => KICK_MEMBERS,
            Permission::BanMembers => BAN_MEMBERS,
            Permission::TimeoutMembers => TIMEOUT_MEMBERS,
            Permission::AssignRoles => ASSIGN_ROLES,
            Permission::ChangeNickname => CHANGE_NICKNAME,
            Permission::ManageNicknames => MANAGE_NICKNAMES,
            Permission::ChangeAvatar => CHANGE_AVATAR,
            Permission::RemoveAvatars => REMOVE_AVATARS,
            Permission::ViewChannel => VIEW_CHANNEL,
            Permission::ReadMessageHistory => READ_MESSAGE_HISTORY,
            Permission::SendMessage => SEND_MESSAGE,
            Permission::ManageMessages => MANAGE_MESSAGES,
            Permission::ManageWebhooks => MANAGE_WEBHOOKS,
            Permission::InviteOthers => INVITE_OTHERS,
            Permission::SendEmbeds => SEND_EMBEDS,
            Permission::UploadFiles => UPLOAD_FILES,
            Permission::Masquerade => MASQUERADE,
            Permission::React => REACT,
            Permission::Connect => CONNECT,
            Permission::Speak => SPEAK,
            Permission::Video => VIDEO,
            Permission::MuteMembers => MUTE_MEMBERS,
            Permission::DeafenMembers => DEAFEN_MEMBERS,
            Permission::MoveMembers => MOVE_MEMBERS,
            Permission::GrantAllSafe => GRANT_ALL_SAFE,
        }
    }
}

/// Whether bit `i` of `v` is set.
pub open spec fn bit_set(v: u64, i: u64) -> bool {
    (v >> i) & 1 == 1
}

/// The value that has every bit of `a` and every bit of `b`.
pub open spec fn combined(a: u64, b: u64) -> u64 {
    a | b
}

/// The value left when `deny` is cleared from `base` and `allow` is then set.
pub open spec fn overridden(base: u64, allow: u64, deny: u64) -> u64 {
    (base & !deny) | allow
}

/// An allow mask and a deny mask, applied together to a permission value.
#[derive(Clone, Copy, Debug, PartialEq, Eq, Structural)]
pub struct Override {
    /// Bits that the override sets.
    pub allow: u64,
    /// Bits that the override clears, unless it also sets them.
    pub deny: u64,
}

impl Override {
    /// The bits that the override sets.
    pub fn allows(&self) -> (r: u64)
        ensures
            r == self.allow,
    {
        self.allow
    }

    /// The bits that the override clears.
    pub fn denies(&self) -> (r: u64)
        ensures
            r == self.deny,
    {
        self.deny
    }
}

/// A set of capabilities, one bit each.
#[derive(Clone, Copy, Debug, PartialEq, Eq, Structural)]
pub struct PermissionValue(pub u64);

impl PermissionValue {
    /// This value after `v` is applied to it.
    pub open spec fn applied(self, v: Override) -> PermissionValue {
        PermissionValue(overridden(self.0, v.allow, v.deny))
    }

    /// The value that holds what either of the two holds.
    pub fn combine(a: PermissionValue, b: PermissionValue) -> (r: PermissionValue)
        ensures
            r.0 == combined(a.0, b.0),
    {
        PermissionValue(a.0 | b.0)
    }

    /// Applies an override: clears what it denies, then sets what it allows.
    pub fn apply(&mut self, v: Override)
        ensures
            *final(self) == old(self).applied(v),
    {
        self.0 = (self.0 & !v.deny) | v.allow;
    }

    /// Whether every bit of `bits` is granted.
    pub fn has(&self, bits: u64) -> (r: bool)
        ensures
            r == (self.0 & bits == bits),
    {
        (self.0 & bits) == bits
    }

    /// The mask itself.
    pub fn bits(&self) -> (r: u64)
        ensures
            r == self.0,
    {
        self.0
    }
}

/// The value that has every bit of `a` and every bit of `b`; for putting
/// constants together, not for resolving overrides.
pub fn combine(a: PermissionValue, b: PermissionValue) -> (r: PermissionValue)
    ensures
        r.0 == combined(a.0, b.0),
{
    PermissionValue::combine(a, b)
}

/// `base` with `ov` applied to it.
pub fn apply(base: PermissionValue, ov: Override) -> (r: PermissionValue)
    ensures
        r == base.applied(ov),
{
    let mut value = base;
    value.apply(ov);
    value
}

/// A resolved permission value with one reader for each capability that
/// callers ask about.
#[derive(Clone, Copy, Debug, PartialEq, Eq)]
pub struct Permissions(pub [u64; 1]);

/// The result of a resolution.
pub type Perms = Permissions;

impl Permissions {
    /// The mask held.
    pub open spec fn mask(self) -> u64 {
        self.0[0]
    }

    /// Wraps a mask.
    pub fn new(value: u64) -> (r: Permissions)
        ensures
            r.mask() == value,
    {
        Permissions([value])
    }

    /// The mask held.
    pub fn value(&self) -> (r: u64)
        ensures
            r == self.mask(),
    {
        self.0[0]
    }

    /// Whether the capability is granted.
    pub fn can(&self, permission: Permission) -> (r: bool)
        ensures
            r == (self.mask() & permission.spec_value() == permission.spec_value()),
    {
        let bits = permission.value();
        (self.0[0] & bits) == bits
    }

    /// Whether the channel is visible.
    pub fn get_view(&self) -> (r: bool)
        ensures
            r == (self.mask() & VIEW_CHANNEL == VIEW_CHANNEL),
    {
        (self.0[0] & VIEW_CHANNEL) == VIEW_CHANNEL
    }

    /// Whether messages may be sent.
    pub fn get_send_message(&self) -> (r: bool)
        ensures
            r == (self.mask() & SEND_MESSAGE == SEND_MESSAGE),
    {
        (self.0[0] & SEND_MESSAGE) == SEND_MESSAGE
    }

    /// Whether others may be invited.
    pub fn get_invite_others(&self) -> (r: bool)
        ensures
            r == (self.mask() & INVITE_OTHERS == INVITE_OTHERS),
    {
        (self.0[0] & INVITE_OTHERS) == INVITE_OTHERS
    }

    /// Whether the server may be managed.
    pub fn get_manage_server(&self) -> (r: bool)
        ensures
            r == (self.mask() & MANAGE_SERVER == MANAGE_SERVER),
    {
        (self.0[0] & MANAGE_SERVER) == MANAGE_SERVER
    }
}

/// The defaults are the capabilities they are named after, put together.
pub proof fn lemma_defaults_are_combinations()
    ensures
        DEFAULT_PERMISSION_VIEW_ONLY == combined(VIEW_CHANNEL, READ_MESSAGE_HISTORY),
        DEFAULT_PERMISSION == combined(
            DEFAULT_PERMISSION_VIEW_ONLY,
            combined(
                SEND_MESSAGE,
                combined(INVITE_OTHERS, combined(SEND_EMBEDS, combined(UPLOAD_FILES, combined(CONNECT, SPEAK)))),
            ),
        ),
        DEFAULT_PERMISSION_SAVED_MESSAGES == GRANT_ALL_SAFE,
        DEFAULT_PERMISSION_DIRECT_MESSAGE == combined(DEFAULT_PERMISSION, combined(MANAGE_CHANNEL, REACT)),
        DEFAULT_PERMISSION_SERVER == combined(
            DEFAULT_PERMISSION,
            combined(REACT, combined(CHANGE_NICKNAME, CHANGE_AVATAR)),
        ),
        DEFAULT_PERMISSION_VIEW_ONLY & SEND_MESSAGE == 0,
        DEFAULT_PERMISSION_DIRECT_MESSAGE & SEND_MESSAGE == SEND_MESSAGE,
{
    assert(0x30_0000u64 == 0x10_0000u64 | 0x20_0000u64) by (bit_vector);
    assert(0xCE70_0000u64 == 0x30_0000u64 | (0x40_0000u64 | (0x200_0000u64 | (0x400_0000u64 | (
    0x800_0000u64 | (0x4000_0000u64 | 0x8000_0000u64)))))) by (bit_vector);
    assert(0xEE70_0001u64 == 0xCE70_0000u64 | (0x1u64 | 0x2000_0000u64)) by (bit_vector);
    assert(0xEE70_1400u64 == 0xCE70_0000u64 | (0x2000_0000u64 | (0x400u64 | 0x1000u64)))
        by (bit_vector);
    assert(0x30_0000u64 & 0x40_0000u64 == 0) by (bit_vector);
    assert(0xEE70_0001u64 & 0x40_0000u64 == 0x40_0000u64) by (bit_vector);
}

/// Of two overrides applied one after the other, the second decides every bit
/// that it touches: a bit that it allows ends set, and a bit that it denies
/// and does not allow ends clear, whatever the first did and whatever the
/// value was before.
pub proof fn lemma_later_override_dominates(base: PermissionValue, o1: Override, o2: Override, i: u64)
    requires
        i < 64,
    ensures
        bit_set(o2.allow, i) ==> bit_set(base.applied(o1).applied(o2).0, i),
        bit_set(o2.deny, i) && !bit_set(o2.allow, i) ==> !bit_set(
            base.applied(o1).applied(o2).0,
            i,
        ),
        !bit_set(o2.deny, i) && !bit_set(o2.allow, i) ==> (bit_set(
            base.applied(o1).applied(o2).0,
            i,
        ) <==> bit_set(base.applied(o1).0, i)),
{
    let b = base.0;
    let a1 = o1.allow;
    let d1 = o1.deny;
    let a2 = o2.allow;
    let d2 = o2.deny;
    assert(i < 64 ==> (((a2 >> i) & 1 == 1) ==> ((((((b & !d1) | a1) & !d2) | a2) >> i) & 1 == 1)))
        by (bit_vector);
    assert(i < 64 ==> (((d2 >> i) & 1 == 1) && !((a2 >> i) & 1 == 1) ==> !((((((b & !d1) | a1)
        & !d2) | a2) >> i) & 1 == 1))) by (bit_vector);
    assert(i < 64 ==> (!((d2 >> i) & 1 == 1) && !((a2 >> i) & 1 == 1) ==> (((((((b & !d1) | a1)
        & !d2) | a2) >> i) & 1 == 1) <==> ((((b & !d1) | a1) >> i) & 1 == 1)))) by (bit_vector);
}

/// What one override does to one bit: an allowed bit ends set, a bit denied
/// and not allowed ends clear, and any other bit stays as it was.
pub proof fn lemma_override_bit(base: u64, allow: u64, deny: u64, i: u64)
    requires
        i < 64,
    ensures
        bit_set(overridden(base, allow, deny), i) == (bit_set(allow, i) || (bit_set(base, i)
            && !bit_set(deny, i))),
{
    assert(i < 64 ==> (((((base & !deny) | allow) >> i) & 1 == 1) == (((allow >> i) & 1 == 1) || (((
    base >> i) & 1 == 1) && !((deny >> i) & 1 == 1))))) by (bit_vector);
}

} // verus!

//! What a user may do in a server or a channel, as a function of the
//! entities involved.
//!
//! A server gives its members a default value, to which the roles that a
//! member holds are applied in application order. A channel of a server
//! starts from the server's value and applies its own default override and
//! its overrides for the member's roles. The other kinds of channel have
//! fixed values.

use crate::errors::Error;
use crate::models::Channel;
use crate::models::Member;
use crate::models::Role;
use crate::models::RoleOverride;
use crate::models::Server;
use crate::models::User;
use crate::permissions::overridden;
use crate::permissions::PermissionValue;
use crate::permissions::DEFAULT_PERMISSION_DIRECT_MESSAGE;
use crate::permissions::DEFAULT_PERMISSION_SAVED_MESSAGES;
use crate::permissions::DEFAULT_PERMISSION_VIEW_ONLY;
use crate::permissions::GRANT_ALL_SAFE;
use crate::roles::apply_in_order;
use crate::roles::ranked_views;
use crate::roles::resolved;
use crate::roles::Ranked;
use crate::roles::RankedOverride;
use crate::text::contains_str;
use crate::text::str_eq;
use crate::users::calculate;
use crate::users::user_permission;
use vstd::prelude::*;

verus! {

/// Whether `id` is among the texts of `items`.
pub open spec fn has_text(items: Seq<String>, id: Seq<char>) -> bool {
    exists|k: int| 0 <= k < items.len() && (#[trigger] items[k])@ == id
}

/// Whether the member holds the role with the given id.
pub open spec fn holds_role(member: Member, id: Seq<char>) -> bool {
    match member.roles {
        Some(roles) => has_text(roles@, id),
        None => false,
    }
}

/// The first of `roles` that has the given id.
pub open spec fn role_with_id(roles: Seq<Role>, id: Seq<char>) -> Option<Role>
    decreases roles.len(),
{
    if roles.len() == 0 {
        None
    } else if roles[0].id@ == id {
        Some(roles[0])
    } else {
        role_with_id(roles.drop_first(), id)
    }
}

/// The overrides of the server's roles that the member holds, in the order
/// in which the server lists them.
pub open spec fn server_entries(roles: Seq<Role>, member: Member) -> Seq<Ranked>
    decreases roles.len(),
{
    if roles.len() == 0 {
        Seq::empty()
    } else {
        let rest = server_entries(roles.drop_last(), member);
        let role = roles.last();
        if holds_role(member, role.id@) {
            rest.push(Ranked { rank: role.rank, id: role.id@, permissions: role.permissions })
        } else {
            rest
        }
    }
}

/// The channel's overrides for the roles that the member holds and that the
/// server has, each with the rank that the server gives the role, in the
/// order in which the channel lists them.
pub open spec fn channel_entries(
    overrides: Seq<RoleOverride>,
    roles: Seq<Role>,
    member: Member,
) -> Seq<Ranked>
    decreases overrides.len(),
{
    if overrides.len() == 0 {
        Seq::empty()
    } else {
        let rest = channel_entries(overrides.drop_last(), roles, member);
        let entry = overrides.last();
        if holds_role(member, entry.role@) {
            match role_with_id(roles, entry.role@) {
                Some(role) => rest.push(
                    Ranked { rank: role.rank, id: entry.role@, permissions: entry.permissions },
                ),
                None => rest,
            }
        } else {
            rest
        }
    }
}

/// What `perspective` may do in the server: everything for the owner, the
/// server's default for someone who is no member, and for a member the
/// default with the overrides of their roles applied in application order.
pub open spec fn server_permission_of(perspective: User, server: Server, member: Option<Member>) -> u64 {
    if perspective.id@ == server.owner@ {
        GRANT_ALL_SAFE
    } else {
        match member {
            Some(m) => resolved(server.default_permissions, server_entries(server.roles@, m)),
            None => server.default_permissions,
        }
    }
}

/// The value of a direct message channel for `perspective` when `other` is
/// the other recipient: the full value where `perspective` may send them
/// messages, the view-only value where not.
pub open spec fn direct_message_permission_of(perspective: User, other: User) -> u64 {
    if user_permission(perspective, other.id@) & 2 == 2 {
        DEFAULT_PERMISSION_DIRECT_MESSAGE
    } else {
        DEFAULT_PERMISSION_VIEW_ONLY
    }
}

/// The value of a group for `perspective`.
pub open spec fn group_permission_of(
    perspective: User,
    owner: Seq<char>,
    recipients: Seq<String>,
    permissions: Option<u64>,
) -> u64 {
    if perspective.id@ == owner {
        GRANT_ALL_SAFE
    } else if has_text(recipients, perspective.id@) {
        match permissions {
            Some(p) => p,
            None => DEFAULT_PERMISSION_DIRECT_MESSAGE,
        }
    } else {
        0
    }
}

/// The value of a channel of `server` for `perspective`: everything for the
/// server's owner and where no member record exists; for a member the
/// server's value with the channel's default override and then the channel's
/// role overrides applied.
pub open spec fn server_channel_permission_of(
    perspective: User,
    server: Server,
    member: Option<Member>,
    default_permissions: Option<crate::permissions::Override>,
    role_permissions: Seq<RoleOverride>,
) -> u64 {
    if perspective.id@ == server.owner@ {
        GRANT_ALL_SAFE
    } else {
        match member {
            None => GRANT_ALL_SAFE,
            Some(m) => channel_overrides_on(
                server_permission_of(perspective, server, Some(m)),
                server,
                m,
                default_permissions,
                role_permissions,
            ),
        }
    }
}

/// What `perspective` may do in the channel, given the channel's server and
/// the member record of `perspective` in it where the channel belongs to a
/// server, and the other recipient where it is a direct message. An entity
/// that the channel's kind needs and that is not given is an internal error.
pub open spec fn channel_permission_of(
    perspective: User,
    channel: Channel,
    server: Option<Server>,
    member: Option<Member>,
    user: Option<User>,
) -> Result<u64, Error> {
    match channel {
        Channel::SavedMessages { .. } => Ok(DEFAULT_PERMISSION_SAVED_MESSAGES),
        Channel::DirectMessage { .. } => match user {
            Some(other) => Ok(direct_message_permission_of(perspective, other)),
            None => Err(Error::InternalError),
        },
        Channel::Group { owner, recipients, permissions, .. } => Ok(
            group_permission_of(perspective, owner@, recipients@, permissions),
        ),
        Channel::TextChannel { default_permissions, role_permissions, .. } => match server {
            Some(s) => Ok(
                server_channel_permission_of(
                    perspective,
                    s,
                    member,
                    default_permissions,
                    role_permissions@,
                ),
            ),
            None => Err(Error::InternalError),
        },
        Channel::VoiceChannel { default_permissions, role_permissions, .. } => match server {
            Some(s) => Ok(
                server_channel_permission_of(
                    perspective,
                    s,
                    member,
                    default_permissions,
                    role_permissions@,
                ),
            ),
            None => Err(Error::InternalError),
        },
    }
}

/// Whether the member holds the role with the given id.
pub fn member_holds(member: &Member, id: &str) -> (r: bool)
    ensures
        r == holds_role(*member, id@),
{
    match &member.roles {
        Some(roles) => contains_str(roles, id),
        None => false,
    }
}

/// The rank of the first of `roles` that has the given id.
pub fn rank_of(roles: &Vec<Role>, id: &str) -> (r: Option<i64>)
    ensures
        r == match role_with_id(roles@, id@) {
            Some(role) => Some(role.rank),
            None => None,
        },
{
    let mut i: usize = 0;
    proof {
        assert(roles@.skip(0) =~= roles@);
    }
    while i < roles.len()
        invariant
            i <= roles@.len(),
            role_with_id(roles@, id@) == role_with_id(roles@.skip(i as int), id@),
        decreases roles@.len() - i,
    {
        proof {
            assert(roles@.skip(i as int).drop_first() =~= roles@.skip(i as int + 1));
            assert(roles@.skip(i as int)[0] == roles@[i as int]);
        }
        if str_eq(roles[i].id.as_str(), id) {
            return Some(roles[i].rank);
        }
        i = i + 1;
    }
    proof {
        assert(roles@.skip(i as int).len() == 0);
    }
    None
}

/// The overrides of the server's roles that the member holds.
pub fn collect_server_entries(roles: &Vec<Role>, member: &Member) -> (r: Vec<RankedOverride>)
    ensures
        ranked_views(r@) == server_entries(roles@, *member),
{
    let mut out: Vec<RankedOverride> = Vec::new();
    let mut i: usize = 0;
    proof {
        assert(ranked_views(out@) =~= server_entries(roles@.take(0), *member));
    }
    while i < roles.len()
        invariant
            i <= roles@.len(),
            ranked_views(out@) == server_entries(roles@.take(i as int), *member),
        decreases roles@.len() - i,
    {
        let ghost before = ranked_views(out@);
        proof {
            assert(roles@.take(i as int + 1).drop_last() =~= roles@.take(i as int));
            assert(roles@.take(i as int + 1).last() == roles@[i as int]);
        }
        if member_holds(member, roles[i].id.as_str()) {
            out.push(
                RankedOverride {
                    rank: roles[i].rank,
                    id: roles[i].id.clone(),
                    permissions: roles[i].permissions,
                },
            );
            proof {
                assert(ranked_views(out@) =~= before.push(
                    Ranked {
                        rank: roles@[i as int].rank,
                        id: roles@[i as int].id@,
                        permissions: roles@[i as int].permissions,
                    },
                ));
            }
        }
        i = i + 1;
    }
    proof {
        assert(roles@.take(i as int) =~= roles@);
    }
    out
}

/// The channel's overrides for the roles that the member holds and that the
/// server has.
pub fn collect_channel_entries(
    overrides: &Vec<RoleOverride>,
    roles: &Vec<Role>,
    member: &Member,
) -> (r: Vec<RankedOverride>)
    ensures
        ranked_views(r@) == channel_entries(overrides@, roles@, *member),
{
    let mut out: Vec<RankedOverride> = Vec::new();
    let mut i: usize = 0;
    proof {
        assert(ranked_views(out@) =~= channel_entries(overrides@.take(0), roles@, *member));
    }
    while i < overrides.len()
        invariant
            i <= overrides@.len(),
            ranked_views(out@) == channel_entries(overrides@.take(i as int), roles@, *member),
        decreases overrides@.len() - i,
    {
        let ghost before = ranked_views(out@);
        proof {
            assert(overrides@.take(i as int + 1).drop_last() =~= overrides@.take(i as int));
            assert(overrides@.take(i as int + 1).last() == overrides@[i as int]);
        }
        if member_holds(member, overrides[i].role.as_str()) {
            if let Some(rank) = rank_of(roles, overrides[i].role.as_str()) {
                out.push(
                    RankedOverride {
                        rank,
                        id: overrides[i].role.clone(),
                        permissions: overrides[i].permissions,
                    },
                );
                proof {
                    assert(ranked_views(out@) =~= before.push(
                        Ranked {
                            rank,
                            id: overrides@[i as int].role@,
                            permissions: overrides@[i as int].permissions,
                        },
                    ));
                }
            }
        }
        i = i + 1;
    }
    proof {
        assert(overrides@.take(i as int) =~= overrides@);
    }
    out
}

/// A member as a value, where a reference to one is given.
pub open spec fn member_value(member: Option<&Member>) -> Option<Member> {
    match member {
        Some(m) => Some(*m),
        None => None,
    }
}

/// What `perspective` may do in the server, given their member record where
/// one exists.
pub fn server_permission(perspective: &User, server: &Server, member: Option<&Member>) -> (r:
    PermissionValue)
    ensures
        r.0 == server_permission_of(*perspective, *server, member_value(member)),
{
    if str_eq(perspective.id.as_str(), server.owner.as_str()) {
        return PermissionValue(GRANT_ALL_SAFE);
    }
    match member {
        Some(m) => {
            let entries = collect_server_entries(&server.roles, m);
            apply_in_order(PermissionValue(server.default_permissions), entries)
        },
        None => PermissionValue(server.default_permissions),
    }
}

/// The value of a direct message channel for `perspective` when `other` is
/// the other recipient.
pub fn direct_message_permission(perspective: &User, other: &User) -> (r: PermissionValue)
    ensures
        r.0 == direct_message_permission_of(*perspective, *other),
{
    let perms = calculate(perspective, other.id.as_str());
    if perms.get_send_message() {
        PermissionValue(DEFAULT_PERMISSION_DIRECT_MESSAGE)
    } else {
        PermissionValue(DEFAULT_PERMISSION_VIEW_ONLY)
    }
}

/// The value of a group for `perspective`.
pub fn group_permission(
    perspective: &User,
    owner: &str,
    recipients: &Vec<String>,
    permissions: Option<u64>,
) -> (r: PermissionValue)
    ensures
        r.0 == group_permission_of(*perspective, owner@, recipients@, permissions),
{
    if str_eq(perspective.id.as_str(), owner) {
        PermissionValue(GRANT_ALL_SAFE)
    } else if contains_str(recipients, perspective.id.as_str()) {
        match permissions {
            Some(p) => PermissionValue(p),
            None => PermissionValue(DEFAULT_PERMISSION_DIRECT_MESSAGE),
        }
    } else {
        PermissionValue(0)
    }
}

/// The value that is left of `base` in a channel: what is left when the
/// channel's default override is applied, and then its overrides for the
/// roles that the member holds.
pub open spec fn channel_overrides_on(
    base: u64,
    server: Server,
    member: Member,
    default_permissions: Option<crate::permissions::Override>,
    role_permissions: Seq<RoleOverride>,
) -> u64 {
    let with_default = match default_permissions {
        Some(d) => overridden(base, d.allow, d.deny),
        None => base,
    };
    resolved(with_default, channel_entries(role_permissions, server.roles@, member))
}

/// Applies a channel's default override to `base`, and then its overrides
/// for the roles that the member holds.
pub fn apply_channel_overrides(
    base: PermissionValue,
    server: &Server,
    member: &Member,
    default_permissions: &Option<crate::permissions::Override>,
    role_permissions: &Vec<RoleOverride>,
) -> (r: PermissionValue)
    ensures
        r.0 == channel_overrides_on(base.0, *server, *member, *default_permissions, role_permissions@),
{
    let mut permissions = base;
    if let Some(default) = default_permissions {
        permissions.apply(*default);
    }
    let entries = collect_channel_entries(role_permissions, &server.roles, member);
    apply_in_order(permissions, entries)
}

/// The value of a channel of `server` for `perspective`.
pub fn server_channel_permission(
    perspective: &User,
    server: &Server,
    member: Option<&Member>,
    default_permissions: &Option<crate::permissions::Override>,
    role_permissions: &Vec<RoleOverride>,
) -> (r: PermissionValue)
    ensures
        r.0 == server_channel_permission_of(
            *perspective,
            *server,
            member_value(member),
            *default_permissions,
            role_permissions@,
        ),
{
    if str_eq(perspective.id.as_str(), server.owner.as_str()) {
        return PermissionValue(GRANT_ALL_SAFE);
    }
    match member {
        None => PermissionValue(GRANT_ALL_SAFE),
        Some(m) => {
            let base = server_permission(perspective, server, Some(m));
            apply_channel_overrides(base, server, m, default_permissions, role_permissions)
        },
    }
}

/// The first of `recipients` that is not `perspective`.
pub open spec fn other_recipient(recipients: Seq<String>, perspective: Seq<char>) -> Option<int>
    decreases recipients.len(),
{
    if recipients.len() == 0 {
        None
    } else if recipients[0]@ != perspective {
        Some(0)
    } else {
        match other_recipient(recipients.drop_first(), perspective) {
            Some(k) => Some(k + 1),
            None => None,
        }
    }
}

/// The place in `recipients` of the first that is not `perspective`.
pub fn find_other_recipient(recipients: &Vec<String>, perspective: &str) -> (r: Option<usize>)
    ensures
        match r {
            Some(k) => other_recipient(recipients@, perspective@) == Some(k as int) && k
                < recipients@.len(),
            None => other_recipient(recipients@, perspective@).is_none(),
        },
{
    let mut i: usize = 0;
    proof {
        assert(recipients@.skip(0) =~= recipients@);
    }
    while i < recipients.len()
        invariant
            i <= recipients@.len(),
            other_recipient(recipients@, perspective@) == match other_recipient(
                recipients@.skip(i as int),
                perspective@,
            ) {
                Some(k) => Some(k + i),
                None => None,
            },
        decreases recipients@.len() - i,
    {
        proof {
            assert(recipients@.skip(i as int).drop_first() =~= recipients@.skip(i as int + 1));
            assert(recipients@.skip(i as int)[0] == recipients@[i as int]);
        }
        if !str_eq(recipients[i].as_str(), perspective) {
            return Some(i);
        }
        i = i + 1;
    }
    proof {
        assert(recipients@.skip(i as int).len() == 0);
    }
    None
}

/// Whether no two of the roles have the same id.
pub open spec fn unique_role_ids(roles: Seq<Role>) -> bool {
    forall|i: int, j: int|
        0 <= i < j < roles.len() ==> (#[trigger] roles[i]).id@ != (#[trigger] roles[j]).id@
}

/// Whether a channel is as its kind asks: a direct message has exactly two
/// recipients.
pub open spec fn channel_well_formed(channel: Channel) -> bool {
    match channel {
        Channel::DirectMessage { recipients, .. } => recipients@.len() == 2,
        _ => true,
    }
}

impl Server {
    /// Whether the server has one role for each id.
    pub fn has_unique_roles(&self) -> (r: bool)
        ensures
            r == unique_role_ids(self.roles@),
    {
        let mut j: usize = 0;
        while j < self.roles.len()
            invariant
                j <= self.roles@.len(),
                forall|a: int, b: int|
                    0 <= a < b < j ==> (#[trigger] self.roles@[a]).id@ != (#[trigger] self.roles@[b]).id@,
            decreases self.roles@.len() - j,
        {
            let mut i: usize = 0;
            while i < j
                invariant
                    i <= j,
                    j < self.roles@.len(),
                    forall|a: int| 0 <= a < i ==> (#[trigger] self.roles@[a]).id@ != self.roles@[j as int].id@,
                decreases j - i,
            {
                if str_eq(self.roles[i].id.as_str(), self.roles[j].id.as_str()) {
                    return false;
                }
                i = i + 1;
            }
            j = j + 1;
        }
        true
    }
}

impl Channel {
    /// Whether the channel is as its kind asks.
    pub fn is_well_formed(&self) -> (r: bool)
        ensures
            r == channel_well_formed(*self),
    {
        match self {
            Channel::DirectMessage { recipients, .. } => recipients.len() == 2,
            _ => true,
        }
    }
}

/// A user as a value, where a reference to one is given.
pub open spec fn user_value(user: Option<&User>) -> Option<User> {
    match user {
        Some(u) => Some(*u),
        None => None,
    }
}

/// A server as a value, where a reference to one is given.
pub open spec fn server_value(server: Option<&Server>) -> Option<Server> {
    match server {
        Some(s) => Some(*s),
        None => None,
    }
}

/// The mask of a resolved value, or the error that ended the resolution.
pub open spec fn mask_of(r: Result<PermissionValue, Error>) -> Result<u64, Error> {
    match r {
        Ok(v) => Ok(v.0),
        Err(e) => Err(e),
    }
}

/// What `perspective` may do in the channel, given the entities that the
/// channel's kind needs: its server and the member record of `perspective`
/// for a channel of a server, the other recipient for a direct message.
pub fn channel_permission(
    perspective: &User,
    channel: &Channel,
    server: Option<&Server>,
    member: Option<&Member>,
    user: Option<&User>,
) -> (r: Result<PermissionValue, Error>)
    ensures
        mask_of(r) == channel_permission_of(
            *perspective,
            *channel,
            server_value(server),
            member_value(member),
            user_value(user),
        ),
{
    match channel {
        Channel::SavedMessages { .. } => Ok(PermissionValue(DEFAULT_PERMISSION_SAVED_MESSAGES)),
        Channel::DirectMessage { .. } => match user {
            Some(other) => Ok(direct_message_permission(perspective, other)),
            None => Err(Error::InternalError),
        },
        Channel::Group { owner, recipients, permissions, .. } => Ok(
            group_permission(perspective, owner.as_str(), recipients, *permissions),
        ),
        Channel::TextChannel { default_permissions, role_permissions, .. }
        | Channel::VoiceChannel { default_permissions, role_permissions, .. } => match server {
            Some(s) => Ok(
                server_channel_permission(perspective, s, member, default_permissions, role_permissions),
            ),
            None => Err(Error::InternalError),
        },
    }
}

/// The owner of a server may do everything in it, whatever its default
/// permissions and its roles are, and whatever member record there is.
pub proof fn lemma_owner_is_granted_all(perspective: User, server: Server, member: Option<Member>)
    requires
        perspective.id@ == server.owner@,
    ensures
        server_permission_of(perspective, server, member) == GRANT_ALL_SAFE,
{
}

/// A member with exactly two roles that treat a bit in opposite ways has the
/// bit as the role of lower rank allows it: where the overrides of the
/// member's roles are `a` and `b` in either order, and `b` has the lower
/// rank and touches the bit.
pub proof fn lemma_member_lower_rank_decides(
    perspective: User,
    server: Server,
    member: Member,
    a: Ranked,
    b: Ranked,
    i: u64,
)
    requires
        i < 64,
        perspective.id@ != server.owner@,
        server_entries(server.roles@, member) == seq![a, b] || server_entries(server.roles@, member)
            == seq![b, a],
        a.rank > b.rank,
        crate::roles::touches(b, i),
    ensures
        crate::permissions::bit_set(server_permission_of(perspective, server, Some(member)), i)
            == crate::permissions::bit_set(b.permissions.allow, i),
{
    crate::roles::lemma_lower_rank_decides(server.default_permissions, a, b, i);
}

/// A role's override with the role's rank and id.
pub open spec fn ranked_of(role: Role) -> Ranked {
    Ranked { rank: role.rank, id: role.id@, permissions: role.permissions }
}

/// The entries of a member are the overrides of the roles that the member
/// holds, and no others.
pub proof fn lemma_server_entries_are_held_roles(roles: Seq<Role>, member: Member, x: Ranked)
    ensures
        server_entries(roles, member).contains(x) <==> exists|k: int|
            0 <= k < roles.len() && holds_role(member, (#[trigger] roles[k]).id@) && ranked_of(
                roles[k],
            ) == x,
    decreases roles.len(),
{
    let entries = server_entries(roles, member);
    if roles.len() == 0 {
        assert(!entries.contains(x));
    } else {
        let rest = roles.drop_last();
        let inner = server_entries(rest, member);
        let last = roles.last();
        lemma_server_entries_are_held_roles(rest, member, x);
        if entries.contains(x) {
            let p = choose|p: int| 0 <= p < entries.len() && entries[p] == x;
            if holds_role(member, last.id@) && p == inner.len() {
                assert(ranked_of(roles[roles.len() - 1]) == x);
            } else {
                assert(inner[p] == x);
                assert(inner.contains(x));
                let k = choose|k: int|
                    0 <= k < rest.len() && holds_role(member, (#[trigger] rest[k]).id@) && ranked_of(
                        rest[k],
                    ) == x;
                assert(roles[k] == rest[k]);
            }
        }
        if exists|k: int|
            0 <= k < roles.len() && holds_role(member, (#[trigger] roles[k]).id@) && ranked_of(
                roles[k],
            ) == x {
            let k = choose|k: int|
                0 <= k < roles.len() && holds_role(member, (#[trigger] roles[k]).id@) && ranked_of(
                    roles[k],
                ) == x;
            if k < rest.len() {
                assert(rest[k] == roles[k]);
                assert(inner.contains(x));
                let p = choose|p: int| 0 <= p < inner.len() && inner[p] == x;
                assert(entries[p] == x);
            } else {
                assert(entries[inner.len() as int] == x);
            }
        }
    }
}

/// Where a server has one role for each id, no two of a member's entries
/// share rank and id.
pub proof fn lemma_server_entries_have_distinct_keys(roles: Seq<Role>, member: Member)
    requires
        unique_role_ids(roles),
    ensures
        crate::roles::distinct_keys(server_entries(roles, member)),
    decreases roles.len(),
{
    if roles.len() > 0 {
        let rest = roles.drop_last();
        let inner = server_entries(rest, member);
        let last = roles.last();
        assert forall|i: int, j: int| 0 <= i < j < rest.len() implies (#[trigger] rest[i]).id@ != (
        #[trigger] rest[j]).id@ by {
            assert(rest[i] == roles[i]);
            assert(rest[j] == roles[j]);
        }
        lemma_server_entries_have_distinct_keys(rest, member);
        if holds_role(member, last.id@) {
            let entries = server_entries(roles, member);
            assert forall|a: int, b: int| 0 <= a < b < entries.len() implies !((
            #[trigger] entries[a]).rank == (#[trigger] entries[b]).rank && entries[a].id
                == entries[b].id) by {
                assert(entries[a] == inner[a]);
                if b == inner.len() {
                    assert(inner.contains(inner[a]));
                    lemma_server_entries_are_held_roles(rest, member, inner[a]);
                    let k = choose|k: int|
                        0 <= k < rest.len() && holds_role(member, (#[trigger] rest[k]).id@)
                            && ranked_of(rest[k]) == inner[a];
                    assert(rest[k] == roles[k]);
                    assert(roles[k].id@ != roles[roles.len() - 1].id@);
                } else {
                    assert(entries[b] == inner[b]);
                }
            }
        }
    }
}

/// What a user may do in a server does not depend on the order in which the
/// server lists its roles: two servers with the same owner, the same
/// default permissions and the same roles give the same value, provided
/// there is one role for each id.
pub proof fn lemma_role_listing_order_is_irrelevant(
    perspective: User,
    a: Server,
    b: Server,
    member: Option<Member>,
)
    requires
        a.owner@ == b.owner@,
        a.default_permissions == b.default_permissions,
        unique_role_ids(a.roles@),
        forall|r: Role| a.roles@.contains(r) <==> b.roles@.contains(r),
    ensures
        server_permission_of(perspective, a, member) == server_permission_of(perspective, b, member),
{
    if perspective.id@ != a.owner@ && member.is_some() {
        let m = member.unwrap();
        let ea = server_entries(a.roles@, m);
        let eb = server_entries(b.roles@, m);
        lemma_server_entries_have_distinct_keys(a.roles@, m);
        assert forall|x: Ranked| ea.contains(x) <==> eb.contains(x) by {
            lemma_server_entries_are_held_roles(a.roles@, m, x);
            lemma_server_entries_are_held_roles(b.roles@, m, x);
            if ea.contains(x) {
                let k = choose|k: int|
                    0 <= k < a.roles@.len() && holds_role(m, (#[trigger] a.roles@[k]).id@)
                        && ranked_of(a.roles@[k]) == x;
                assert(a.roles@.contains(a.roles@[k]));
                let j = choose|j: int| 0 <= j < b.roles@.len() && b.roles@[j] == a.roles@[k];
                assert(holds_role(m, b.roles@[j].id@) && ranked_of(b.roles@[j]) == x);
            }
            if eb.contains(x) {
                let k = choose|k: int|
                    0 <= k < b.roles@.len() && holds_role(m, (#[trigger] b.roles@[k]).id@)
                        && ranked_of(b.roles@[k]) == x;
                assert(b.roles@.contains(b.roles@[k]));
                let j = choose|j: int| 0 <= j < a.roles@.len() && a.roles@[j] == b.roles@[k];
                assert(holds_role(m, a.roles@[j].id@) && ranked_of(a.roles@[j]) == x);
            }
        }
        crate::roles::lemma_listing_order_is_irrelevant(a.default_permissions, ea, eb);
    }
}

} // verus!

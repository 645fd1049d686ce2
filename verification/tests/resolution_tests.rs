use revolt_core::calculator::calculate_channel_permission;
use revolt_core::calculator::calculate_server_permission;
use revolt_core::calculator::perms;
use revolt_core::calculator::AbstractDatabase;
use revolt_core::calculator::Lookup;
use revolt_core::calculator::PermissionCalculator;
use revolt_core::calculator::Value;
use revolt_core::errors::Error;
use revolt_core::models::Channel;
use revolt_core::models::Member;
use revolt_core::models::MemberCompositeKey;
use revolt_core::models::Relationship;
use revolt_core::models::RelationshipStatus;
use revolt_core::models::Role;
use revolt_core::models::RoleOverride;
use revolt_core::models::Server;
use revolt_core::models::User;
use revolt_core::permissions::Override;
use revolt_core::permissions::PermissionValue;
use revolt_core::permissions::Permissions;
use revolt_core::permissions::DEFAULT_PERMISSION_DIRECT_MESSAGE;
use revolt_core::permissions::DEFAULT_PERMISSION_SAVED_MESSAGES;
use revolt_core::permissions::DEFAULT_PERMISSION_VIEW_ONLY;
use revolt_core::permissions::GRANT_ALL_SAFE;
use revolt_core::permissions::MANAGE_MESSAGES;
use revolt_core::permissions::REACT;
use revolt_core::permissions::SEND_MESSAGE;
use revolt_core::permissions::VIEW_CHANNEL;
use revolt_core::resolution::apply_channel_overrides;
use revolt_core::resolution::channel_permission;
use revolt_core::resolution::direct_message_permission;
use revolt_core::resolution::find_other_recipient;
use revolt_core::resolution::group_permission;
use revolt_core::resolution::member_holds;
use revolt_core::resolution::rank_of;
use revolt_core::resolution::server_channel_permission;
use revolt_core::resolution::server_permission;
use revolt_core::roles::apply_in_order;
use revolt_core::roles::precedes;
use revolt_core::roles::sort_for_application;
use revolt_core::roles::RankedOverride;

struct Store {
    users: Vec<User>,
    servers: Vec<Server>,
    members: Vec<Member>,
    channels: Vec<Channel>,
    broken: bool,
}

impl Store {
    fn empty() -> Store {
        Store { users: vec![], servers: vec![], members: vec![], channels: vec![], broken: false }
    }
}

fn failure() -> Error {
    Error::DatabaseError { operation: "find_one".to_string(), with: "store".to_string() }
}

impl AbstractDatabase for Store {
    fn fetch_user(&self, id: &str) -> Result<User, Error> {
        if self.broken {
            return Err(failure());
        }
        self.users.iter().find(|u| u.id == id).cloned().ok_or(Error::NotFound)
    }

    fn fetch_server(&self, id: &str) -> Result<Server, Error> {
        if self.broken {
            return Err(failure());
        }
        self.servers.iter().find(|s| s.id == id).cloned().ok_or(Error::NotFound)
    }

    fn fetch_member(&self, server: &str, user: &str) -> Result<Member, Error> {
        if self.broken {
            return Err(failure());
        }
        self.members
            .iter()
            .find(|m| m.id.server == server && m.id.user == user)
            .cloned()
            .ok_or(Error::NotFound)
    }

    fn fetch_channel(&self, id: &str) -> Result<Channel, Error> {
        if self.broken {
            return Err(failure());
        }
        match self.channels.iter().find(|c| match c {
            Channel::SavedMessages { id: i, .. } => i == id,
            Channel::DirectMessage { id: i, .. } => i == id,
            Channel::Group { id: i, .. } => i == id,
            Channel::TextChannel { id: i, .. } => i == id,
            Channel::VoiceChannel { id: i, .. } => i == id,
        }) {
            Some(c) => Ok(c.clone()),
            None => Err(Error::NotFound),
        }
    }
}

fn user(id: &str) -> User {
    User {
        id: id.to_string(),
        username: format!("user {}", id),
        avatar: None,
        relations: None,
        badges: None,
        status: None,
        profile: None,
        flags: None,
        privileged: false,
        bot: None,
        relationship: None,
        online: None,
    }
}

fn role(id: &str, rank: i64, allow: u64, deny: u64) -> Role {
    Role { id: id.to_string(), name: id.to_string(), permissions: Override { allow, deny }, rank }
}

fn server(roles: Vec<Role>, default_permissions: u64) -> Server {
    Server {
        id: "S".to_string(),
        owner: "O".to_string(),
        name: "server".to_string(),
        default_permissions,
        roles,
    }
}

fn member(user: &str, roles: Option<Vec<&str>>) -> Member {
    Member {
        id: MemberCompositeKey { server: "S".to_string(), user: user.to_string() },
        nickname: None,
        avatar: None,
        roles: roles.map(|r| r.into_iter().map(|x| x.to_string()).collect()),
    }
}

fn text_channel(default_permissions: Option<Override>, role_permissions: Vec<RoleOverride>) -> Channel {
    Channel::TextChannel {
        id: "C".to_string(),
        server: "S".to_string(),
        name: "general".to_string(),
        default_permissions,
        role_permissions,
    }
}

fn ranked(rank: i64, id: &str, allow: u64, deny: u64) -> RankedOverride {
    RankedOverride { rank, id: id.to_string(), permissions: Override { allow, deny } }
}

#[test]
fn owner_is_granted_all_whatever_the_server_says() {
    let s = server(vec![role("R", 0, 0, u64::MAX)], 0);
    let o = user("O");
    assert_eq!(server_permission(&o, &s, None), PermissionValue(GRANT_ALL_SAFE));
    let m = member("O", Some(vec!["R"]));
    assert_eq!(server_permission(&o, &s, Some(&m)), PermissionValue(GRANT_ALL_SAFE));
    let db = Store::empty();
    let mut calc = perms(&o).server(&s);
    assert_eq!(calc.calc(&db), Ok(Permissions([GRANT_ALL_SAFE])));
    assert_eq!(calc.cached_permission, Some(GRANT_ALL_SAFE));
    assert!(!calc.member.has());
}

#[test]
fn privileged_actor_is_granted_all_without_a_fetch() {
    let mut p = user("P");
    p.privileged = true;
    let mut db = Store::empty();
    db.broken = true;
    let channel = text_channel(None, vec![]);
    let mut calc = perms(&p).channel(&channel);
    assert_eq!(calc.calc(&db), Ok(Permissions([GRANT_ALL_SAFE])));
    assert!(!calc.server.has());
    let mut bare = perms(&p);
    assert_eq!(bare.calc(&db), Ok(Permissions([GRANT_ALL_SAFE])));
}

#[test]
fn non_member_has_the_default_permissions_of_the_server() {
    let s = server(vec![role("R", 0, REACT, 0)], SEND_MESSAGE);
    let u = user("U");
    assert_eq!(server_permission(&u, &s, None), PermissionValue(SEND_MESSAGE));
    let db = Store::empty();
    let mut calc = perms(&u).server(&s);
    assert_eq!(calc.calc(&db), Ok(Permissions([SEND_MESSAGE])));
    assert!(!calc.member.has());
}

#[test]
fn member_without_roles_has_the_default_permissions() {
    let s = server(vec![role("R", 0, REACT, 0)], SEND_MESSAGE);
    let u = user("U");
    let none = member("U", None);
    assert_eq!(server_permission(&u, &s, Some(&none)), PermissionValue(SEND_MESSAGE));
    let empty = member("U", Some(vec![]));
    assert_eq!(server_permission(&u, &s, Some(&empty)), PermissionValue(SEND_MESSAGE));
    let unknown = member("U", Some(vec!["nope"]));
    assert_eq!(server_permission(&u, &s, Some(&unknown)), PermissionValue(SEND_MESSAGE));
}

#[test]
fn lower_rank_is_applied_last_and_wins() {
    let a = role("A", 10, SEND_MESSAGE, 0);
    let b = role("B", 5, 0, SEND_MESSAGE);
    let u = user("U");
    let m = member("U", Some(vec!["A", "B"]));
    let s1 = server(vec![a.clone(), b.clone()], 0);
    assert_eq!(server_permission(&u, &s1, Some(&m)).0 & SEND_MESSAGE, 0);
    let s2 = server(vec![b, a], 0);
    assert_eq!(server_permission(&u, &s2, Some(&m)).0 & SEND_MESSAGE, 0);
    let a = role("A", 10, 0, SEND_MESSAGE);
    let b = role("B", 5, SEND_MESSAGE, 0);
    let s3 = server(vec![b, a], 0);
    assert_eq!(server_permission(&u, &s3, Some(&m)).0 & SEND_MESSAGE, SEND_MESSAGE);
}

#[test]
fn scenario_deny_role_then_allow_role_of_lower_rank() {
    let o = user("O");
    let m_user = user("M");
    let r1 = role("R1", 1, 0, SEND_MESSAGE);
    let r2 = role("R2", 0, SEND_MESSAGE, 0);
    let s = server(vec![r1, r2], SEND_MESSAGE);
    let mut db = Store::empty();
    db.members.push(member("M", Some(vec!["R1"])));
    let mut calc = perms(&m_user).server(&s);
    let first = calc.calc(&db).unwrap();
    assert!(!first.get_send_message());
    assert_eq!(first, Permissions([0]));
    assert!(calc.member.has());
    db.members.clear();
    db.members.push(member("M", Some(vec!["R1", "R2"])));
    let mut calc = perms(&m_user).server(&s);
    let second = calc.calc(&db).unwrap();
    assert!(second.get_send_message());
    assert_eq!(second, Permissions([SEND_MESSAGE]));
    let mut calc = perms(&o).server(&s);
    assert_eq!(calc.calc(&db), Ok(Permissions([GRANT_ALL_SAFE])));
}

#[test]
fn roles_of_equal_rank_are_applied_in_the_order_of_their_ids() {
    let a = role("A", 3, SEND_MESSAGE, 0);
    let b = role("B", 3, 0, SEND_MESSAGE);
    let u = user("U");
    let m = member("U", Some(vec!["B", "A"]));
    let listed_ab = server(vec![a.clone(), b.clone()], 0);
    let listed_ba = server(vec![b, a], 0);
    assert_eq!(server_permission(&u, &listed_ab, Some(&m)).0 & SEND_MESSAGE, 0);
    assert_eq!(server_permission(&u, &listed_ba, Some(&m)).0 & SEND_MESSAGE, 0);
}

#[test]
fn sort_puts_the_highest_rank_first() {
    let sorted = sort_for_application(vec![
        ranked(1, "x", 0, 0),
        ranked(7, "y", 0, 0),
        ranked(-4, "z", 0, 0),
        ranked(7, "a", 0, 0),
    ]);
    let order: Vec<(i64, &str)> = sorted.iter().map(|r| (r.rank, r.id.as_str())).collect();
    assert_eq!(order, vec![(7, "a"), (7, "y"), (1, "x"), (-4, "z")]);
    assert!(sort_for_application(vec![]).is_empty());
    assert!(precedes(&ranked(2, "a", 0, 0), &ranked(1, "a", 0, 0)));
    assert!(!precedes(&ranked(1, "a", 0, 0), &ranked(2, "a", 0, 0)));
    assert!(precedes(&ranked(1, "a", 0, 0), &ranked(1, "b", 0, 0)));
    assert!(!precedes(&ranked(1, "a", 0, 0), &ranked(1, "a", 0, 0)));
    assert!(precedes(&ranked(i64::MAX, "a", 0, 0), &ranked(i64::MIN, "a", 0, 0)));
}

#[test]
fn apply_in_order_folds_the_overrides() {
    let value = apply_in_order(
        PermissionValue(0b0001),
        vec![ranked(0, "low", 0b0100, 0b0010), ranked(9, "high", 0b0010, 0b0001)],
    );
    // high: (0001 & !0001) | 0010 = 0010; low: (0010 & !0010) | 0100 = 0100
    assert_eq!(value, PermissionValue(0b0100));
    assert_eq!(apply_in_order(PermissionValue(5), vec![]), PermissionValue(5));
}

#[test]
fn saved_messages_have_a_fixed_value() {
    let u = user("U");
    let channel = Channel::SavedMessages { id: "C".to_string(), user: "U".to_string() };
    let db = Store::empty();
    let mut calc = perms(&u).channel(&channel);
    assert_eq!(calc.calc(&db), Ok(Permissions([DEFAULT_PERMISSION_SAVED_MESSAGES])));
    assert_eq!(calc.cached_permission, Some(DEFAULT_PERMISSION_SAVED_MESSAGES));
}

#[test]
fn group_permissions() {
    let recipients = vec!["A".to_string(), "B".to_string()];
    let owner = user("A");
    let inside = user("B");
    let outside = user("Z");
    assert_eq!(group_permission(&owner, "A", &recipients, Some(1)), PermissionValue(GRANT_ALL_SAFE));
    assert_eq!(group_permission(&inside, "A", &recipients, Some(VIEW_CHANNEL)), PermissionValue(VIEW_CHANNEL));
    assert_eq!(
        group_permission(&inside, "A", &recipients, None),
        PermissionValue(DEFAULT_PERMISSION_DIRECT_MESSAGE)
    );
    assert_eq!(group_permission(&outside, "A", &recipients, Some(VIEW_CHANNEL)), PermissionValue(0));
    let channel = Channel::Group {
        id: "G".to_string(),
        name: "group".to_string(),
        owner: "A".to_string(),
        description: None,
        recipients,
        permissions: None,
    };
    let db = Store::empty();
    let mut calc = perms(&outside).channel(&channel);
    assert_eq!(calc.calc(&db), Ok(Permissions([0])));
    let mut calc = perms(&inside).channel(&channel);
    assert_eq!(calc.calc(&db), Ok(Permissions([DEFAULT_PERMISSION_DIRECT_MESSAGE])));
}

#[test]
fn scenario_direct_message_with_a_user_who_blocked() {
    let u1 = user("U1");
    let mut u2 = user("U2");
    u2.relations = Some(vec![Relationship {
        id: "U1".to_string(),
        status: RelationshipStatus::BlockedOther,
    }]);
    let channel = Channel::DirectMessage {
        id: "D".to_string(),
        active: true,
        recipients: vec!["U1".to_string(), "U2".to_string()],
    };
    let mut db = Store::empty();
    db.users.push(u1.clone());
    db.users.push(u2.clone());
    let mut calc = perms(&u2).channel(&channel);
    assert_eq!(calc.calc(&db), Ok(Permissions([DEFAULT_PERMISSION_VIEW_ONLY])));
    assert_eq!(calc.user.get().map(|u| u.id.clone()), Some("U1".to_string()));
    assert_eq!(direct_message_permission(&u2, &u1), PermissionValue(DEFAULT_PERMISSION_VIEW_ONLY));
}

#[test]
fn direct_message_between_friends_has_the_full_value() {
    let u1 = user("U1");
    let mut u2 = user("U2");
    u2.relations =
        Some(vec![Relationship { id: "U1".to_string(), status: RelationshipStatus::Friend }]);
    let channel = Channel::DirectMessage {
        id: "D".to_string(),
        active: true,
        recipients: vec!["U2".to_string(), "U1".to_string()],
    };
    let mut db = Store::empty();
    db.users.push(u1);
    let mut calc = perms(&u2).channel(&channel);
    assert_eq!(calc.calc(&db), Ok(Permissions([DEFAULT_PERMISSION_DIRECT_MESSAGE])));
}

#[test]
fn direct_message_errors() {
    let u = user("U");
    let alone = Channel::DirectMessage {
        id: "D".to_string(),
        active: true,
        recipients: vec!["U".to_string(), "U".to_string()],
    };
    let db = Store::empty();
    let mut calc = perms(&u).channel(&alone);
    assert_eq!(calc.calc(&db), Err(Error::InternalError));
    assert_eq!(calc.cached_permission, None);
    let channel = Channel::DirectMessage {
        id: "D".to_string(),
        active: true,
        recipients: vec!["U".to_string(), "gone".to_string()],
    };
    let mut calc = perms(&u).channel(&channel);
    assert_eq!(calc.calc(&db), Err(Error::NotFound));
    assert_eq!(find_other_recipient(&vec!["U".to_string(), "V".to_string()], "U"), Some(1));
    assert_eq!(find_other_recipient(&vec!["V".to_string(), "U".to_string()], "U"), Some(0));
    assert_eq!(find_other_recipient(&vec!["U".to_string()], "U"), None);
    assert_eq!(find_other_recipient(&vec![], "U"), None);
}

#[test]
fn server_channel_applies_default_then_role_overrides() {
    let u = user("U");
    let s = server(
        vec![role("A", 10, REACT, 0), role("B", 5, 0, 0)],
        VIEW_CHANNEL | SEND_MESSAGE,
    );
    let m = member("U", Some(vec!["A", "B"]));
    let default = Some(Override { allow: MANAGE_MESSAGES, deny: SEND_MESSAGE });
    let overrides = vec![
        RoleOverride { role: "B".to_string(), permissions: Override { allow: SEND_MESSAGE, deny: 0 } },
        RoleOverride { role: "A".to_string(), permissions: Override { allow: 0, deny: SEND_MESSAGE | REACT } },
        RoleOverride { role: "ghost".to_string(), permissions: Override { allow: 0, deny: u64::MAX } },
    ];
    // server: VIEW | SEND, then A allows REACT.
    // channel default: deny SEND, allow MANAGE_MESSAGES.
    // A (rank 10) first: deny SEND and REACT. B (rank 5) last: allow SEND.
    let expected = VIEW_CHANNEL | MANAGE_MESSAGES | SEND_MESSAGE;
    assert_eq!(
        server_channel_permission(&u, &s, Some(&m), &default, &overrides),
        PermissionValue(expected)
    );
    let base = server_permission(&u, &s, Some(&m));
    assert_eq!(base, PermissionValue(VIEW_CHANNEL | SEND_MESSAGE | REACT));
    assert_eq!(apply_channel_overrides(base, &s, &m, &default, &overrides), PermissionValue(expected));
    let channel = text_channel(default, overrides);
    let mut db = Store::empty();
    db.servers.push(s.clone());
    db.members.push(m.clone());
    let mut calc = perms(&u).channel(&channel);
    assert_eq!(calc.calc(&db), Ok(Permissions([expected])));
    assert!(calc.server.has());
    assert!(calc.member.has());
    assert_eq!(calc.cached_permission, Some(expected));
}

#[test]
fn server_channel_for_owner_and_for_non_member() {
    let s = server(vec![], VIEW_CHANNEL);
    let channel = Channel::VoiceChannel {
        id: "C".to_string(),
        server: "S".to_string(),
        name: "voice".to_string(),
        default_permissions: Some(Override { allow: 0, deny: u64::MAX }),
        role_permissions: vec![],
    };
    let mut db = Store::empty();
    db.servers.push(s.clone());
    let o = user("O");
    let mut calc = perms(&o).channel(&channel);
    assert_eq!(calc.calc(&db), Ok(Permissions([GRANT_ALL_SAFE])));
    let stranger = user("X");
    let mut calc = perms(&stranger).channel(&channel);
    assert_eq!(calc.calc(&db), Ok(Permissions([GRANT_ALL_SAFE])));
    assert_eq!(
        server_channel_permission(&stranger, &s, None, &None, &vec![]),
        PermissionValue(GRANT_ALL_SAFE)
    );
    db.members.push(member("X", None));
    let mut calc = perms(&stranger).channel(&channel);
    assert_eq!(calc.calc(&db), Ok(Permissions([0])));
}

#[test]
fn fetch_failures_end_the_resolution() {
    let u = user("U");
    let channel = text_channel(None, vec![]);
    let db = Store::empty();
    let mut calc = perms(&u).channel(&channel);
    assert_eq!(calc.calc(&db), Err(Error::NotFound));
    assert_eq!(calc.cached_permission, None);
    let mut broken = Store::empty();
    broken.broken = true;
    let s = server(vec![], SEND_MESSAGE);
    let mut calc = perms(&u).server(&s);
    assert_eq!(calc.calc(&broken), Err(failure()));
    let mut calc = perms(&u).channel(&channel).server(&s);
    assert_eq!(calc.calc(&broken), Err(failure()));
    let m = member("U", None);
    let mut calc = perms(&u).channel(&channel).server(&s).member(&m);
    assert_eq!(calc.calc(&broken), Ok(Permissions([SEND_MESSAGE])));
}

#[test]
fn a_context_without_target_is_an_internal_error() {
    let u = user("U");
    let db = Store::empty();
    let mut calc = PermissionCalculator::new(&u);
    assert_eq!(calc.calc(&db), Err(Error::InternalError));
}

#[test]
fn context_slots() {
    let mut slot: Value<'_, u32> = Value::Empty;
    assert!(!slot.has());
    assert_eq!(slot.get(), None);
    slot.set(7);
    assert!(slot.has());
    assert_eq!(slot.get(), Some(&7));
    let lent = 9;
    let slot = Value::Ref(&lent);
    assert!(slot.has());
    assert_eq!(slot.get(), Some(&9));
}

#[test]
fn calc_user_resolves_towards_the_user_in_the_context() {
    let mut me = user("A");
    me.relations = Some(vec![Relationship { id: "B".to_string(), status: RelationshipStatus::Friend }]);
    let friend = user("B");
    let stranger = user("C");
    let mut calc = perms(&me).user(&friend);
    let p = calc.calc_user();
    assert_eq!(p.0, [7]);
    assert_eq!(calc.cached_user_permission, Some(7));
    let mut calc = perms(&me).user(&stranger);
    assert_eq!(calc.calc_user().0, [0]);
}

#[test]
fn the_two_resolution_steps_keep_what_the_context_held() {
    let u = user("U");
    let s = server(vec![role("R", 0, REACT, 0)], SEND_MESSAGE);
    let m = member("U", Some(vec!["R"]));
    let mut db = Store::empty();
    db.members.push(member("U", None));
    let mut calc = perms(&u).server(&s).member(&m);
    assert_eq!(calculate_server_permission(&mut calc, &db), Ok(PermissionValue(SEND_MESSAGE | REACT)));
    assert_eq!(calc.member.get(), Some(&m));
    let channel = text_channel(None, vec![]);
    let mut calc = perms(&u).channel(&channel).server(&s).member(&m);
    assert_eq!(calculate_channel_permission(&mut calc, &db), Ok(PermissionValue(SEND_MESSAGE | REACT)));
    assert_eq!(calc.cached_permission, None);
}

#[test]
fn helpers_of_resolution() {
    let m = member("U", Some(vec!["A"]));
    assert!(member_holds(&m, "A"));
    assert!(!member_holds(&m, "B"));
    assert!(!member_holds(&member("U", None), "A"));
    let roles = vec![role("A", 4, 0, 0), role("B", -2, 0, 0), role("A", 9, 0, 0)];
    assert_eq!(rank_of(&roles, "A"), Some(4));
    assert_eq!(rank_of(&roles, "B"), Some(-2));
    assert_eq!(rank_of(&roles, "C"), None);
}

#[test]
fn lookups_are_named_one_after_the_other() {
    let u = user("U");
    let channel = text_channel(None, vec![]);
    let s = server(vec![], SEND_MESSAGE);
    let m = member("U", None);
    let mut calc = perms(&u).channel(&channel);
    assert_eq!(calc.next_lookup(false), Some(Lookup::Server { id: "S".to_string() }));
    calc.server.set(s.clone());
    assert_eq!(
        calc.next_lookup(false),
        Some(Lookup::Member { server: "S".to_string(), user: "U".to_string() })
    );
    assert_eq!(calc.next_lookup(true), None);
    assert_eq!(calc.resolve(), Ok(Permissions([GRANT_ALL_SAFE])));
    calc.member.set(m);
    assert_eq!(calc.next_lookup(false), None);
    assert_eq!(calc.resolve(), Ok(Permissions([SEND_MESSAGE])));
    assert_eq!(calc.cached_permission, Some(SEND_MESSAGE));
}

#[test]
fn lookups_for_the_other_kinds_of_target() {
    let o = user("O");
    let s = server(vec![], SEND_MESSAGE);
    assert_eq!(perms(&o).server(&s).next_lookup(false), None);
    let u = user("U");
    assert_eq!(
        perms(&u).server(&s).next_lookup(false),
        Some(Lookup::Member { server: "S".to_string(), user: "U".to_string() })
    );
    assert_eq!(perms(&u).server(&s).next_lookup(true), None);
    assert_eq!(perms(&u).next_lookup(false), None);
    let saved = Channel::SavedMessages { id: "C".to_string(), user: "U".to_string() };
    assert_eq!(perms(&u).channel(&saved).next_lookup(false), None);
    let direct = Channel::DirectMessage {
        id: "D".to_string(),
        active: true,
        recipients: vec!["U".to_string(), "V".to_string()],
    };
    let mut calc = perms(&u).channel(&direct);
    assert_eq!(calc.next_lookup(false), Some(Lookup::User { id: "V".to_string() }));
    assert_eq!(calc.resolve(), Err(Error::InternalError));
    assert_eq!(calc.cached_permission, None);
    calc.user.set(user("W"));
    assert_eq!(calc.next_lookup(false), Some(Lookup::User { id: "V".to_string() }));
    calc.user.set(user("V"));
    assert_eq!(calc.next_lookup(false), None);
    assert_eq!(calc.resolve(), Ok(Permissions([DEFAULT_PERMISSION_VIEW_ONLY])));
    let mut p = user("P");
    p.privileged = true;
    let mut calc = perms(&p).channel(&direct);
    assert_eq!(calc.next_lookup(false), None);
    assert_eq!(calc.resolve(), Ok(Permissions([GRANT_ALL_SAFE])));
    assert_eq!(calc.cached_permission, None);
    let mut bare = perms(&u);
    assert_eq!(bare.resolve(), Err(Error::InternalError));
}

#[test]
fn channel_permission_for_every_kind() {
    let u = user("U");
    let saved = Channel::SavedMessages { id: "C".to_string(), user: "U".to_string() };
    assert_eq!(
        channel_permission(&u, &saved, None, None, None),
        Ok(PermissionValue(DEFAULT_PERMISSION_SAVED_MESSAGES))
    );
    let direct = Channel::DirectMessage {
        id: "D".to_string(),
        active: true,
        recipients: vec!["U".to_string(), "V".to_string()],
    };
    assert_eq!(channel_permission(&u, &direct, None, None, None), Err(Error::InternalError));
    assert_eq!(
        channel_permission(&u, &direct, None, None, Some(&user("V"))),
        Ok(PermissionValue(DEFAULT_PERMISSION_VIEW_ONLY))
    );
    let text = text_channel(None, vec![]);
    assert_eq!(channel_permission(&u, &text, None, None, None), Err(Error::InternalError));
    let s = server(vec![], VIEW_CHANNEL);
    assert_eq!(
        channel_permission(&u, &text, Some(&s), Some(&member("U", None)), None),
        Ok(PermissionValue(VIEW_CHANNEL))
    );
    assert_eq!(
        channel_permission(&u, &text, Some(&s), None, None),
        Ok(PermissionValue(GRANT_ALL_SAFE))
    );
}

#[test]
fn well_formed_servers_and_channels() {
    assert!(server(vec![], 0).has_unique_roles());
    assert!(server(vec![role("A", 1, 0, 0), role("B", 1, 0, 0)], 0).has_unique_roles());
    assert!(!server(vec![role("A", 1, 0, 0), role("B", 1, 0, 0), role("A", 2, 0, 0)], 0).has_unique_roles());
    let two = Channel::DirectMessage {
        id: "D".to_string(),
        active: true,
        recipients: vec!["U".to_string(), "V".to_string()],
    };
    let three = Channel::DirectMessage {
        id: "D".to_string(),
        active: true,
        recipients: vec!["U".to_string(), "V".to_string(), "W".to_string()],
    };
    assert!(two.is_well_formed());
    assert!(!three.is_well_formed());
    assert!(text_channel(None, vec![]).is_well_formed());
}

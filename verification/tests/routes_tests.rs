use revolt_core::errors::Error;
use revolt_core::models::Channel;
use revolt_core::models::FieldsMember;
use revolt_core::models::File;
use revolt_core::models::Member;
use revolt_core::models::MemberCompositeKey;
use revolt_core::models::PartialMember;
use revolt_core::models::Relationship;
use revolt_core::models::RelationshipStatus;
use revolt_core::models::ServerInvite;
use revolt_core::models::User;
use revolt_core::permissions::Permissions;
use revolt_core::permissions::INVITE_OTHERS;
use revolt_core::permissions::MANAGE_SERVER;
use revolt_core::permissions::VIEW_CHANNEL;
use revolt_core::routes::channels::group_add_member;
use revolt_core::routes::channels::group_remove_member;
use revolt_core::routes::servers::invites_fetch;
use revolt_core::routes::servers::member_edit;
use revolt_core::routes::servers::member_edit::Data;
use revolt_core::routes::user::add_friend;
use revolt_core::routes::user::add_friend_writes;
use revolt_core::routes::user::block_user;
use revolt_core::routes::user::block_user_writes;
use revolt_core::routes::user::dm;
use revolt_core::routes::user::dms;
use revolt_core::routes::user::get_friend;
use revolt_core::routes::user::get_friends;
use revolt_core::routes::user::lookup;
use revolt_core::routes::user::me;
use revolt_core::routes::user::relationship_code;
use revolt_core::routes::user::remove_friend;
use revolt_core::routes::user::remove_friend_writes;
use revolt_core::routes::user::unblock_user;
use revolt_core::routes::user::unblock_user_writes;
use revolt_core::routes::user::user as user_route;
use revolt_core::routes::user::Body;
use revolt_core::routes::user::Conversation;
use revolt_core::routes::user::Entry;
use revolt_core::routes::user::Found;
use revolt_core::routes::user::Friend;
use revolt_core::routes::user::Mutual;
use revolt_core::routes::user::Response;
use revolt_core::routes::user::Side;
use revolt_core::routes::user::Write;

fn user(id: &str) -> User {
    User {
        id: id.to_string(),
        username: format!("user {}", id),
        avatar: None,
        relations: None,
        badges: None,
        status: None,
        profile: None,
        flags: None,
        privileged: false,
        bot: None,
        relationship: None,
        online: None,
    }
}

fn group(owner: &str, recipients: &[&str]) -> Channel {
    Channel::Group {
        id: "G".to_string(),
        name: "group".to_string(),
        owner: owner.to_string(),
        description: None,
        recipients: recipients.iter().map(|r| r.to_string()).collect(),
        permissions: None,
    }
}

fn saved() -> Channel {
    Channel::SavedMessages { id: "C".to_string(), user: "A".to_string() }
}

const TRY_AGAIN: &str = "Failed to commit to database, try again.";

#[test]
fn relationship_codes() {
    assert_eq!(relationship_code(RelationshipStatus::Friend), 0);
    assert_eq!(relationship_code(RelationshipStatus::Outgoing), 1);
    assert_eq!(relationship_code(RelationshipStatus::Incoming), 2);
    assert_eq!(relationship_code(RelationshipStatus::Blocked), 3);
    assert_eq!(relationship_code(RelationshipStatus::BlockedOther), 4);
    assert_eq!(relationship_code(RelationshipStatus::Unrelated), 5);
    assert_eq!(relationship_code(RelationshipStatus::User), 6);
}

#[test]
fn add_friend_route() {
    assert_eq!(add_friend(RelationshipStatus::Friend, 0), Response::BadRequest("Already friends."));
    assert_eq!(add_friend(RelationshipStatus::Outgoing, 0), Response::BadRequest("Already sent a friend request."));
    assert_eq!(add_friend(RelationshipStatus::Blocked, 0), Response::BadRequest("You have blocked this person."));
    assert_eq!(add_friend(RelationshipStatus::BlockedOther, 0), Response::Conflict("You have been blocked by this person."));
    assert_eq!(add_friend(RelationshipStatus::User, 2), Response::BadRequest("You're already friends with yourself, no? c:"));
    assert_eq!(add_friend(RelationshipStatus::Incoming, 0), Response::InternalServerError(TRY_AGAIN));
    assert_eq!(
        add_friend(RelationshipStatus::Incoming, 1),
        Response::InternalServerError("Failed to commit! Try re-adding them as a friend.")
    );
    assert_eq!(add_friend(RelationshipStatus::Incoming, 2), Response::Success(Body::Status(0)));
    assert_eq!(add_friend(RelationshipStatus::Unrelated, 0), Response::InternalServerError(TRY_AGAIN));
    assert_eq!(
        add_friend(RelationshipStatus::Unrelated, 1),
        Response::InternalServerError("Failed to commit! Try re-adding them as a friend.")
    );
    assert_eq!(add_friend(RelationshipStatus::Unrelated, 2), Response::Success(Body::Status(1)));
    assert_eq!(
        add_friend_writes(RelationshipStatus::Incoming),
        vec![
            Write::Assign { of: Side::User, status: RelationshipStatus::Friend },
            Write::Assign { of: Side::Target, status: RelationshipStatus::Friend },
        ]
    );
    assert_eq!(
        add_friend_writes(RelationshipStatus::Unrelated),
        vec![
            Write::Push { of: Side::User, status: RelationshipStatus::Outgoing },
            Write::Push { of: Side::Target, status: RelationshipStatus::Incoming },
        ]
    );
    assert!(add_friend_writes(RelationshipStatus::Friend).is_empty());
    assert!(add_friend_writes(RelationshipStatus::Blocked).is_empty());
}

#[test]
fn remove_friend_route() {
    for status in [RelationshipStatus::Friend, RelationshipStatus::Outgoing, RelationshipStatus::Incoming] {
        assert_eq!(remove_friend(status, 0), Response::InternalServerError(TRY_AGAIN));
        assert_eq!(
            remove_friend(status, 1),
            Response::InternalServerError("Failed to commit! Target remains in same state.")
        );
        assert_eq!(remove_friend(status, 2), Response::Success(Body::Status(5)));
        assert_eq!(
            remove_friend_writes(status),
            vec![Write::Pull { of: Side::User }, Write::Pull { of: Side::Target }]
        );
    }
    for status in [RelationshipStatus::Blocked, RelationshipStatus::BlockedOther, RelationshipStatus::Unrelated, RelationshipStatus::User] {
        assert_eq!(remove_friend(status, 2), Response::BadRequest("This has no effect."));
        assert!(remove_friend_writes(status).is_empty());
    }
}

#[test]
fn block_user_route() {
    for status in [RelationshipStatus::Friend, RelationshipStatus::Incoming, RelationshipStatus::Outgoing] {
        assert_eq!(block_user(status, 0), Response::InternalServerError(TRY_AGAIN));
        assert_eq!(
            block_user(status, 1),
            Response::InternalServerError(
                "Failed to commit! Try blocking the user again, remove it first."
            )
        );
        assert_eq!(block_user(status, 2), Response::Success(Body::Status(3)));
        assert_eq!(
            block_user_writes(status),
            vec![
                Write::Assign { of: Side::User, status: RelationshipStatus::Blocked },
                Write::Assign { of: Side::Target, status: RelationshipStatus::BlockedOther },
            ]
        );
    }
    assert_eq!(block_user(RelationshipStatus::Blocked, 0), Response::BadRequest("Already blocked this person."));
    assert_eq!(block_user(RelationshipStatus::BlockedOther, 0), Response::InternalServerError(TRY_AGAIN));
    assert_eq!(block_user(RelationshipStatus::BlockedOther, 1), Response::Success(Body::Status(3)));
    assert_eq!(block_user_writes(RelationshipStatus::BlockedOther), vec![Write::Assign { of: Side::User, status: RelationshipStatus::Blocked }]);
    for status in [RelationshipStatus::User, RelationshipStatus::Unrelated] {
        assert_eq!(block_user(status, 1), Response::BadRequest("This has no effect."));
        assert!(block_user_writes(status).is_empty());
    }
}

#[test]
fn unblock_user_route() {
    assert_eq!(unblock_user(RelationshipStatus::Blocked, RelationshipStatus::Blocked, 0), Response::InternalServerError(TRY_AGAIN));
    assert_eq!(unblock_user(RelationshipStatus::Blocked, RelationshipStatus::Blocked, 1), Response::Success(Body::Status(4)));
    assert_eq!(
        unblock_user_writes(RelationshipStatus::Blocked, RelationshipStatus::Blocked),
        vec![Write::Assign { of: Side::User, status: RelationshipStatus::BlockedOther }]
    );
    assert_eq!(unblock_user(RelationshipStatus::Blocked, RelationshipStatus::BlockedOther, 0), Response::InternalServerError(TRY_AGAIN));
    assert_eq!(
        unblock_user(RelationshipStatus::Blocked, RelationshipStatus::BlockedOther, 1),
        Response::InternalServerError("Failed to commit! Target remains in same state.")
    );
    assert_eq!(unblock_user(RelationshipStatus::Blocked, RelationshipStatus::BlockedOther, 2), Response::Success(Body::Status(5)));
    assert_eq!(
        unblock_user_writes(RelationshipStatus::Blocked, RelationshipStatus::BlockedOther),
        vec![Write::Pull { of: Side::User }, Write::Pull { of: Side::Target }]
    );
    assert_eq!(
        unblock_user(RelationshipStatus::Blocked, RelationshipStatus::Friend, 0),
        Response::InternalServerError("Relations of the two users disagree.")
    );
    assert!(unblock_user_writes(RelationshipStatus::Blocked, RelationshipStatus::Friend).is_empty());
    assert_eq!(
        unblock_user(RelationshipStatus::BlockedOther, RelationshipStatus::Blocked, 0),
        Response::BadRequest("Cannot remove block by other user.")
    );
    for status in [RelationshipStatus::Friend, RelationshipStatus::Incoming, RelationshipStatus::Outgoing, RelationshipStatus::User, RelationshipStatus::Unrelated] {
        assert_eq!(unblock_user(status, RelationshipStatus::Blocked, 0), Response::BadRequest("This has no effect."));
        assert!(unblock_user_writes(status, RelationshipStatus::Blocked).is_empty());
    }
}

#[test]
fn user_routes() {
    let mut a = user("A");
    a.relations = Some(vec![
        Relationship { id: "B".to_string(), status: RelationshipStatus::Incoming },
        Relationship { id: "C".to_string(), status: RelationshipStatus::Blocked },
    ]);
    let b = user("B");
    let mutual = Mutual { guilds: vec!["g".to_string()], friends: vec![], groups: vec![] };
    assert_eq!(
        user_route(&a, &b, mutual.clone()),
        Response::Success(Body::Profile {
            id: "B".to_string(),
            username: "user B".to_string(),
            relationship: 2,
            mutual,
        })
    );
    assert_eq!(get_friend(&a, &b), Response::Success(Body::Status(2)));
    assert_eq!(get_friend(&a, &user("Z")), Response::Success(Body::Status(5)));
    assert_eq!(get_friend(&a, &a), Response::Success(Body::Status(0)));
    assert_eq!(
        get_friends(&a.relations),
        Response::Success(Body::Friends(vec![
            Friend { id: "B".to_string(), status: 2 },
            Friend { id: "C".to_string(), status: 3 },
        ]))
    );
    assert_eq!(get_friends(&None), Response::Success(Body::Friends(vec![])));
    assert_eq!(
        me(&a, Some("a@example.com".to_string()), true),
        Response::Success(Body::Account {
            id: "A".to_string(),
            username: "user A".to_string(),
            email: "a@example.com".to_string(),
            verified: true,
        })
    );
    assert_eq!(
        me(&a, None, false),
        Response::InternalServerError("Failed to fetch information from database.")
    );
    assert_eq!(
        lookup(
            &a,
            Some(vec![
                Found { id: "C".to_string(), username: "cee".to_string() },
                Found { id: "Q".to_string(), username: "cue".to_string() },
            ])
        ),
        Response::Success(Body::Users(vec![
            Entry { id: "C".to_string(), username: "cee".to_string(), relationship: 3 },
            Entry { id: "Q".to_string(), username: "cue".to_string(), relationship: 5 },
        ]))
    );
    assert_eq!(lookup(&a, None), Response::InternalServerError("Failed database query."));
}

#[test]
fn conversation_routes() {
    let direct = Channel::DirectMessage {
        id: "D".to_string(),
        active: true,
        recipients: vec!["A".to_string(), "B".to_string()],
    };
    let described = Channel::Group {
        id: "H".to_string(),
        name: "named".to_string(),
        owner: "A".to_string(),
        description: Some("about".to_string()),
        recipients: vec!["A".to_string()],
        permissions: Some(1),
    };
    assert_eq!(
        dms(Some(vec![direct, saved(), group("A", &["A", "B"]), described])),
        Response::Success(Body::Channels(vec![
            Conversation::Direct { id: "D".to_string(), recipients: vec!["A".to_string(), "B".to_string()] },
            Conversation::Group {
                id: "G".to_string(),
                recipients: vec!["A".to_string(), "B".to_string()],
                name: "group".to_string(),
                owner: "A".to_string(),
                description: "".to_string(),
            },
            Conversation::Group {
                id: "H".to_string(),
                recipients: vec!["A".to_string()],
                name: "named".to_string(),
                owner: "A".to_string(),
                description: "about".to_string(),
            },
        ]))
    );
    assert_eq!(dms(Some(vec![])), Response::Success(Body::Channels(vec![])));
    assert_eq!(dms(None), Response::InternalServerError("Failed database query."));
    assert_eq!(dm(Err(()), None), Response::InternalServerError("Failed server query."));
    assert_eq!(
        dm(Ok(Some("D".to_string())), None),
        Response::Success(Body::Channel { id: "D".to_string() })
    );
    assert_eq!(
        dm(Ok(None), Some("N".to_string())),
        Response::Success(Body::Channel { id: "N".to_string() })
    );
    assert_eq!(dm(Ok(None), None), Response::InternalServerError("Failed to create new channel."));
}

#[test]
fn adding_a_member_to_a_group() {
    let may = Permissions([INVITE_OTHERS]);
    let may_not = Permissions([!INVITE_OTHERS]);
    assert_eq!(group_add_member::req(&may, &group("A", &["A"])), Ok("G".to_string()));
    assert_eq!(
        group_add_member::req(&may_not, &group("A", &["A"])),
        Err(Error::MissingPermission { permission: INVITE_OTHERS })
    );
    assert_eq!(group_add_member::req(&may, &saved()), Err(Error::InvalidOperation));
    assert_eq!(
        group_add_member::req(&may_not, &saved()),
        Err(Error::MissingPermission { permission: 1 << 25 })
    );
}

#[test]
fn removing_a_member_from_a_group() {
    let g = group("A", &["A", "B"]);
    assert_eq!(group_remove_member::req(&user("A"), &g, &user("B")), Ok(()));
    assert_eq!(
        group_remove_member::req(&user("B"), &g, &user("A")),
        Err(Error::MissingPermission { permission: 0 })
    );
    assert_eq!(group_remove_member::req(&user("A"), &g, &user("A")), Err(Error::CannotRemoveYourself));
    assert_eq!(group_remove_member::req(&user("A"), &g, &user("Z")), Err(Error::NotInGroup));
    assert_eq!(group_remove_member::req(&user("A"), &saved(), &user("B")), Err(Error::InvalidOperation));
}

fn invite(code: &str) -> ServerInvite {
    ServerInvite { code: code.to_string(), creator: "A".to_string(), channel: "C".to_string() }
}

#[test]
fn fetching_invites() {
    let may = Permissions([MANAGE_SERVER | VIEW_CHANNEL]);
    assert_eq!(
        invites_fetch::req(&may, vec![Some(invite("a")), None, Some(invite("b")), None]),
        Ok(vec![invite("a"), invite("b")])
    );
    assert_eq!(invites_fetch::req(&may, vec![]), Ok(vec![]));
    assert_eq!(
        invites_fetch::req(&Permissions([VIEW_CHANNEL]), vec![Some(invite("a"))]),
        Err(Error::MissingPermission { permission: MANAGE_SERVER })
    );
}

fn member() -> Member {
    Member {
        id: MemberCompositeKey { server: "S".to_string(), user: "U".to_string() },
        nickname: Some("nick".to_string()),
        avatar: Some(File { id: "old".to_string(), tag: "avatars".to_string(), filename: "o.png".to_string() }),
        roles: Some(vec!["r".to_string()]),
    }
}

fn data() -> Data {
    Data { nickname: None, avatar: None, roles: None, remove: None }
}

#[test]
fn member_edit_validation() {
    assert_eq!(data().validate(), Ok(()));
    assert_eq!(Data { nickname: Some("".to_string()), ..data() }.validate(), Err(Error::FailedValidation));
    assert_eq!(Data { nickname: Some("a".to_string()), ..data() }.validate(), Ok(()));
    assert_eq!(Data { nickname: Some("x".repeat(32)), ..data() }.validate(), Ok(()));
    assert_eq!(Data { nickname: Some("x".repeat(33)), ..data() }.validate(), Err(Error::FailedValidation));
    assert_eq!(Data { nickname: Some("\u{e9}".repeat(32)), ..data() }.validate(), Ok(()));
    assert_eq!(Data { remove: Some(vec![]), ..data() }.validate(), Err(Error::FailedValidation));
    assert_eq!(Data { remove: Some(vec![FieldsMember::Avatar]), ..data() }.validate(), Ok(()));
    let see = Permissions([VIEW_CHANNEL]);
    let blind = Permissions([0]);
    assert_eq!(member_edit::authorise(&see, &data()), Ok(()));
    assert_eq!(member_edit::authorise(&blind, &data()), Err(Error::NotFound));
    assert_eq!(
        member_edit::authorise(&blind, &Data { remove: Some(vec![]), ..data() }),
        Err(Error::FailedValidation)
    );
}

#[test]
fn member_edit_applies_the_request() {
    let see = Permissions([VIEW_CHANNEL]);
    let fresh = File { id: "new".to_string(), tag: "avatars".to_string(), filename: "n.png".to_string() };
    let request = Data {
        nickname: Some("neo".to_string()),
        avatar: Some("new".to_string()),
        roles: Some(vec!["a".to_string(), "b".to_string()]),
        remove: Some(vec![FieldsMember::Avatar]),
    };
    let edit = member_edit::req(&see, member(), request, Some(fresh.clone())).unwrap();
    assert_eq!(edit.member.id, member().id);
    assert_eq!(edit.member.nickname, Some("neo".to_string()));
    assert_eq!(edit.member.avatar, Some(fresh.clone()));
    assert_eq!(edit.member.roles, Some(vec!["a".to_string(), "b".to_string()]));
    assert_eq!(
        edit.partial,
        PartialMember {
            nickname: Some("neo".to_string()),
            avatar: Some(fresh),
            roles: Some(vec!["a".to_string(), "b".to_string()]),
        }
    );
    assert_eq!(edit.remove, vec![FieldsMember::Avatar]);
    assert_eq!(edit.deleted_avatar, Some("old".to_string()));
}

#[test]
fn member_edit_clears_fields() {
    let see = Permissions([VIEW_CHANNEL]);
    let request = Data { remove: Some(vec![FieldsMember::Nickname, FieldsMember::Avatar]), ..data() };
    let edit = member_edit::req(&see, member(), request, None).unwrap();
    assert_eq!(edit.member.nickname, None);
    assert_eq!(edit.member.avatar, None);
    assert_eq!(edit.member.roles, member().roles);
    assert_eq!(edit.partial, PartialMember { nickname: None, avatar: None, roles: None });
    assert_eq!(edit.deleted_avatar, Some("old".to_string()));
    let only_nick = Data { remove: Some(vec![FieldsMember::Nickname]), ..data() };
    let edit = member_edit::req(&see, member(), only_nick, None).unwrap();
    assert_eq!(edit.member.avatar, member().avatar);
    assert_eq!(edit.deleted_avatar, None);
    let unchanged = member_edit::req(&see, member(), data(), None).unwrap();
    assert_eq!(unchanged.member, member());
    assert!(unchanged.remove.is_empty());
    assert_eq!(member_edit::req(&Permissions([0]), member(), data(), None), Err(Error::NotFound));
    let mut m = member();
    m.remove(&FieldsMember::Nickname);
    assert_eq!(m.nickname, None);
    m.remove(&FieldsMember::Avatar);
    assert_eq!(m.avatar, None);
    assert!(member_edit::has_field(&vec![FieldsMember::Avatar], FieldsMember::Avatar));
    assert!(!member_edit::has_field(&vec![FieldsMember::Avatar], FieldsMember::Nickname));
    assert_eq!(member_edit::copy_texts(&vec!["a".to_string()]), vec!["a".to_string()]);
}

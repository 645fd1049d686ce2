use indexmap::IndexSet;
use revolt_core::errors::Error;
use revolt_core::events::EventKind;
use revolt_core::events::EventV1;
use revolt_core::ids::created_at;
use revolt_core::models::Channel;
use revolt_core::models::Interactions;
use revolt_core::models::Member;
use revolt_core::models::MemberCompositeKey;
use revolt_core::models::PartialMember;
use revolt_core::models::PartialUser;
use revolt_core::models::RelationshipStatus;
use revolt_core::models::SystemMessage;
use revolt_core::models::User;
use revolt_core::topics::Topic;

fn reactions(items: &[&str]) -> IndexSet<String> {
    let mut set = IndexSet::new();
    for item in items {
        set.insert(item.to_string());
    }
    set
}

#[test]
fn unrestricted_interactions_allow_any_emoji() {
    let open = Interactions { reactions: Some(reactions(&["a"])), restrict_reactions: false };
    assert!(open.can_use("a"));
    assert!(open.can_use("zzz"));
    assert!(Interactions::default().can_use("a"));
}

#[test]
fn restricted_interactions_allow_only_the_listed_emoji() {
    let closed = Interactions { reactions: Some(reactions(&["a", "b"])), restrict_reactions: true };
    assert!(closed.can_use("a"));
    assert!(closed.can_use("b"));
    assert!(!closed.can_use("c"));
    assert!(!closed.can_use(""));
    let nothing = Interactions { reactions: None, restrict_reactions: true };
    assert!(!nothing.can_use("a"));
    let empty = Interactions { reactions: Some(IndexSet::new()), restrict_reactions: true };
    assert!(!empty.can_use("a"));
}

#[test]
fn is_default_holds_of_the_default_only() {
    assert!(Interactions::default().is_default());
    assert!(!Interactions { reactions: None, restrict_reactions: true }.is_default());
    assert!(!Interactions { reactions: Some(IndexSet::new()), restrict_reactions: false }.is_default());
}

#[test]
fn system_message_becomes_a_message_of_the_system_author() {
    let system = SystemMessage::UserJoined { id: "U".to_string() };
    let message = system.clone().into_message("C".to_string());
    assert_eq!(message.channel, "C");
    assert_eq!(message.author, "00000000000000000000000000");
    assert_eq!(message.system, Some(system));
    assert_eq!(message.id.len(), 26);
    assert!(created_at(&message.id).is_some());
    assert_eq!(message.nonce, None);
    assert_eq!(message.content, None);
    assert_eq!(message.attachments, None);
    assert_eq!(message.edited, None);
    assert_eq!(message.mentions, None);
    assert_eq!(message.replies, None);
    assert!(message.reactions.is_empty());
    assert!(message.interactions.is_default());
    assert_eq!(message.masquerade, None);
    assert_eq!(message.clone(), message);
}

#[test]
fn system_messages_get_different_ids() {
    let a = SystemMessage::Text { content: "x".to_string() }.into_message("C".to_string());
    let b = SystemMessage::Text { content: "x".to_string() }.into_message("C".to_string());
    assert_ne!(a.id, b.id);
}

#[test]
fn system_message_with_a_given_id() {
    let system = SystemMessage::ChannelRenamed { name: "n".to_string(), by: "U".to_string() };
    let message = system.clone().into_message_with_id("ID".to_string(), "C".to_string());
    assert_eq!(message.id, "ID");
    assert_eq!(message.channel, "C");
    assert_eq!(message.system, Some(system));
    assert_eq!(message.author, "00000000000000000000000000");
}

fn sample() -> EventV1 {
    EventV1::ChannelDelete { id: "C".to_string() }
}

#[test]
fn events_are_published_under_their_topics() {
    let p = sample().p("C".to_string());
    assert_eq!(p.topics, vec![Topic::Channel("C".to_string())]);
    assert_eq!(p.event, sample());
    let p = sample().private("U".to_string());
    assert_eq!(p.topics, vec![Topic::User("U".to_string())]);
    assert_eq!(p.event, sample());
    let p = sample().server("S".to_string());
    assert_eq!(p.topics, vec![Topic::Server("S".to_string())]);
    let memberships: Vec<Member> = ["S1", "S2"]
        .iter()
        .map(|s| Member {
            id: MemberCompositeKey { server: s.to_string(), user: "U".to_string() },
            nickname: None,
            avatar: None,
            roles: None,
        })
        .collect();
    let p = sample().p_user("U".to_string(), &memberships);
    assert_eq!(
        p.topics,
        vec![
            Topic::User("U".to_string()),
            Topic::Server("S1".to_string()),
            Topic::Server("S2".to_string()),
        ]
    );
    assert_eq!(p.event, sample());
    let p = sample().p_user("U".to_string(), &vec![]);
    assert_eq!(p.topics, vec![Topic::User("U".to_string())]);
}

#[test]
fn sending_a_message_publishes_it_to_its_channel() {
    let message = SystemMessage::UserLeft { id: "U".to_string() }
        .into_message_with_id("M".to_string(), "C".to_string());
    let p = message.clone().send_without_notifications(Ok(())).unwrap();
    assert_eq!(p.topics, vec![Topic::Channel("C".to_string())]);
    assert_eq!(p.event, EventV1::Message(message.clone()));
    let failed = message.send_without_notifications(Err(Error::NotFound));
    assert_eq!(failed, Err(Error::NotFound));
}

#[test]
fn every_event_has_its_kind() {
    let user = User {
        id: "U".to_string(),
        username: "u".to_string(),
        avatar: None,
        relations: None,
        badges: None,
        status: None,
        profile: None,
        flags: None,
        privileged: false,
        bot: None,
        relationship: None,
        online: None,
    };
    let partial = PartialUser {
        username: None,
        avatar: None,
        badges: None,
        status: None,
        profile: None,
        flags: None,
        online: None,
    };
    let s = |x: &str| x.to_string();
    let message = SystemMessage::Text { content: s("t") }.into_message_with_id(s("M"), s("C"));
    assert_eq!(EventV1::Message(message).kind(), EventKind::Message);
    assert_eq!(EventV1::MessageDelete { id: s("m"), channel: s("c") }.kind(), EventKind::MessageDelete);
    assert_eq!(
        EventV1::ChannelCreate(Channel::SavedMessages { id: s("c"), user: s("u") }).kind(),
        EventKind::ChannelCreate
    );
    assert_eq!(EventV1::ChannelDelete { id: s("c") }.kind(), EventKind::ChannelDelete);
    assert_eq!(EventV1::ChannelGroupJoin { id: s("c"), user: s("u") }.kind(), EventKind::ChannelGroupJoin);
    assert_eq!(EventV1::ChannelGroupLeave { id: s("c"), user: s("u") }.kind(), EventKind::ChannelGroupLeave);
    assert_eq!(EventV1::ServerDelete { id: s("s") }.kind(), EventKind::ServerDelete);
    assert_eq!(
        EventV1::ServerMemberUpdate {
            id: MemberCompositeKey { server: s("s"), user: s("u") },
            data: PartialMember { nickname: None, avatar: None, roles: None },
            clear: vec![],
        }
        .kind(),
        EventKind::ServerMemberUpdate
    );
    assert_eq!(EventV1::ServerMemberJoin { id: s("s"), user: s("u") }.kind(), EventKind::ServerMemberJoin);
    assert_eq!(EventV1::ServerMemberLeave { id: s("s"), user: s("u") }.kind(), EventKind::ServerMemberLeave);
    assert_eq!(EventV1::ServerRoleDelete { id: s("s"), role_id: s("r") }.kind(), EventKind::ServerRoleDelete);
    assert_eq!(EventV1::UserUpdate { id: s("u"), data: partial, clear: vec![] }.kind(), EventKind::UserUpdate);
    assert_eq!(
        EventV1::UserRelationship { id: s("u"), user, status: RelationshipStatus::Friend }.kind(),
        EventKind::UserRelationship
    );
}

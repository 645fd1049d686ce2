//! Requests on users and on the relationships between them.
//!
//! A request that changes a relationship writes to the records of both
//! users, one after the other. The functions here name the writes for each
//! relationship, and the answer for each number of writes that went through.

use crate::models::Channel;
use crate::models::Relationship;
use crate::models::RelationshipStatus;
use crate::models::User;
use crate::users::get_relationship;
use crate::users::relationship_between;
use vstd::prelude::*;

verus! {

/// What is sent back with a request that succeeded.
#[derive(Clone, Debug, PartialEq, Eq)]
pub enum Body {
    /// The status of a relationship, as its number.
    Status(u8),
    /// Another user, and how the one who asks stands to them.
    Profile { id: String, username: String, relationship: u8, mutual: Mutual },
    /// The account of the one who asks.
    Account { id: String, username: String, email: String, verified: bool },
    /// The users that a search found.
    Users(Vec<Entry>),
    /// The relations of the one who asks.
    Friends(Vec<Friend>),
    /// The direct message channels and groups of the one who asks.
    Channels(Vec<Conversation>),
    /// One channel.
    Channel { id: String },
}

/// The answer to a request.
#[derive(Clone, Debug, PartialEq, Eq)]
pub enum Response {
    /// The request succeeded.
    Success(Body),
    /// The request makes no sense as things stand.
    BadRequest(&'static str),
    /// The request is at odds with what another user did.
    Conflict(&'static str),
    /// Storage failed.
    InternalServerError(&'static str),
}

/// What two users have in common.
#[derive(Clone, Debug, PartialEq, Eq)]
pub struct Mutual {
    pub guilds: Vec<String>,
    pub friends: Vec<String>,
    pub groups: Vec<String>,
}

/// A user that a search found.
#[derive(Clone, Debug, PartialEq, Eq)]
pub struct Entry {
    pub id: String,
    pub username: String,
    pub relationship: u8,
}

/// One relation of a user.
#[derive(Clone, Debug, PartialEq, Eq)]
pub struct Friend {
    pub id: String,
    pub status: u8,
}

/// A user as a search finds them.
#[derive(Clone, Debug, PartialEq, Eq)]
pub struct Found {
    pub id: String,
    pub username: String,
}

/// A direct message channel or a group, as it is listed.
#[derive(Clone, Debug, PartialEq, Eq)]
pub enum Conversation {
    Direct { id: String, recipients: Vec<String> },
    Group { id: String, recipients: Vec<String>, name: String, owner: String, description: String },
}

/// Whose record a write changes.
#[derive(Clone, Copy, Debug, PartialEq, Eq, Structural)]
pub enum Side {
    /// The record of the one who asks.
    User,
    /// The record of the other user.
    Target,
}

/// One write to the relations of a user.
#[derive(Clone, Copy, Debug, PartialEq, Eq, Structural)]
pub enum Write {
    /// Sets the status of the entry for the other side.
    Assign { of: Side, status: RelationshipStatus },
    /// Adds an entry for the other side.
    Push { of: Side, status: RelationshipStatus },
    /// Removes the entry for the other side.
    Pull { of: Side },
}

/// The number that stands for a relationship status.
pub open spec fn code_of(status: RelationshipStatus) -> u8 {
    match status {
        RelationshipStatus::Friend => 0,
        RelationshipStatus::Outgoing => 1,
        RelationshipStatus::Incoming => 2,
        RelationshipStatus::Blocked => 3,
        RelationshipStatus::BlockedOther => 4,
        RelationshipStatus::Unrelated => 5,
        RelationshipStatus::User => 6,
    }
}

/// The number that stands for a relationship status.
pub fn relationship_code(status: RelationshipStatus) -> (r: u8)
    ensures
        r == code_of(status),
{
    match status {
        RelationshipStatus::Friend => 0,
        RelationshipStatus::Outgoing => 1,
        RelationshipStatus::Incoming => 2,
        RelationshipStatus::Blocked => 3,
        RelationshipStatus::BlockedOther => 4,
        RelationshipStatus::Unrelated => 5,
        RelationshipStatus::User => 6,
    }
}

/// The answer to a change that takes two writes: success with the status
/// reached where both went through, else what failed.
pub open spec fn after_two_writes(
    committed: usize,
    reached: RelationshipStatus,
    second_failed: &'static str,
) -> Response {
    if committed == 0 {
        Response::InternalServerError("Failed to commit to database, try again.")
    } else if committed == 1 {
        Response::InternalServerError(second_failed)
    } else {
        Response::Success(Body::Status(code_of(reached)))
    }
}

/// The answer to a change that takes one write.
pub open spec fn after_one_write(committed: usize, reached: RelationshipStatus) -> Response {
    if committed == 0 {
        Response::InternalServerError("Failed to commit to database, try again.")
    } else {
        Response::Success(Body::Status(code_of(reached)))
    }
}

/// The writes of a friend request, given how the one who asks stands to the
/// other.
pub open spec fn friend_request_writes(status: RelationshipStatus) -> Seq<Write> {
    match status {
        RelationshipStatus::Incoming => seq![
            Write::Assign { of: Side::User, status: RelationshipStatus::Friend },
            Write::Assign { of: Side::Target, status: RelationshipStatus::Friend },
        ],
        RelationshipStatus::Unrelated => seq![
            Write::Push { of: Side::User, status: RelationshipStatus::Outgoing },
            Write::Push { of: Side::Target, status: RelationshipStatus::Incoming },
        ],
        _ => Seq::empty(),
    }
}

/// The answer to a friend request, given how the one who asks stands to the
/// other and how many of the writes went through.
pub open spec fn friend_request_answer(status: RelationshipStatus, committed: usize) -> Response {
    match status {
        RelationshipStatus::Friend => Response::BadRequest("Already friends."),
        RelationshipStatus::Outgoing => Response::BadRequest("Already sent a friend request."),
        RelationshipStatus::Incoming => after_two_writes(
            committed,
            RelationshipStatus::Friend,
            "Failed to commit! Try re-adding them as a friend.",
        ),
        RelationshipStatus::Blocked => Response::BadRequest("You have blocked this person."),
        RelationshipStatus::BlockedOther => Response::Conflict(
            "You have been blocked by this person.",
        ),
        RelationshipStatus::Unrelated => after_two_writes(
            committed,
            RelationshipStatus::Outgoing,
            "Failed to commit! Try re-adding them as a friend.",
        ),
        RelationshipStatus::User => Response::BadRequest(
            "You're already friends with yourself, no? c:",
        ),
    }
}

/// The writes that remove a friend or a pending request.
pub open spec fn friend_removal_writes(status: RelationshipStatus) -> Seq<Write> {
    match status {
        RelationshipStatus::Friend | RelationshipStatus::Outgoing | RelationshipStatus::Incoming => seq![
            Write::Pull { of: Side::User },
            Write::Pull { of: Side::Target },
        ],
        _ => Seq::empty(),
    }
}

/// The answer to the removal of a friend or of a pending request.
pub open spec fn friend_removal_answer(status: RelationshipStatus, committed: usize) -> Response {
    match status {
        RelationshipStatus::Friend | RelationshipStatus::Outgoing | RelationshipStatus::Incoming => after_two_writes(
            committed,
            RelationshipStatus::Unrelated,
            "Failed to commit! Target remains in same state.",
        ),
        _ => Response::BadRequest("This has no effect."),
    }
}

/// The writes that block a user.
pub open spec fn block_writes(status: RelationshipStatus) -> Seq<Write> {
    match status {
        RelationshipStatus::Friend | RelationshipStatus::Incoming | RelationshipStatus::Outgoing => seq![
            Write::Assign { of: Side::User, status: RelationshipStatus::Blocked },
            Write::Assign { of: Side::Target, status: RelationshipStatus::BlockedOther },
        ],
        RelationshipStatus::BlockedOther => seq![
            Write::Assign { of: Side::User, status: RelationshipStatus::Blocked },
        ],
        _ => Seq::empty(),
    }
}

/// The answer to a request to block a user.
pub open spec fn block_answer(status: RelationshipStatus, committed: usize) -> Response {
    match status {
        RelationshipStatus::Friend | RelationshipStatus::Incoming | RelationshipStatus::Outgoing => after_two_writes(
            committed,
            RelationshipStatus::Blocked,
            "Failed to commit! Try blocking the user again, remove it first.",
        ),
        RelationshipStatus::Blocked => Response::BadRequest("Already blocked this person."),
        RelationshipStatus::BlockedOther => after_one_write(committed, RelationshipStatus::Blocked),
        _ => Response::BadRequest("This has no effect."),
    }
}

/// The writes that unblock a user, given how each side stands to the other.
pub open spec fn unblock_writes(status: RelationshipStatus, reverse: RelationshipStatus) -> Seq<
    Write,
> {
    match status {
        RelationshipStatus::Blocked => match reverse {
            RelationshipStatus::Blocked => seq![
                Write::Assign { of: Side::User, status: RelationshipStatus::BlockedOther },
            ],
            RelationshipStatus::BlockedOther => seq![
                Write::Pull { of: Side::User },
                Write::Pull { of: Side::Target },
            ],
            _ => Seq::empty(),
        },
        _ => Seq::empty(),
    }
}

/// The answer to a request to unblock a user. Records of the two users that
/// contradict each other are reported as a failure of storage.
pub open spec fn unblock_answer(
    status: RelationshipStatus,
    reverse: RelationshipStatus,
    committed: usize,
) -> Response {
    match status {
        RelationshipStatus::Blocked => match reverse {
            RelationshipStatus::Blocked => after_one_write(
                committed,
                RelationshipStatus::BlockedOther,
            ),
            RelationshipStatus::BlockedOther => after_two_writes(
                committed,
                RelationshipStatus::Unrelated,
                "Failed to commit! Target remains in same state.",
            ),
            _ => Response::InternalServerError("Relations of the two users disagree."),
        },
        RelationshipStatus::BlockedOther => Response::BadRequest(
            "Cannot remove block by other user.",
        ),
        _ => Response::BadRequest("This has no effect."),
    }
}

/// The answer to a change that takes two writes.
fn two_writes(committed: usize, reached: RelationshipStatus, second_failed: &'static str) -> (r:
    Response)
    ensures
        r == after_two_writes(committed, reached, second_failed),
{
    if committed == 0 {
        Response::InternalServerError("Failed to commit to database, try again.")
    } else if committed == 1 {
        Response::InternalServerError(second_failed)
    } else {
        Response::Success(Body::Status(relationship_code(reached)))
    }
}

/// The answer to a change that takes one write.
fn one_write(committed: usize, reached: RelationshipStatus) -> (r: Response)
    ensures
        r == after_one_write(committed, reached),
{
    if committed == 0 {
        Response::InternalServerError("Failed to commit to database, try again.")
    } else {
        Response::Success(Body::Status(relationship_code(reached)))
    }
}

/// The writes of a friend request, in the order in which they are made.
pub fn add_friend_writes(status: RelationshipStatus) -> (r: Vec<Write>)
    ensures
        r@ == friend_request_writes(status),
{
    let mut out: Vec<Write> = Vec::new();
    match status {
        RelationshipStatus::Incoming => {
            out.push(Write::Assign { of: Side::User, status: RelationshipStatus::Friend });
            out.push(Write::Assign { of: Side::Target, status: RelationshipStatus::Friend });
        },
        RelationshipStatus::Unrelated => {
            out.push(Write::Push { of: Side::User, status: RelationshipStatus::Outgoing });
            out.push(Write::Push { of: Side::Target, status: RelationshipStatus::Incoming });
        },
        _ => {},
    }
    proof {
        assert(out@ =~= friend_request_writes(status));
    }
    out
}

/// Answers a friend request: it accepts an incoming request, sends one to
/// a stranger, and is refused otherwise. `committed` is the number of the
/// request's writes that went through.
pub fn add_friend(status: RelationshipStatus, committed: usize) -> (r: Response)
    ensures
        r == friend_request_answer(status, committed),
{
    match status {
        RelationshipStatus::Friend => Response::BadRequest("Already friends."),
        RelationshipStatus::Outgoing => Response::BadRequest("Already sent a friend request."),
        RelationshipStatus::Incoming => two_writes(
            committed,
            RelationshipStatus::Friend,
            "Failed to commit! Try re-adding them as a friend.",
        ),
        RelationshipStatus::Blocked => Response::BadRequest("You have blocked this person."),
        RelationshipStatus::BlockedOther => Response::Conflict(
            "You have been blocked by this person.",
        ),
        RelationshipStatus::Unrelated => two_writes(
            committed,
            RelationshipStatus::Outgoing,
            "Failed to commit! Try re-adding them as a friend.",
        ),
        RelationshipStatus::User => Response::BadRequest(
            "You're already friends with yourself, no? c:",
        ),
    }
}

/// The writes that remove a friend or a pending request.
pub fn remove_friend_writes(status: RelationshipStatus) -> (r: Vec<Write>)
    ensures
        r@ == friend_removal_writes(status),
{
    let mut out: Vec<Write> = Vec::new();
    match status {
        RelationshipStatus::Friend | RelationshipStatus::Outgoing | RelationshipStatus::Incoming => {
            out.push(Write::Pull { of: Side::User });
            out.push(Write::Pull { of: Side::Target });
        },
        _ => {},
    }
    proof {
        assert(out@ =~= friend_removal_writes(status));
    }
    out
}

/// Answers the removal of a friend or of a pending request.
pub fn remove_friend(status: RelationshipStatus, committed: usize) -> (r: Response)
    ensures
        r == friend_removal_answer(status, committed),
{
    match status {
        RelationshipStatus::Friend | RelationshipStatus::Outgoing | RelationshipStatus::Incoming => two_writes(
            committed,
            RelationshipStatus::Unrelated,
            "Failed to commit! Target remains in same state.",
        ),
        _ => Response::BadRequest("This has no effect."),
    }
}

/// The writes that block a user.
pub fn block_user_writes(status: RelationshipStatus) -> (r: Vec<Write>)
    ensures
        r@ == block_writes(status),
{
    let mut out: Vec<Write> = Vec::new();
    match status {
        RelationshipStatus::Friend | RelationshipStatus::Incoming | RelationshipStatus::Outgoing => {
            out.push(Write::Assign { of: Side::User, status: RelationshipStatus::Blocked });
            out.push(Write::Assign { of: Side::Target, status: RelationshipStatus::BlockedOther });
        },
        RelationshipStatus::BlockedOther => {
            out.push(Write::Assign { of: Side::User, status: RelationshipStatus::Blocked });
        },
        _ => {},
    }
    proof {
        assert(out@ =~= block_writes(status));
    }
    out
}

/// Answers a request to block a user.
pub fn block_user(status: RelationshipStatus, committed: usize) -> (r: Response)
    ensures
        r == block_answer(status, committed),
{
    match status {
        RelationshipStatus::Friend | RelationshipStatus::Incoming | RelationshipStatus::Outgoing => two_writes(
            committed,
            RelationshipStatus::Blocked,
            "Failed to commit! Try blocking the user again, remove it first.",
        ),
        RelationshipStatus::Blocked => Response::BadRequest("Already blocked this person."),
        RelationshipStatus::BlockedOther => one_write(committed, RelationshipStatus::Blocked),
        _ => Response::BadRequest("This has no effect."),
    }
}

/// The writes that unblock a user.
pub fn unblock_user_writes(status: RelationshipStatus, reverse: RelationshipStatus) -> (r: Vec<
    Write,
>)
    ensures
        r@ == unblock_writes(status, reverse),
{
    let mut out: Vec<Write> = Vec::new();
    match status {
        RelationshipStatus::Blocked => match reverse {
            RelationshipStatus::Blocked => {
                out.push(Write::Assign { of: Side::User, status: RelationshipStatus::BlockedOther });
            },
            RelationshipStatus::BlockedOther => {
                out.push(Write::Pull { of: Side::User });
                out.push(Write::Pull { of: Side::Target });
            },
            _ => {},
        },
        _ => {},
    }
    proof {
        assert(out@ =~= unblock_writes(status, reverse));
    }
    out
}

/// Answers a request to unblock a user.
pub fn unblock_user(status: RelationshipStatus, reverse: RelationshipStatus, committed: usize) -> (r:
    Response)
    ensures
        r == unblock_answer(status, reverse, committed),
{
    match status {
        RelationshipStatus::Blocked => match reverse {
            RelationshipStatus::Blocked => one_write(committed, RelationshipStatus::BlockedOther),
            RelationshipStatus::BlockedOther => two_writes(
                committed,
                RelationshipStatus::Unrelated,
                "Failed to commit! Target remains in same state.",
            ),
            _ => Response::InternalServerError("Relations of the two users disagree."),
        },
        RelationshipStatus::BlockedOther => Response::BadRequest(
            "Cannot remove block by other user.",
        ),
        _ => Response::BadRequest("This has no effect."),
    }
}

/// Answers a request for the account of the one who asks, given the email
/// address read from storage.
pub fn me(user: &User, email: Option<String>, verified: bool) -> (r: Response)
    ensures
        r == match email {
            Some(address) => Response::Success(
                Body::Account { id: user.id, username: user.username, email: address, verified },
            ),
            None => Response::InternalServerError("Failed to fetch information from database."),
        },
{
    match email {
        Some(address) => Response::Success(
            Body::Account {
                id: user.id.clone(),
                username: user.username.clone(),
                email: address,
                verified,
            },
        ),
        None => Response::InternalServerError("Failed to fetch information from database."),
    }
}

/// Answers a request for another user: who they are, how the one who asks
/// stands to them, and what the two have in common.
pub fn user(viewer: &User, target: &User, mutual: Mutual) -> (r: Response)
    ensures
        r == Response::Success(
            Body::Profile {
                id: target.id,
                username: target.username,
                relationship: code_of(relationship_between(*viewer, target.id@)),
                mutual,
            },
        ),
{
    Response::Success(
        Body::Profile {
            id: target.id.clone(),
            username: target.username.clone(),
            relationship: relationship_code(get_relationship(viewer, target.id.as_str())),
            mutual,
        },
    )
}

/// Answers a request for how the one who asks stands to another user.
pub fn get_friend(user: &User, target: &User) -> (r: Response)
    ensures
        r == Response::Success(Body::Status(code_of(relationship_between(*user, target.id@)))),
{
    Response::Success(Body::Status(relationship_code(get_relationship(user, target.id.as_str()))))
}

/// Answers a request for the relations of the one who asks: one entry for
/// each, in their order, and none where there are no relations.
pub fn get_friends(relations: &Option<Vec<Relationship>>) -> (r: Response)
    ensures
        r is Success,
        r->Success_0 is Friends,
        match *relations {
            Some(list) => r->Success_0->Friends_0@.len() == list@.len() && forall|i: int|
                0 <= i < list@.len() ==> (#[trigger] r->Success_0->Friends_0@[i]) == (Friend {
                    id: list@[i].id,
                    status: code_of(list@[i].status),
                }),
            None => r->Success_0->Friends_0@.len() == 0,
        },
{
    let mut results: Vec<Friend> = Vec::new();
    if let Some(list) = relations {
        let mut i: usize = 0;
        while i < list.len()
            invariant
                i <= list@.len(),
                results@.len() == i,
                forall|k: int|
                    0 <= k < i ==> (#[trigger] results@[k]) == (Friend {
                        id: list@[k].id,
                        status: code_of(list@[k].status),
                    }),
            decreases list@.len() - i,
        {
            results.push(
                Friend { id: list[i].id.clone(), status: relationship_code(list[i].status) },
            );
            i = i + 1;
        }
    }
    Response::Success(Body::Friends(results))
}

/// Answers a search for users, given what the search found: each user
/// found, with how the one who asks stands to them. A search that failed is
/// reported as a failure of storage.
pub fn lookup(user: &User, found: Option<Vec<Found>>) -> (r: Response)
    ensures
        match found {
            None => r == Response::InternalServerError("Failed database query."),
            Some(list) => r is Success && r->Success_0 is Users && r->Success_0->Users_0@.len()
                == list@.len() && forall|i: int|
                0 <= i < list@.len() ==> (#[trigger] r->Success_0->Users_0@[i]) == (Entry {
                    id: list@[i].id,
                    username: list@[i].username,
                    relationship: code_of(relationship_between(*user, list@[i].id@)),
                }),
        },
{
    match found {
        None => Response::InternalServerError("Failed database query."),
        Some(list) => {
            let mut results: Vec<Entry> = Vec::new();
            let mut i: usize = 0;
            while i < list.len()
                invariant
                    i <= list@.len(),
                    results@.len() == i,
                    forall|k: int|
                        0 <= k < i ==> (#[trigger] results@[k]) == (Entry {
                            id: list@[k].id,
                            username: list@[k].username,
                            relationship: code_of(relationship_between(*user, list@[k].id@)),
                        }),
                decreases list@.len() - i,
            {
                results.push(
                    Entry {
                        id: list[i].id.clone(),
                        username: list[i].username.clone(),
                        relationship: relationship_code(get_relationship(user, list[i].id.as_str())),
                    },
                );
                i = i + 1;
            }
            Response::Success(Body::Users(results))
        },
    }
}

/// Whether a channel is listed among a user's conversations: direct message
/// channels and groups are.
pub open spec fn is_conversation(channel: Channel) -> bool {
    channel is DirectMessage || channel is Group
}

/// How a direct message channel or a group is listed; a group without a
/// description is listed with an empty one.
pub open spec fn lists_as(channel: Channel, entry: Conversation) -> bool {
    match channel {
        Channel::DirectMessage { id, recipients, .. } => entry is Direct && entry->Direct_id == id
            && entry->Direct_recipients@ == recipients@,
        Channel::Group { id, recipients, name, owner, description, .. } => entry is Group
            && entry->Group_id == id && entry->Group_recipients@ == recipients@ && entry->Group_name
            == name && entry->Group_owner == owner && entry->Group_description@ == match description {
            Some(text) => text@,
            None => Seq::<char>::empty(),
        },
        _ => false,
    }
}

/// The direct message channels and groups among the channels, in their
/// order.
pub open spec fn conversations_in(channels: Seq<Channel>) -> Seq<Channel>
    decreases channels.len(),
{
    if channels.len() == 0 {
        Seq::empty()
    } else if is_conversation(channels.last()) {
        conversations_in(channels.drop_last()).push(channels.last())
    } else {
        conversations_in(channels.drop_last())
    }
}

/// Answers a request for the conversations of the one who asks, given the
/// channels read from storage: the direct message channels and groups among
/// them, in their order. A read that failed is reported as a failure of
/// storage.
pub fn dms(channels: Option<Vec<Channel>>) -> (r: Response)
    ensures
        match channels {
            None => r == Response::InternalServerError("Failed database query."),
            Some(list) => r is Success && r->Success_0 is Channels && r->Success_0->Channels_0@.len()
                == conversations_in(list@).len() && forall|k: int|
                0 <= k < conversations_in(list@).len() ==> lists_as(
                    conversations_in(list@)[k],
                    #[trigger] r->Success_0->Channels_0@[k],
                ),
        },
{
    match channels {
        None => Response::InternalServerError("Failed database query."),
        Some(list) => {
            let mut out: Vec<Conversation> = Vec::new();
            let mut i: usize = 0;
            proof {
                assert(list@.take(0) =~= Seq::<Channel>::empty());
            }
            while i < list.len()
                invariant
                    i <= list@.len(),
                    out@.len() == conversations_in(list@.take(i as int)).len(),
                    forall|k: int|
                        0 <= k < out@.len() ==> lists_as(
                            conversations_in(list@.take(i as int))[k],
                            #[trigger] out@[k],
                        ),
                decreases list@.len() - i,
            {
                let ghost before = out@;
                proof {
                    assert(list@.take(i as int + 1).drop_last() =~= list@.take(i as int));
                    assert(list@.take(i as int + 1).last() == list@[i as int]);
                }
                match &list[i] {
                    Channel::DirectMessage { id, recipients, .. } => {
                        out.push(
                            Conversation::Direct {
                                id: id.clone(),
                                recipients: crate::routes::servers::member_edit::copy_texts(
                                    recipients,
                                ),
                            },
                        );
                    },
                    Channel::Group { id, recipients, name, owner, description, .. } => {
                        let text = match description {
                            Some(d) => d.clone(),
                            None => String::new(),
                        };
                        out.push(
                            Conversation::Group {
                                id: id.clone(),
                                recipients: crate::routes::servers::member_edit::copy_texts(
                                    recipients,
                                ),
                                name: name.clone(),
                                owner: owner.clone(),
                                description: text,
                            },
                        );
                    },
                    _ => {},
                }
                proof {
                    assert forall|k: int| 0 <= k < out@.len() implies lists_as(
                        conversations_in(list@.take(i as int + 1))[k],
                        #[trigger] out@[k],
                    ) by {
                        if k < before.len() {
                            assert(out@[k] == before[k]);
                        }
                    }
                }
                i = i + 1;
            }
            proof {
                assert(list@.take(i as int) =~= list@);
            }
            Response::Success(Body::Channels(out))
        },
    }
}

/// Answers a request to open a direct message channel with a user, given
/// what the search for an existing channel found and, where none exists,
/// what making one gave: the id of the existing channel, else that of the
/// new one. A failure of either step is reported as a failure of storage.
pub fn dm(found: Result<Option<String>, ()>, created: Option<String>) -> (r: Response)
    ensures
        r == match found {
            Err(_) => Response::InternalServerError("Failed server query."),
            Ok(Some(id)) => Response::Success(Body::Channel { id }),
            Ok(None) => match created {
                Some(id) => Response::Success(Body::Channel { id }),
                None => Response::InternalServerError("Failed to create new channel."),
            },
        },
{
    match found {
        Err(_) => Response::InternalServerError("Failed server query."),
        Ok(Some(id)) => Response::Success(Body::Channel { id }),
        Ok(None) => match created {
            Some(id) => Response::Success(Body::Channel { id }),
            None => Response::InternalServerError("Failed to create new channel."),
        },
    }
}

} // verus!

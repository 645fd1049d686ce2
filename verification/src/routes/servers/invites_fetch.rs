//! Listing the invites of a server.

use crate::errors::Error;
use crate::models::ServerInvite;
use crate::permissions::Perms;
use crate::permissions::MANAGE_SERVER;
use vstd::prelude::*;

verus! {

/// The invites among the documents read: those that could be decoded, in
/// the order in which they were read.
pub open spec fn decoded(documents: Seq<Option<ServerInvite>>) -> Seq<ServerInvite>
    decreases documents.len(),
{
    if documents.len() == 0 {
        Seq::empty()
    } else {
        match documents.last() {
            Some(invite) => decoded(documents.drop_last()).push(invite),
            None => decoded(documents.drop_last()),
        }
    }
}

/// Answers a request for the invites of a server, given what the one who
/// asks may do in it and the documents read from storage, each decoded or
/// not. Without the capability to manage the server the request is refused.
pub fn req(permissions: &Perms, documents: Vec<Option<ServerInvite>>) -> (r: Result<
    Vec<ServerInvite>,
    Error,
>)
    ensures
        match r {
            Ok(invites) => permissions.mask() & MANAGE_SERVER == MANAGE_SERVER && invites@ == decoded(
                documents@,
            ),
            Err(e) => permissions.mask() & MANAGE_SERVER != MANAGE_SERVER && e
                == (Error::MissingPermission { permission: MANAGE_SERVER }),
        },
{
    if !permissions.get_manage_server() {
        return Err(Error::MissingPermission { permission: MANAGE_SERVER });
    }
    let mut invites: Vec<ServerInvite> = Vec::new();
    let mut rest = documents;
    let mut reversed: Vec<Option<ServerInvite>> = Vec::new();
    while rest.len() > 0
        invariant
            rest@.len() + reversed@.len() == documents@.len(),
            forall|k: int| 0 <= k < rest@.len() ==> rest@[k] == documents@[k],
            forall|k: int|
                0 <= k < reversed@.len() ==> reversed@[k] == documents@[documents@.len() - 1 - k],
        decreases rest@.len(),
    {
        let last = rest.pop().unwrap();
        reversed.push(last);
    }
    proof {
        assert(documents@.take(0) =~= Seq::<Option<ServerInvite>>::empty());
    }
    while reversed.len() > 0
        invariant
            reversed@.len() <= documents@.len(),
            forall|k: int|
                0 <= k < reversed@.len() ==> reversed@[k] == documents@[documents@.len() - 1 - k],
            invites@ == decoded(documents@.take(documents@.len() - reversed@.len())),
        decreases reversed@.len(),
    {
        let ghost done = documents@.len() - reversed@.len();
        let next = reversed.pop().unwrap();
        proof {
            assert(documents@.take(done + 1).drop_last() =~= documents@.take(done));
            assert(documents@.take(done + 1).last() == next);
        }
        if let Some(invite) = next {
            invites.push(invite);
        }
    }
    proof {
        assert(documents@.take(documents@.len() as int) =~= documents@);
    }
    Ok(invites)
}

} // verus!

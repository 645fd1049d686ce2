//! Adding a user to a group.

use crate::errors::Error;
use crate::models::Channel;
use crate::permissions::Perms;
use crate::permissions::INVITE_OTHERS;
use vstd::prelude::*;

verus! {

/// Whether the one who asks may add a user to the channel: they need the
/// capability to invite others, and the channel has to be a group. The
/// answer is the id of the group to add the user to.
pub open spec fn addition(permissions: Perms, channel: Channel) -> Result<String, Error> {
    if permissions.mask() & INVITE_OTHERS != INVITE_OTHERS {
        Err(Error::MissingPermission { permission: INVITE_OTHERS })
    } else {
        match channel {
            Channel::Group { id, .. } => Ok(id),
            _ => Err(Error::InvalidOperation),
        }
    }
}

/// Decides a request to add a user to a channel, given what the one who
/// asks may do in it.
pub fn req(permissions: &Perms, channel: &Channel) -> (r: Result<String, Error>)
    ensures
        r == addition(*permissions, *channel),
{
    if !permissions.get_invite_others() {
        return Err(Error::MissingPermission { permission: INVITE_OTHERS });
    }
    match channel {
        Channel::Group { id, .. } => Ok(id.clone()),
        _ => Err(Error::InvalidOperation),
    }
}

} // verus!

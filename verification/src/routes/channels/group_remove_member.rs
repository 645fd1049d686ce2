//! Removing a user from a group.

use crate::errors::Error;
use crate::models::Channel;
use crate::models::User;
use crate::resolution::has_text;
use crate::text::contains_str;
use crate::text::str_eq;
use vstd::prelude::*;

verus! {

/// Whether `user` may remove `member` from the channel: the channel has to
/// be a group that `user` owns, `member` someone else, and in the group.
pub open spec fn removal(user: User, channel: Channel, member: User) -> Result<(), Error> {
    match channel {
        Channel::Group { owner, recipients, .. } => {
            if user.id@ != owner@ {
                Err(Error::MissingPermission { permission: 0 })
            } else if user.id@ == member.id@ {
                Err(Error::CannotRemoveYourself)
            } else if !has_text(recipients@, member.id@) {
                Err(Error::NotInGroup)
            } else {
                Ok(())
            }
        },
        _ => Err(Error::InvalidOperation),
    }
}

/// Decides a request of `user` to remove `member` from a channel.
pub fn req(user: &User, channel: &Channel, member: &User) -> (r: Result<(), Error>)
    ensures
        r == removal(*user, *channel, *member),
{
    match channel {
        Channel::Group { owner, recipients, .. } => {
            if !str_eq(user.id.as_str(), owner.as_str()) {
                return Err(Error::MissingPermission { permission: 0 });
            }
            if str_eq(user.id.as_str(), member.id.as_str()) {
                return Err(Error::CannotRemoveYourself);
            }
            if !contains_str(recipients, member.id.as_str()) {
                return Err(Error::NotInGroup);
            }
            Ok(())
        },
        _ => Err(Error::InvalidOperation),
    }
}

} // verus!

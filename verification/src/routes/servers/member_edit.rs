//! Editing a member of a server.

use crate::errors::Error;
use crate::models::FieldsMember;
use crate::models::File;
use crate::models::Member;
use crate::models::PartialMember;
use crate::permissions::Perms;
use crate::permissions::VIEW_CHANNEL;
use crate::users::copy_text;
use vstd::prelude::*;

verus! {

/// The fields of a request to edit a member.
#[derive(Clone, Debug, PartialEq, Eq)]
pub struct Data {
    /// New nickname.
    pub nickname: Option<String>,
    /// Id of the uploaded file that becomes the avatar.
    pub avatar: Option<String>,
    /// New list of role ids.
    pub roles: Option<Vec<String>>,
    /// Fields to clear.
    pub remove: Option<Vec<FieldsMember>>,
}

/// What an accepted request changes.
#[derive(Clone, Debug, PartialEq, Eq)]
pub struct Edit {
    /// The member as it is after the edit.
    pub member: Member,
    /// The fields to set in storage.
    pub partial: PartialMember,
    /// The fields to clear in storage.
    pub remove: Vec<FieldsMember>,
    /// The id of the avatar that is to be marked as deleted.
    pub deleted_avatar: Option<String>,
}

/// Whether the fields of a request are valid: a nickname has between 1 and
/// 32 characters, and a list of fields to clear is not empty.
pub open spec fn is_valid(data: Data) -> bool {
    &&& match data.nickname {
        Some(name) => 1 <= name@.len() <= 32,
        None => true,
    }
    &&& match data.remove {
        Some(fields) => fields@.len() >= 1,
        None => true,
    }
}

/// Whether `field` is among `fields`.
pub open spec fn clears(fields: Option<Vec<FieldsMember>>, field: FieldsMember) -> bool {
    match fields {
        Some(f) => f@.contains(field),
        None => false,
    }
}

/// Whether the request may go ahead: its fields have to be valid, and the
/// one who asks has to see the server, which is otherwise reported as not
/// found.
pub open spec fn authorised(permissions: Perms, data: Data) -> Result<(), Error> {
    if !is_valid(data) {
        Err(Error::FailedValidation)
    } else if permissions.mask() & VIEW_CHANNEL != VIEW_CHANNEL {
        Err(Error::NotFound)
    } else {
        Ok(())
    }
}

impl Data {
    /// Whether the fields of the request are valid.
    pub fn validate(&self) -> (r: Result<(), Error>)
        ensures
            r == if is_valid(*self) {
                Ok::<(), Error>(())
            } else {
                Err::<(), Error>(Error::FailedValidation)
            },
    {
        if let Some(name) = &self.nickname {
            let n = name.as_str().unicode_len();
            if n < 1 || n > 32 {
                return Err(Error::FailedValidation);
            }
        }
        if let Some(fields) = &self.remove {
            if fields.len() < 1 {
                return Err(Error::FailedValidation);
            }
        }
        Ok(())
    }
}

impl Member {
    /// The member with one field cleared.
    pub open spec fn without(self, field: FieldsMember) -> Member {
        match field {
            FieldsMember::Nickname => Member { nickname: None, ..self },
            FieldsMember::Avatar => Member { avatar: None, ..self },
        }
    }

    /// Clears one field.
    pub fn remove(&mut self, field: &FieldsMember)
        ensures
            *final(self) == old(self).without(*field),
    {
        match field {
            FieldsMember::Nickname => {
                self.nickname = None;
            },
            FieldsMember::Avatar => {
                self.avatar = None;
            },
        }
    }
}

/// Whether `field` is among `fields`.
pub fn has_field(fields: &Vec<FieldsMember>, field: FieldsMember) -> (r: bool)
    ensures
        r == fields@.contains(field),
{
    let mut i: usize = 0;
    while i < fields.len()
        invariant
            i <= fields@.len(),
            forall|k: int| 0 <= k < i ==> fields@[k] != field,
        decreases fields@.len() - i,
    {
        if fields[i] == field {
            return true;
        }
        i = i + 1;
    }
    false
}

/// A copy of a list of texts.
pub fn copy_texts(items: &Vec<String>) -> (r: Vec<String>)
    ensures
        r@ == items@,
{
    let mut out: Vec<String> = Vec::new();
    let mut i: usize = 0;
    while i < items.len()
        invariant
            i <= items@.len(),
            out@ == items@.take(i as int),
        decreases items@.len() - i,
    {
        out.push(items[i].clone());
        proof {
            assert(out@ =~= items@.take(i as int + 1));
        }
        i = i + 1;
    }
    proof {
        assert(items@.take(i as int) =~= items@);
    }
    out
}

/// Decides whether a request to edit a member may go ahead.
pub fn authorise(permissions: &Perms, data: &Data) -> (r: Result<(), Error>)
    ensures
        r == authorised(*permissions, *data),
{
    match data.validate() {
        Err(e) => Err(e),
        Ok(_) => {
            if !permissions.get_view() {
                Err(Error::NotFound)
            } else {
                Ok(())
            }
        },
    }
}

/// Carries out a request to edit `member`, given what the one who asks may
/// do in the server and, where the request names an avatar, the file that
/// was made of it. A request that may not go ahead is refused. Otherwise
/// the fields named are cleared, then avatar, nickname and roles are set
/// where the request gives them; the avatar that a cleared field held is
/// named for deletion.
pub fn req(permissions: &Perms, member: Member, data: Data, avatar: Option<File>) -> (r: Result<
    Edit,
    Error,
>)
    ensures
        match r {
            Err(e) => authorised(*permissions, data) == Err::<(), Error>(e),
            Ok(edit) => {
                &&& authorised(*permissions, data).is_ok()
                &&& edit.member.id == member.id
                &&& edit.member.nickname == if data.nickname.is_some() {
                    data.nickname
                } else if clears(data.remove, FieldsMember::Nickname) {
                    None
                } else {
                    member.nickname
                }
                &&& edit.member.avatar == if data.avatar.is_some() && avatar.is_some() {
                    avatar
                } else if clears(data.remove, FieldsMember::Avatar) {
                    None
                } else {
                    member.avatar
                }
                &&& match data.roles {
                    Some(roles) => edit.member.roles.is_some() && edit.member.roles.unwrap()@
                        == roles@,
                    None => edit.member.roles == member.roles,
                }
                &&& edit.partial.nickname == data.nickname
                &&& edit.partial.roles == data.roles
                &&& edit.partial.avatar == if data.avatar.is_some() {
                    avatar
                } else {
                    None
                }
                &&& edit.remove@ == match data.remove {
                    Some(fields) => fields@,
                    None => Seq::<FieldsMember>::empty(),
                }
                &&& edit.deleted_avatar == if clears(data.remove, FieldsMember::Avatar) {
                    match member.avatar {
                        Some(file) => Some(file.id),
                        None => None,
                    }
                } else {
                    None
                }
            },
        },
{
    if let Err(e) = authorise(permissions, &data) {
        return Err(e);
    }
    let mut member = member;
    let Data { nickname, avatar: wanted, roles, remove } = data;
    let mut deleted_avatar: Option<String> = None;
    let mut cleared: Vec<FieldsMember> = Vec::new();
    if let Some(fields) = remove {
        if has_field(&fields, FieldsMember::Avatar) {
            if let Some(file) = &member.avatar {
                deleted_avatar = Some(file.id.clone());
            }
            member.avatar = None;
        }
        if has_field(&fields, FieldsMember::Nickname) {
            member.nickname = None;
        }
        cleared = fields;
    }
    let mut partial = PartialMember { nickname: None, avatar: None, roles: None };
    if wanted.is_some() {
        if let Some(file) = avatar {
            partial.avatar = Some(crate::users::copy_file(&file));
            member.avatar = Some(file);
        }
    }
    if nickname.is_some() {
        member.nickname = copy_text(&nickname);
    }
    if let Some(list) = &roles {
        member.roles = Some(copy_texts(list));
    }
    partial.nickname = nickname;
    partial.roles = roles;
    Ok(Edit { member, partial, remove: cleared, deleted_avatar })
}

} // verus!

use revolt_core::permissions::apply;
use revolt_core::permissions::combine;
use revolt_core::permissions::Override;
use revolt_core::permissions::Permission;
use revolt_core::permissions::PermissionValue;
use revolt_core::permissions::Permissions;
use revolt_core::permissions::DEFAULT_PERMISSION;
use revolt_core::permissions::DEFAULT_PERMISSION_DIRECT_MESSAGE;
use revolt_core::permissions::DEFAULT_PERMISSION_SAVED_MESSAGES;
use revolt_core::permissions::DEFAULT_PERMISSION_SERVER;
use revolt_core::permissions::DEFAULT_PERMISSION_VIEW_ONLY;
use revolt_core::permissions::GRANT_ALL_SAFE;
use revolt_core::permissions::SEND_MESSAGE;

#[test]
fn apply_clears_denied_then_sets_allowed() {
    let value = apply(PermissionValue(0b1010), Override { allow: 0b0001, deny: 0b1000 });
    assert_eq!(value, PermissionValue(0b0011));
}

#[test]
fn allow_wins_over_deny_within_one_override() {
    let value = apply(PermissionValue(0), Override { allow: 0b100, deny: 0b100 });
    assert_eq!(value, PermissionValue(0b100));
}

#[test]
fn apply_method_changes_the_value_in_place() {
    let mut value = PermissionValue(0b0110);
    value.apply(Override { allow: 0b1000, deny: 0b0010 });
    assert_eq!(value.bits(), 0b1100);
    assert!(value.has(0b1000));
    assert!(!value.has(0b0010));
}

#[test]
fn combine_is_bitwise_or() {
    assert_eq!(combine(PermissionValue(0b0101), PermissionValue(0b0011)), PermissionValue(0b0111));
    assert_eq!(
        PermissionValue::combine(PermissionValue(0), PermissionValue(0)),
        PermissionValue(0)
    );
}

#[test]
fn later_override_dominates() {
    let base = PermissionValue(0b1111_0000);
    let o1 = Override { allow: 0b0000_0011, deny: 0b1100_0000 };
    let o2 = Override { allow: 0b0100_0000, deny: 0b0000_0001 };
    let value = apply(apply(base, o1), o2);
    // o2 denies bit 0, which o1 had allowed.
    assert_eq!(value.0 & 0b1, 0);
    // o2 allows bit 6, which o1 had denied.
    assert_eq!(value.0 & 0b0100_0000, 0b0100_0000);
    // bits that o2 does not touch stay as o1 left them.
    assert_eq!(value, PermissionValue(0b0111_0010));
}

#[test]
fn later_deny_clears_whatever_the_base_was() {
    for base in [0u64, u64::MAX, 0x40_0000] {
        let o1 = Override { allow: SEND_MESSAGE, deny: 0 };
        let o2 = Override { allow: 0, deny: SEND_MESSAGE };
        assert_eq!(apply(apply(PermissionValue(base), o1), o2).0 & SEND_MESSAGE, 0);
        assert_eq!(apply(apply(PermissionValue(base), o2), o1).0 & SEND_MESSAGE, SEND_MESSAGE);
    }
}

#[test]
fn capability_masks() {
    assert_eq!(Permission::ManageChannel.value(), 1);
    assert_eq!(Permission::ManageServer.value(), 1 << 1);
    assert_eq!(Permission::ManagePermissions.value(), 1 << 2);
    assert_eq!(Permission::ManageRole.value(), 1 << 3);
    assert_eq!(Permission::ManageCustomisation.value(), 1 << 4);
    assert_eq!(Permission::KickMembers.value(), 1 << 6);
    assert_eq!(Permission::BanMembers.value(), 1 << 7);
    assert_eq!(Permission::TimeoutMembers.value(), 1 << 8);
    assert_eq!(Permission::AssignRoles.value(), 1 << 9);
    assert_eq!(Permission::ChangeNickname.value(), 1 << 10);
    assert_eq!(Permission::ManageNicknames.value(), 1 << 11);
    assert_eq!(Permission::ChangeAvatar.value(), 1 << 12);
    assert_eq!(Permission::RemoveAvatars.value(), 1 << 13);
    assert_eq!(Permission::ViewChannel.value(), 1 << 20);
    assert_eq!(Permission::ReadMessageHistory.value(), 1 << 21);
    assert_eq!(Permission::SendMessage.value(), 1 << 22);
    assert_eq!(Permission::ManageMessages.value(), 1 << 23);
    assert_eq!(Permission::ManageWebhooks.value(), 1 << 24);
    assert_eq!(Permission::InviteOthers.value(), 1 << 25);
    assert_eq!(Permission::SendEmbeds.value(), 1 << 26);
    assert_eq!(Permission::UploadFiles.value(), 1 << 27);
    assert_eq!(Permission::Masquerade.value(), 1 << 28);
    assert_eq!(Permission::React.value(), 1 << 29);
    assert_eq!(Permission::Connect.value(), 1 << 30);
    assert_eq!(Permission::Speak.value(), 1 << 31);
    assert_eq!(Permission::Video.value(), 1 << 32);
    assert_eq!(Permission::MuteMembers.value(), 1 << 33);
    assert_eq!(Permission::DeafenMembers.value(), 1 << 34);
    assert_eq!(Permission::MoveMembers.value(), 1 << 35);
    assert_eq!(Permission::GrantAllSafe.value(), 0x000F_FFFF_FFFF_FFFF);
}

#[test]
fn server_and_channel_capabilities_are_disjoint() {
    let server: u64 = (1 << 14) - 1;
    let channel: u64 = ((1u64 << 36) - 1) & !((1u64 << 20) - 1);
    assert_eq!(server & channel, 0);
    assert_eq!(Permission::RemoveAvatars.value() & channel, 0);
    assert_eq!(Permission::ViewChannel.value() & server, 0);
}

#[test]
fn defaults_are_made_of_their_capabilities() {
    let view = Permission::ViewChannel.value() | Permission::ReadMessageHistory.value();
    assert_eq!(DEFAULT_PERMISSION_VIEW_ONLY, view);
    let default = view
        | Permission::SendMessage.value()
        | Permission::InviteOthers.value()
        | Permission::SendEmbeds.value()
        | Permission::UploadFiles.value()
        | Permission::Connect.value()
        | Permission::Speak.value();
    assert_eq!(DEFAULT_PERMISSION, default);
    assert_eq!(DEFAULT_PERMISSION_SAVED_MESSAGES, GRANT_ALL_SAFE);
    assert_eq!(
        DEFAULT_PERMISSION_DIRECT_MESSAGE,
        default | Permission::ManageChannel.value() | Permission::React.value()
    );
    assert_eq!(
        DEFAULT_PERMISSION_SERVER,
        default
            | Permission::React.value()
            | Permission::ChangeNickname.value()
            | Permission::ChangeAvatar.value()
    );
}

#[test]
fn permissions_readers() {
    let p = Permissions::new(Permission::SendMessage.value() | Permission::ManageServer.value());
    assert_eq!(p.value(), (1 << 22) | (1 << 1));
    assert!(p.get_send_message());
    assert!(p.get_manage_server());
    assert!(!p.get_view());
    assert!(!p.get_invite_others());
    assert!(p.can(Permission::SendMessage));
    assert!(!p.can(Permission::React));
    let q = Permissions([Permission::ViewChannel.value() | Permission::InviteOthers.value()]);
    assert!(q.get_view());
    assert!(q.get_invite_others());
    assert!(!q.get_send_message());
    assert_eq!(Override { allow: 3, deny: 4 }.allows(), 3);
    assert_eq!(Override { allow: 3, deny: 4 }.denies(), 4);
}

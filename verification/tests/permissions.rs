use conlang_bot::acl::ChannelAcl;
use conlang_bot::permissions::{
    can_manage_channels, channel_public, channel_viewable, creation_overwrites, hide_to_everyone,
    mode_change, perm_owner, perm_viewable, perm_writable, repair_overwrites, user_banned,
    user_change, user_collaborator, user_owner, user_viewer, AclChange, OverwriteKind,
    PermissionOverwrite, UserAction, VisibilityMode, ADD_REACTIONS, MANAGE_CHANNELS,
    SEND_MESSAGES, SEND_MESSAGES_IN_THREADS, VIEW_CHANNEL,
};

const VIEW: u64 = 1 << 10;
const WRITE: u64 = (1 << 11) | (1 << 38) | (1 << 6);
const OWNER: u64 = VIEW | WRITE | (1 << 35) | (1 << 36) | (1 << 34) | (1 << 13) | (1 << 4);

#[test]
fn bundles_have_the_platform_bits() {
    assert_eq!(perm_viewable(), VIEW);
    assert_eq!(perm_viewable(), 0x400);
    assert_eq!(perm_writable(), WRITE);
    assert_eq!(perm_writable(), 0x40_0000_0840);
    assert_eq!(perm_owner(), OWNER);
    assert_eq!(perm_owner(), 0x5c_0000_2c50);
    assert_eq!(VIEW_CHANNEL, 1 << 10);
    assert_eq!(SEND_MESSAGES | SEND_MESSAGES_IN_THREADS | ADD_REACTIONS, WRITE);
    assert_eq!(MANAGE_CHANNELS, 1 << 4);
}

#[test]
fn owner_bundle_is_a_superset() {
    assert_eq!(perm_owner() & perm_viewable(), perm_viewable());
    assert_eq!(perm_owner() & perm_writable(), perm_writable());
    assert_eq!(perm_viewable() & perm_writable(), 0);
}

#[test]
fn manage_channels_is_recognised() {
    assert!(can_manage_channels(1 << 4));
    assert!(can_manage_channels(u64::MAX));
    assert!(can_manage_channels((1 << 4) | (1 << 10)));
    assert!(!can_manage_channels(0));
    assert!(!can_manage_channels(1 << 10));
    assert!(!can_manage_channels(!(1u64 << 4)));
}

#[test]
fn policy_table_rows() {
    assert_eq!(
        hide_to_everyone(1),
        PermissionOverwrite { allow: 0, deny: VIEW, kind: OverwriteKind::Role(1) }
    );
    assert_eq!(
        user_owner(7),
        PermissionOverwrite { allow: OWNER, deny: 0, kind: OverwriteKind::Member(7) }
    );
    assert_eq!(
        channel_public(2),
        PermissionOverwrite { allow: VIEW | WRITE, deny: 0, kind: OverwriteKind::Role(2) }
    );
    assert_eq!(
        channel_viewable(2),
        PermissionOverwrite { allow: VIEW, deny: WRITE, kind: OverwriteKind::Role(2) }
    );
    assert_eq!(
        user_viewer(9),
        PermissionOverwrite { allow: VIEW, deny: 0, kind: OverwriteKind::Member(9) }
    );
    assert_eq!(
        user_collaborator(9),
        PermissionOverwrite { allow: VIEW | WRITE, deny: 0, kind: OverwriteKind::Member(9) }
    );
    assert_eq!(
        user_banned(9),
        PermissionOverwrite { allow: 0, deny: VIEW | WRITE, kind: OverwriteKind::Member(9) }
    );
}

#[test]
fn mode_changes() {
    assert_eq!(mode_change(VisibilityMode::Public, 2), AclChange::Put(channel_public(2)));
    assert_eq!(mode_change(VisibilityMode::Visible, 2), AclChange::Put(channel_viewable(2)));
    assert_eq!(
        mode_change(VisibilityMode::Private, 2),
        AclChange::Remove(OverwriteKind::Role(2))
    );
}

#[test]
fn user_changes() {
    assert_eq!(user_change(UserAction::AddViewer, 5), AclChange::Put(user_viewer(5)));
    assert_eq!(user_change(UserAction::Collaborator, 5), AclChange::Put(user_collaborator(5)));
    assert_eq!(user_change(UserAction::Ban, 5), AclChange::Put(user_banned(5)));
    assert_eq!(
        user_change(UserAction::Unban, 5),
        AclChange::Remove(OverwriteKind::Member(5))
    );
    assert_eq!(
        user_change(UserAction::RemoveViewer, 5),
        AclChange::Remove(OverwriteKind::Member(5))
    );
}

#[test]
fn creation_and_repair_rows() {
    assert_eq!(
        creation_overwrites(1, 7, 2),
        vec![hide_to_everyone(1), user_owner(7), channel_public(2)]
    );
    assert_eq!(repair_overwrites(1, 7), vec![hide_to_everyone(1), user_owner(7)]);
}

#[test]
fn private_after_public_removes_the_member_row_and_keeps_the_viewer() {
    let mut acl = ChannelAcl::new();
    for row in creation_overwrites(1, 7, 2) {
        acl.put(row);
    }
    acl.apply(user_change(UserAction::AddViewer, 9));
    acl.apply(mode_change(VisibilityMode::Public, 2));
    assert_eq!(acl.get(OverwriteKind::Role(2)), Some(channel_public(2)));
    acl.apply(mode_change(VisibilityMode::Private, 2));
    assert_eq!(acl.get(OverwriteKind::Role(2)), None);
    assert!(acl.rows().iter().all(|row| row.kind != OverwriteKind::Role(2)));
    assert_eq!(acl.get(OverwriteKind::Member(9)), Some(user_viewer(9)));
    assert_eq!(acl.get(OverwriteKind::Member(7)), Some(user_owner(7)));
    assert_eq!(acl.get(OverwriteKind::Role(1)), Some(hide_to_everyone(1)));
    assert_eq!(acl.rows().len(), 3);
}

#[test]
fn visible_replaces_public_in_place() {
    let mut acl = ChannelAcl::new();
    acl.apply(mode_change(VisibilityMode::Public, 2));
    acl.apply(mode_change(VisibilityMode::Visible, 2));
    assert_eq!(acl.rows(), vec![channel_viewable(2)]);
}

#[test]
fn a_role_and_a_member_with_one_number_are_two_principals() {
    let mut acl = ChannelAcl::new();
    acl.put(channel_public(5));
    acl.put(user_banned(5));
    assert_eq!(acl.rows().len(), 2);
    acl.remove(OverwriteKind::Member(5));
    assert_eq!(acl.rows(), vec![channel_public(5)]);
    acl.remove(OverwriteKind::Member(5));
    assert_eq!(acl.rows(), vec![channel_public(5)]);
}

#[test]
fn unban_deletes_the_row() {
    let mut acl = ChannelAcl::new();
    acl.apply(user_change(UserAction::Ban, 5));
    assert_eq!(acl.get(OverwriteKind::Member(5)), Some(user_banned(5)));
    acl.apply(user_change(UserAction::Unban, 5));
    assert_eq!(acl.get(OverwriteKind::Member(5)), None);
    assert!(acl.rows().is_empty());
}

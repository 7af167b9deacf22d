//! Permission bundles and the overwrites that each visibility mode and each
//! per-user action stands for.

use vstd::prelude::*;

verus! {

/// See the channel.
pub const VIEW_CHANNEL: u64 = 0x400;

/// Post messages.
pub const SEND_MESSAGES: u64 = 0x800;

/// Post messages inside threads.
pub const SEND_MESSAGES_IN_THREADS: u64 = 0x40_0000_0000;

/// React to messages.
pub const ADD_REACTIONS: u64 = 0x40;

/// Open public threads.
pub const CREATE_PUBLIC_THREADS: u64 = 0x8_0000_0000;

/// Open private threads.
pub const CREATE_PRIVATE_THREADS: u64 = 0x10_0000_0000;

/// Manage threads.
pub const MANAGE_THREADS: u64 = 0x4_0000_0000;

/// Manage other members' messages.
pub const MANAGE_MESSAGES: u64 = 0x2000;

/// Manage channels: the capability that makes a member a manager.
pub const MANAGE_CHANNELS: u64 = 0x10;

/// The bundle that lets a principal see a channel.
pub open spec fn viewable() -> u64 {
    VIEW_CHANNEL
}

/// The bundle that lets a principal post, post in threads and react.
pub open spec fn writable() -> u64 {
    SEND_MESSAGES | SEND_MESSAGES_IN_THREADS | ADD_REACTIONS
}

/// The owner's bundle: seeing, writing, and managing threads, messages and
/// the channel itself.
pub open spec fn owner_bundle() -> u64 {
    viewable() | writable() | CREATE_PUBLIC_THREADS | CREATE_PRIVATE_THREADS | MANAGE_THREADS
        | MANAGE_MESSAGES | MANAGE_CHANNELS
}

/// Whether the permission set `bits` holds every permission of `bundle`.
pub open spec fn includes(bits: u64, bundle: u64) -> bool {
    bits & bundle == bundle
}

/// Trusted: the bits of serenity's `Permissions::VIEW_CHANNEL`, which it
/// declares as `1 << 10`.
#[verifier::external_body]
fn view_channel_bits() -> (bits: u64)
    ensures
        bits == VIEW_CHANNEL,
{
    serenity::model::Permissions::VIEW_CHANNEL.bits()
}

/// Trusted: the bits of serenity's `Permissions::SEND_MESSAGES`, which it
/// declares as `1 << 11`.
#[verifier::external_body]
fn send_messages_bits() -> (bits: u64)
    ensures
        bits == SEND_MESSAGES,
{
    serenity::model::Permissions::SEND_MESSAGES.bits()
}

/// Trusted: the bits of serenity's `Permissions::SEND_MESSAGES_IN_THREADS`,
/// which it declares as `1 << 38`.
#[verifier::external_body]
fn send_messages_in_threads_bits() -> (bits: u64)
    ensures
        bits == SEND_MESSAGES_IN_THREADS,
{
    serenity::model::Permissions::SEND_MESSAGES_IN_THREADS.bits()
}

/// Trusted: the bits of serenity's `Permissions::ADD_REACTIONS`, which it
/// declares as `1 << 6`.
#[verifier::external_body]
fn add_reactions_bits() -> (bits: u64)
    ensures
        bits == ADD_REACTIONS,
{
    serenity::model::Permissions::ADD_REACTIONS.bits()
}

/// Trusted: the bits of serenity's `Permissions::CREATE_PUBLIC_THREADS`,
/// which it declares as `1 << 35`.
#[verifier::external_body]
fn create_public_threads_bits() -> (bits: u64)
    ensures
        bits == CREATE_PUBLIC_THREADS,
{
    serenity::model::Permissions::CREATE_PUBLIC_THREADS.bits()
}

/// Trusted: the bits of serenity's `Permissions::CREATE_PRIVATE_THREADS`,
/// which it declares as `1 << 36`.
#[verifier::external_body]
fn create_private_threads_bits() -> (bits: u64)
    ensures
        bits == CREATE_PRIVATE_THREADS,
{
    serenity::model::Permissions::CREATE_PRIVATE_THREADS.bits()
}

/// Trusted: the bits of serenity's `Permissions::MANAGE_THREADS`, which it
/// declares as `1 << 34`.
#[verifier::external_body]
fn manage_threads_bits() -> (bits: u64)
    ensures
        bits == MANAGE_THREADS,
{
    serenity::model::Permissions::MANAGE_THREADS.bits()
}

/// Trusted: the bits of serenity's `Permissions::MANAGE_MESSAGES`, which it
/// declares as `1 << 13`.
#[verifier::external_body]
fn manage_messages_bits() -> (bits: u64)
    ensures
        bits == MANAGE_MESSAGES,
{
    serenity::model::Permissions::MANAGE_MESSAGES.bits()
}

/// Trusted: serenity's `Permissions::contains`, asked of the permission set
/// with the bits `bits` and of `Permissions::MANAGE_CHANNELS` (declared as
/// `1 << 4`). It is bitflags' containment: every bit of the second operand
/// is set in the first.
#[verifier::external_body]
fn contains_manage_channels(bits: u64) -> (held: bool)
    ensures
        held == includes(bits, MANAGE_CHANNELS),
{
    serenity::model::Permissions::from_bits_retain(bits).contains(
        serenity::model::Permissions::MANAGE_CHANNELS,
    )
}

/// Trusted: the bits of serenity's `Permissions::MANAGE_CHANNELS`, which it
/// declares as `1 << 4`.
#[verifier::external_body]
fn manage_channels_bits() -> (bits: u64)
    ensures
        bits == MANAGE_CHANNELS,
{
    serenity::model::Permissions::MANAGE_CHANNELS.bits()
}

/// The permission to see a channel.
pub fn perm_viewable() -> (bits: u64)
    ensures
        bits == viewable(),
{
    view_channel_bits()
}

/// The permissions to post, post in threads and react.
pub fn perm_writable() -> (bits: u64)
    ensures
        bits == writable(),
{
    send_messages_bits() | send_messages_in_threads_bits() | add_reactions_bits()
}

/// The owner's permissions.
pub fn perm_owner() -> (bits: u64)
    ensures
        bits == owner_bundle(),
{
    perm_viewable() | perm_writable() | create_public_threads_bits()
        | create_private_threads_bits() | manage_threads_bits() | manage_messages_bits()
        | manage_channels_bits()
}

/// Whether a member with the permissions `bits` may manage channels.
pub fn can_manage_channels(bits: u64) -> (held: bool)
    ensures
        held == includes(bits, MANAGE_CHANNELS),
{
    contains_manage_channels(bits)
}

/// The owner's bundle holds everything a viewer and a writer have, and the
/// capability to manage channels; seeing and writing share no permission.
pub proof fn lemma_bundles()
    ensures
        includes(owner_bundle(), viewable()),
        includes(owner_bundle(), writable()),
        includes(owner_bundle(), MANAGE_CHANNELS),
        viewable() & writable() == 0,
        viewable() | writable() == 0x40_0000_0c40u64,
        owner_bundle() == 0x5c_0000_2c50u64,
{
    assert(0x400u64 & (0x800u64 | 0x40_0000_0000u64 | 0x40u64) == 0) by (bit_vector);
    assert(0x400u64 | (0x800u64 | 0x40_0000_0000u64 | 0x40u64) == 0x40_0000_0c40u64)
        by (bit_vector);
    assert(0x400u64 | (0x800u64 | 0x40_0000_0000u64 | 0x40u64) | 0x8_0000_0000u64
        | 0x10_0000_0000u64 | 0x4_0000_0000u64 | 0x2000u64 | 0x10u64 == 0x5c_0000_2c50u64)
        by (bit_vector);
    assert(0x5c_0000_2c50u64 & 0x400u64 == 0x400u64) by (bit_vector);
    assert(0x5c_0000_2c50u64 & (0x800u64 | 0x40_0000_0000u64 | 0x40u64) == (0x800u64
        | 0x40_0000_0000u64 | 0x40u64)) by (bit_vector);
    assert(0x5c_0000_2c50u64 & 0x10u64 == 0x10u64) by (bit_vector);
}

/// Whom an overwrite speaks of: a role, or a single member.
#[derive(Clone, Copy, Debug, PartialEq, Eq, Structural)]
pub enum OverwriteKind {
    Role(u64),
    Member(u64),
}

/// One row of a channel's access list: what is allowed and what is denied
/// to one principal.
#[derive(Clone, Copy, Debug, PartialEq, Eq, Structural)]
pub struct PermissionOverwrite {
    pub allow: u64,
    pub deny: u64,
    pub kind: OverwriteKind,
}

/// What a policy decision does to a channel's access list.
#[derive(Clone, Copy, Debug, PartialEq, Eq, Structural)]
pub enum AclChange {
    /// Write the row, replacing the principal's earlier row if there is one.
    Put(PermissionOverwrite),
    /// Delete the principal's row, so that broader rules apply to it again.
    Remove(OverwriteKind),
}

/// How the member role may use a channel.
#[derive(Clone, Copy, Debug, PartialEq, Eq, Structural)]
pub enum VisibilityMode {
    /// Members read and write.
    Public,
    /// Members read; only added users write.
    Visible,
    /// Only added users read or write.
    Private,
}

/// What an owner or manager may do to a named user on a channel.
#[derive(Clone, Copy, Debug, PartialEq, Eq, Structural)]
pub enum UserAction {
    AddViewer,
    RemoveViewer,
    Collaborator,
    Ban,
    Unban,
}

/// The row that hides a channel from the everyone role.
pub open spec fn spec_hide_to_everyone(role: u64) -> PermissionOverwrite {
    PermissionOverwrite { allow: 0, deny: viewable(), kind: OverwriteKind::Role(role) }
}

/// The row that lets a role read and write.
pub open spec fn spec_channel_public(role: u64) -> PermissionOverwrite {
    PermissionOverwrite { allow: viewable() | writable(), deny: 0, kind: OverwriteKind::Role(role) }
}

/// The row that lets a role read but not write.
pub open spec fn spec_channel_viewable(role: u64) -> PermissionOverwrite {
    PermissionOverwrite { allow: viewable(), deny: writable(), kind: OverwriteKind::Role(role) }
}

/// The owner's row.
pub open spec fn spec_user_owner(user: u64) -> PermissionOverwrite {
    PermissionOverwrite { allow: owner_bundle(), deny: 0, kind: OverwriteKind::Member(user) }
}

/// A collaborator's row: reading and writing.
pub open spec fn spec_user_collaborator(user: u64) -> PermissionOverwrite {
    PermissionOverwrite {
        allow: viewable() | writable(),
        deny: 0,
        kind: OverwriteKind::Member(user),
    }
}

/// A viewer's row: reading.
pub open spec fn spec_user_viewer(user: u64) -> PermissionOverwrite {
    PermissionOverwrite { allow: viewable(), deny: 0, kind: OverwriteKind::Member(user) }
}

/// A banned user's row: neither reading nor writing.
pub open spec fn spec_user_banned(user: u64) -> PermissionOverwrite {
    PermissionOverwrite {
        allow: 0,
        deny: viewable() | writable(),
        kind: OverwriteKind::Member(user),
    }
}

/// What a visibility mode does to the member role's row.
pub open spec fn spec_mode_change(mode: VisibilityMode, member_role: u64) -> AclChange {
    match mode {
        VisibilityMode::Public => AclChange::Put(spec_channel_public(member_role)),
        VisibilityMode::Visible => AclChange::Put(spec_channel_viewable(member_role)),
        VisibilityMode::Private => AclChange::Remove(OverwriteKind::Role(member_role)),
    }
}

/// What an action on a named user does to that user's row.
pub open spec fn spec_user_change(action: UserAction, user: u64) -> AclChange {
    match action {
        UserAction::AddViewer => AclChange::Put(spec_user_viewer(user)),
        UserAction::Collaborator => AclChange::Put(spec_user_collaborator(user)),
        UserAction::Ban => AclChange::Put(spec_user_banned(user)),
        UserAction::RemoveViewer | UserAction::Unban => AclChange::Remove(
            OverwriteKind::Member(user),
        ),
    }
}

/// The rows a channel is created with: hidden from everyone, owned by its
/// creator, public to members.
pub open spec fn spec_creation_overwrites(everyone: u64, creator: u64, member: u64) -> Seq<
    PermissionOverwrite,
> {
    seq![spec_hide_to_everyone(everyone), spec_user_owner(creator), spec_channel_public(member)]
}

/// The rows that repairing a channel's permissions writes again.
pub open spec fn spec_repair_overwrites(everyone: u64, owner: u64) -> Seq<PermissionOverwrite> {
    seq![spec_hide_to_everyone(everyone), spec_user_owner(owner)]
}

/// Hides a channel from the everyone role `role`.
pub fn hide_to_everyone(role: u64) -> (row: PermissionOverwrite)
    ensures
        row == spec_hide_to_everyone(role),
{
    PermissionOverwrite { allow: 0, deny: perm_viewable(), kind: OverwriteKind::Role(role) }
}

/// Lets the role `role` read and write.
pub fn channel_public(role: u64) -> (row: PermissionOverwrite)
    ensures
        row == spec_channel_public(role),
{
    PermissionOverwrite {
        allow: perm_viewable() | perm_writable(),
        deny: 0,
        kind: OverwriteKind::Role(role),
    }
}

/// Lets the role `role` read, and denies it writing.
pub fn channel_viewable(role: u64) -> (row: PermissionOverwrite)
    ensures
        row == spec_channel_viewable(role),
{
    PermissionOverwrite {
        allow: perm_viewable(),
        deny: perm_writable(),
        kind: OverwriteKind::Role(role),
    }
}

/// Gives `user` the owner's permissions.
pub fn user_owner(user: u64) -> (row: PermissionOverwrite)
    ensures
        row == spec_user_owner(user),
{
    PermissionOverwrite { allow: perm_owner(), deny: 0, kind: OverwriteKind::Member(user) }
}

/// Lets `user` read and write.
pub fn user_collaborator(user: u64) -> (row: PermissionOverwrite)
    ensures
        row == spec_user_collaborator(user),
{
    PermissionOverwrite {
        allow: perm_viewable() | perm_writable(),
        deny: 0,
        kind: OverwriteKind::Member(user),
    }
}

/// Lets `user` read.
pub fn user_viewer(user: u64) -> (row: PermissionOverwrite)
    ensures
        row == spec_user_viewer(user),
{
    PermissionOverwrite { allow: perm_viewable(), deny: 0, kind: OverwriteKind::Member(user) }
}

/// Denies `user` reading and writing.
pub fn user_banned(user: u64) -> (row: PermissionOverwrite)
    ensures
        row == spec_user_banned(user),
{
    PermissionOverwrite {
        allow: 0,
        deny: perm_viewable() | perm_writable(),
        kind: OverwriteKind::Member(user),
    }
}

/// The change that puts a channel into `mode` for the member role.
pub fn mode_change(mode: VisibilityMode, member_role: u64) -> (change: AclChange)
    ensures
        change == spec_mode_change(mode, member_role),
{
    match mode {
        VisibilityMode::Public => AclChange::Put(channel_public(member_role)),
        VisibilityMode::Visible => AclChange::Put(channel_viewable(member_role)),
        VisibilityMode::Private => AclChange::Remove(OverwriteKind::Role(member_role)),
    }
}

/// The change that `action` makes for the named user `user`.
pub fn user_change(action: UserAction, user: u64) -> (change: AclChange)
    ensures
        change == spec_user_change(action, user),
{
    match action {
        UserAction::AddViewer => AclChange::Put(user_viewer(user)),
        UserAction::Collaborator => AclChange::Put(user_collaborator(user)),
        UserAction::Ban => AclChange::Put(user_banned(user)),
        UserAction::RemoveViewer => AclChange::Remove(OverwriteKind::Member(user)),
        UserAction::Unban => AclChange::Remove(OverwriteKind::Member(user)),
    }
}

/// The rows a new channel starts with.
pub fn creation_overwrites(everyone: u64, creator: u64, member: u64) -> (rows: Vec<
    PermissionOverwrite,
>)
    ensures
        rows@ == spec_creation_overwrites(everyone, creator, member),
{
    let mut rows: Vec<PermissionOverwrite> = Vec::new();
    rows.push(hide_to_everyone(everyone));
    rows.push(user_owner(creator));
    rows.push(channel_public(member));
    assert(rows@ =~= spec_creation_overwrites(everyone, creator, member));
    rows
}

/// The rows that repair a channel whose owner or everyone row was lost.
pub fn repair_overwrites(everyone: u64, owner: u64) -> (rows: Vec<PermissionOverwrite>)
    ensures
        rows@ == spec_repair_overwrites(everyone, owner),
{
    let mut rows: Vec<PermissionOverwrite> = Vec::new();
    rows.push(hide_to_everyone(everyone));
    rows.push(user_owner(owner));
    assert(rows@ =~= spec_repair_overwrites(everyone, owner));
    rows
}

} // verus!

use conlang_bot::channel::{create_channel, create_recorded, ConChannel};
use conlang_bot::commands::{
    archive, ban, category, contributor, create_interaction, delete, delete_interaction, edit,
    edit_modal, fixperms, mode, unban, user_action_step, viewer,
};
use conlang_bot::lifecycle::{Effect, Facts, Lookup, Outcome, Reply, Request, Step};
use conlang_bot::permissions::{
    channel_public, channel_viewable, hide_to_everyone, user_banned, user_collaborator,
    user_owner, user_viewer, AclChange, OverwriteKind, UserAction, VisibilityMode,
};
use conlang_bot::profile::{Category, Profile, ProfileRoles};
use conlang_bot::registry::Registry;

const OWNER: u64 = 11;
const STRANGER: u64 = 12;
const MANAGER_BITS: Option<u64> = Some(1 << 4);

fn roles() -> ProfileRoles {
    ProfileRoles { everyone: 1, member: 2, conlanger: 3 }
}

fn profile() -> Profile {
    Profile {
        name: "test".to_string(),
        guild: 77,
        archives: vec![900, 901, 902],
        private_archives: vec![950],
        per_row: 3,
        roles: roles(),
        categories: vec![
            Category { id: 100, name: "Conlangs".to_string() },
            Category { id: 200, name: "Natlangs".to_string() },
        ],
    }
}

fn say(reply: Reply) -> Step {
    Step::Finish(Outcome { first: None, second: None, reply })
}

fn say_after(first: Effect, reply: Reply) -> Step {
    Step::Finish(Outcome { first: Some(first), second: None, reply })
}

fn say_after_both(first: Effect, second: Effect, reply: Reply) -> Step {
    Step::Finish(Outcome { first: Some(first), second: Some(second), reply })
}

fn known(category: Option<u64>, parent: Option<u64>) -> Facts {
    Facts {
        record: Lookup::Found(ConChannel { id: 500, owner: OWNER, category }),
        parent: Lookup::Found(parent),
        ..Facts::new()
    }
}

#[test]
fn create_asks_in_order() {
    let mut facts = Facts::new();
    assert_eq!(create_channel(&roles(), OWNER, 100, &facts), Step::Ask(Request::CountOwned(OWNER)));
    facts.owned = Lookup::Found(1);
    assert_eq!(
        create_channel(&roles(), OWNER, 100, &facts),
        Step::Ask(Request::CreateChannel {
            category: 100,
            hidden: hide_to_everyone(1),
            owner: user_owner(OWNER),
            public: channel_public(2),
        })
    );
    facts.created = Lookup::Found(500);
    assert_eq!(
        create_channel(&roles(), OWNER, 100, &facts),
        Step::Ask(Request::InsertRecord(ConChannel { id: 500, owner: OWNER, category: Some(100) }))
    );
    facts.stored = Lookup::Found(());
    assert_eq!(
        create_channel(&roles(), OWNER, 100, &facts),
        say_after_both(Effect::Sort(100), Effect::GrantRole(3), Reply::Created(500))
    );
}

#[test]
fn create_stops_at_the_quota() {
    let mut facts = Facts::new();
    facts.owned = Lookup::Found(2);
    assert_eq!(create_channel(&roles(), OWNER, 100, &facts), say(Reply::QuotaReached));
    facts.owned = Lookup::Found(3);
    facts.created = Lookup::Found(500);
    assert_eq!(create_channel(&roles(), OWNER, 100, &facts), say(Reply::QuotaReached));
    facts.owned = Lookup::Failed;
    assert_eq!(create_channel(&roles(), OWNER, 100, &facts), say(Reply::StorageFailed));
}

#[test]
fn create_without_a_platform_channel_writes_no_record() {
    let mut facts = Facts::new();
    facts.owned = Lookup::Found(0);
    facts.created = Lookup::Failed;
    assert_eq!(create_channel(&roles(), OWNER, 100, &facts), say(Reply::PlatformFailed));
}

#[test]
fn create_deletes_the_channel_whose_record_was_refused() {
    let mut facts = Facts::new();
    facts.owned = Lookup::Found(0);
    facts.created = Lookup::Found(500);
    facts.stored = Lookup::Failed;
    assert_eq!(
        create_channel(&roles(), OWNER, 100, &facts),
        say_after(Effect::DeleteChannel(500), Reply::InsertFailed)
    );
}

#[test]
fn two_channels_are_created_and_the_third_is_refused() {
    let mut registry = Registry::new();
    let first = create_recorded(&mut registry, &roles(), OWNER, 100, Some(500));
    assert_eq!(
        Step::Finish(first),
        say_after_both(Effect::Sort(100), Effect::GrantRole(3), Reply::Created(500))
    );
    assert_eq!(
        registry.get_by_id(500),
        Ok(ConChannel { id: 500, owner: OWNER, category: Some(100) })
    );
    let second = create_recorded(&mut registry, &roles(), OWNER, 200, Some(501));
    assert_eq!(second.reply, Reply::Created(501));
    assert_eq!(registry.len(), 2);
    let third = create_recorded(&mut registry, &roles(), OWNER, 100, Some(502));
    assert_eq!(Step::Finish(third), say(Reply::QuotaReached));
    assert_eq!(registry.len(), 2);
    assert!(registry.get_by_id(502).is_err());
    let other = create_recorded(&mut registry, &roles(), STRANGER, 100, Some(502));
    assert_eq!(other.reply, Reply::Created(502));
}

#[test]
fn a_failed_platform_leaves_the_registry_alone() {
    let mut registry = Registry::new();
    let outcome = create_recorded(&mut registry, &roles(), OWNER, 100, None);
    assert_eq!(Step::Finish(outcome), say(Reply::PlatformFailed));
    assert_eq!(registry.len(), 0);
}

#[test]
fn a_refused_record_is_compensated() {
    let mut registry = Registry::new();
    assert!(registry.insert(ConChannel { id: 500, owner: STRANGER, category: None }).is_ok());
    let outcome = create_recorded(&mut registry, &roles(), OWNER, 100, Some(500));
    assert_eq!(
        Step::Finish(outcome),
        say_after(Effect::DeleteChannel(500), Reply::InsertFailed)
    );
    assert_eq!(registry.len(), 1);
    assert_eq!(
        registry.get_by_id(500),
        Ok(ConChannel { id: 500, owner: STRANGER, category: None })
    );
}

#[test]
fn creation_form_is_shown_below_the_quota() {
    let mut facts = Facts::new();
    assert_eq!(create_interaction::run(OWNER, &facts), Step::Ask(Request::CountOwned(OWNER)));
    facts.owned = Lookup::Found(0);
    assert_eq!(create_interaction::run(OWNER, &facts), say(Reply::CreateForm));
    facts.owned = Lookup::Found(1);
    assert_eq!(create_interaction::run(OWNER, &facts), say(Reply::CreateForm));
    facts.owned = Lookup::Found(2);
    assert_eq!(create_interaction::run(OWNER, &facts), say(Reply::QuotaReached));
    facts.owned = Lookup::Failed;
    assert_eq!(create_interaction::run(OWNER, &facts), say(Reply::StorageFailed));
}

#[test]
fn archiving_needs_no_category() {
    let profile = profile();
    let facts = known(None, Some(100));
    assert_eq!(
        archive::run(&profile, OWNER, None, &facts, &vec![]),
        Step::Ask(Request::CountChildren(900))
    );
    assert_eq!(
        archive::run(&profile, OWNER, None, &facts, &vec![Some(50)]),
        Step::Ask(Request::CountChildren(901))
    );
    assert_eq!(
        archive::run(&profile, OWNER, None, &facts, &vec![Some(50), Some(50), Some(3)]),
        say_after_both(Effect::Move(902), Effect::Sort(902), Reply::Archived)
    );
    assert_eq!(
        archive::run(&profile, OWNER, None, &facts, &vec![Some(50), Some(50), Some(50)]),
        say(Reply::NoCapacity)
    );
    let orphan = known(Some(100), None);
    assert_eq!(
        archive::run(&profile, OWNER, None, &orphan, &vec![Some(1)]),
        say_after_both(Effect::Move(900), Effect::Sort(900), Reply::Archived)
    );
}

#[test]
fn unarchiving_needs_a_category() {
    let profile = profile();
    assert_eq!(
        archive::run(&profile, OWNER, None, &known(None, Some(901)), &vec![]),
        say(Reply::NeedsCategory)
    );
    assert_eq!(
        archive::run(&profile, OWNER, None, &known(None, Some(950)), &vec![]),
        say(Reply::NeedsCategory)
    );
    assert_eq!(
        archive::run(&profile, OWNER, None, &known(Some(200), Some(901)), &vec![]),
        say_after_both(Effect::Move(200), Effect::Sort(200), Reply::Unarchived)
    );
    assert_eq!(
        archive::run(&profile, STRANGER, MANAGER_BITS, &known(Some(200), Some(950)), &vec![]),
        say_after_both(Effect::Move(200), Effect::Sort(200), Reply::Unarchived)
    );
}

#[test]
fn archive_guards() {
    let profile = profile();
    let mut facts = Facts::new();
    assert_eq!(archive::run(&profile, OWNER, None, &facts, &vec![]), Step::Ask(Request::FetchRecord));
    facts.record = Lookup::Failed;
    assert_eq!(archive::run(&profile, OWNER, None, &facts, &vec![]), say(Reply::NoRecord));
    facts.record = Lookup::Found(ConChannel { id: 500, owner: OWNER, category: None });
    assert_eq!(archive::run(&profile, STRANGER, None, &facts, &vec![]), say(Reply::NotYours));
    assert_eq!(archive::run(&profile, OWNER, None, &facts, &vec![]), Step::Ask(Request::FetchChannel));
    facts.parent = Lookup::Failed;
    assert_eq!(archive::run(&profile, OWNER, None, &facts, &vec![]), say(Reply::ChannelUnavailable));
}

#[test]
fn category_change_writes_the_registry_first() {
    let profile = profile();
    let mut facts = Facts::new();
    assert_eq!(category::run(&profile, "natlangs", OWNER, &facts), Step::Ask(Request::FetchRecord));
    facts.record = Lookup::Found(ConChannel { id: 500, owner: OWNER, category: Some(100) });
    assert_eq!(category::run(&profile, "natlangs", STRANGER, &facts), say(Reply::NotYours));
    assert_eq!(category::run(&profile, "nowhere", OWNER, &facts), say(Reply::NoSuchCategory));
    assert_eq!(category::run(&profile, "natlangs", OWNER, &facts), Step::Ask(Request::FetchChannel));
    facts.parent = Lookup::Found(Some(100));
    assert_eq!(
        category::run(&profile, "natlangs", OWNER, &facts),
        Step::Ask(Request::UpdateRecord(ConChannel { id: 500, owner: OWNER, category: Some(200) }))
    );
    facts.stored = Lookup::Failed;
    assert_eq!(category::run(&profile, "natlangs", OWNER, &facts), say(Reply::UpdateFailed));
    facts.stored = Lookup::Found(());
    assert_eq!(
        category::run(&profile, "natlangs", OWNER, &facts),
        say_after_both(Effect::Move(200), Effect::Sort(200), Reply::CategoryChanged(200))
    );
}

#[test]
fn category_change_leaves_a_displaced_channel_where_it_is() {
    let mut archived = known(Some(100), Some(900));
    archived.stored = Lookup::Found(());
    assert_eq!(category::move_to(Some(200), OWNER, &archived), say(Reply::CategoryChanged(200)));
    let mut unassigned = known(None, None);
    unassigned.stored = Lookup::Found(());
    assert_eq!(category::move_to(Some(200), OWNER, &unassigned), say(Reply::CategoryChanged(200)));
    let mut loose = known(Some(100), None);
    loose.stored = Lookup::Found(());
    assert_eq!(category::move_to(Some(200), OWNER, &loose), say(Reply::CategoryChanged(200)));
    assert_eq!(category::move_to(None, OWNER, &loose), say(Reply::NoSuchCategory));
    loose.parent = Lookup::Failed;
    assert_eq!(category::move_to(Some(200), OWNER, &loose), say(Reply::ChannelUnavailable));
}

#[test]
fn deletion_has_two_phases() {
    let mut facts = Facts::new();
    assert_eq!(delete::run(OWNER, None, &facts), Step::Ask(Request::FetchRecord));
    assert_eq!(delete_interaction::run(OWNER, &facts), Step::Ask(Request::FetchRecord));
    facts.record = Lookup::Failed;
    assert_eq!(delete::run(OWNER, None, &facts), say(Reply::NoRecord));
    assert_eq!(delete_interaction::run(OWNER, &facts), say(Reply::NoRecord));
    facts.record = Lookup::Found(ConChannel { id: 500, owner: OWNER, category: None });
    assert_eq!(delete::run(OWNER, None, &facts), say(Reply::ConfirmDelete));
    assert_eq!(delete::run(STRANGER, MANAGER_BITS, &facts), say(Reply::ConfirmDelete));
    assert_eq!(delete::run(STRANGER, Some(0), &facts), say(Reply::NotYours));
    assert_eq!(
        delete_interaction::run(OWNER, &facts),
        say_after(Effect::DeleteChannel(500), Reply::Deleting)
    );
    assert_eq!(delete_interaction::run(STRANGER, &facts), say(Reply::NotYours));
}

#[test]
fn edit_sorts_the_parent() {
    let mut facts = Facts::new();
    assert_eq!(edit::run(OWNER, None, &facts), Step::Ask(Request::FetchRecord));
    assert_eq!(edit_modal::run(OWNER, None, &facts), Step::Ask(Request::FetchRecord));
    facts.record = Lookup::Failed;
    assert_eq!(edit::run(OWNER, None, &facts), say(Reply::NoRecord));
    assert_eq!(edit_modal::run(OWNER, None, &facts), say(Reply::NoRecord));
    facts.record = Lookup::Found(ConChannel { id: 500, owner: OWNER, category: None });
    assert_eq!(edit::run(STRANGER, None, &facts), say(Reply::NotYoursToEdit));
    assert_eq!(edit::run(OWNER, None, &facts), Step::Ask(Request::FetchChannel));
    facts.parent = Lookup::Failed;
    assert_eq!(edit::run(OWNER, None, &facts), say(Reply::ChannelUnavailable));
    facts.parent = Lookup::Found(Some(100));
    assert_eq!(edit::run(STRANGER, MANAGER_BITS, &facts), say(Reply::EditForm));
    assert_eq!(edit_modal::run(STRANGER, None, &facts), say(Reply::NotYoursToEdit));
    assert_eq!(edit_modal::run(OWNER, None, &facts), Step::Ask(Request::EditChannel));
    assert_eq!(edit_modal::run(STRANGER, MANAGER_BITS, &facts), Step::Ask(Request::EditChannel));
    facts.edited = Lookup::Failed;
    assert_eq!(edit_modal::run(OWNER, None, &facts), say(Reply::EditFailed));
    facts.edited = Lookup::Found(Some(100));
    assert_eq!(edit_modal::run(OWNER, None, &facts), say_after(Effect::Sort(100), Reply::Edited));
    facts.edited = Lookup::Found(None);
    assert_eq!(edit_modal::run(OWNER, None, &facts), say(Reply::Edited));
}

#[test]
fn mode_is_the_owners_alone() {
    let mut facts = Facts::new();
    assert_eq!(mode::run(VisibilityMode::Public, OWNER, 2, &facts), Step::Ask(Request::FetchRecord));
    facts.record = Lookup::Failed;
    assert_eq!(mode::run(VisibilityMode::Public, OWNER, 2, &facts), say(Reply::Dismiss));
    facts = known(Some(100), Some(100));
    assert_eq!(mode::run(VisibilityMode::Public, STRANGER, 2, &facts), say(Reply::Dismiss));
    assert_eq!(
        mode::run(VisibilityMode::Public, OWNER, 2, &facts),
        say_after(
            Effect::Apply(AclChange::Put(channel_public(2))),
            Reply::ModeSet(VisibilityMode::Public)
        )
    );
    assert_eq!(
        mode::run(VisibilityMode::Visible, OWNER, 2, &facts),
        say_after(
            Effect::Apply(AclChange::Put(channel_viewable(2))),
            Reply::ModeSet(VisibilityMode::Visible)
        )
    );
    assert_eq!(
        mode::run(VisibilityMode::Private, OWNER, 2, &facts),
        say_after(
            Effect::Apply(AclChange::Remove(OverwriteKind::Role(2))),
            Reply::ModeSet(VisibilityMode::Private)
        )
    );
    facts.parent = Lookup::Unasked;
    assert_eq!(mode::run(VisibilityMode::Private, OWNER, 2, &facts), Step::Ask(Request::FetchChannel));
    facts.parent = Lookup::Failed;
    assert_eq!(mode::run(VisibilityMode::Private, OWNER, 2, &facts), say(Reply::ChannelUnavailable));
}

#[test]
fn fixperms_rewrites_two_rows() {
    let mut facts = Facts::new();
    assert_eq!(fixperms::run(&roles(), &facts), Step::Ask(Request::FetchRecord));
    facts.record = Lookup::Failed;
    assert_eq!(fixperms::run(&roles(), &facts), say(Reply::NoRecord));
    facts.record = Lookup::Found(ConChannel { id: 500, owner: OWNER, category: None });
    assert_eq!(fixperms::run(&roles(), &facts), Step::Ask(Request::FetchChannel));
    facts.parent = Lookup::Failed;
    assert_eq!(fixperms::run(&roles(), &facts), say(Reply::ChannelUnavailable));
    facts.parent = Lookup::Found(None);
    assert_eq!(
        fixperms::run(&roles(), &facts),
        say_after_both(
            Effect::Apply(AclChange::Put(hide_to_everyone(1))),
            Effect::Apply(AclChange::Put(user_owner(OWNER))),
            Reply::PermissionsFixed
        )
    );
}

#[test]
fn ban_screens_owner_and_bots() {
    let mut facts = Facts::new();
    assert_eq!(ban::run(OWNER, None, 30, &facts), Step::Ask(Request::FetchRecord));
    facts.record = Lookup::Failed;
    assert_eq!(ban::run(OWNER, None, 30, &facts), say(Reply::Dismiss));
    facts.record = Lookup::Found(ConChannel { id: 500, owner: OWNER, category: None });
    assert_eq!(ban::run(STRANGER, None, 30, &facts), say(Reply::Dismiss));
    assert_eq!(
        ban::run(STRANGER, MANAGER_BITS, OWNER, &facts),
        say(Reply::OwnerTargeted(UserAction::Ban))
    );
    assert_eq!(ban::run(OWNER, None, 30, &facts), Step::Ask(Request::FetchAccount(30)));
    facts.bot = Lookup::Failed;
    assert_eq!(ban::run(OWNER, None, 30, &facts), say(Reply::AccountUnavailable));
    facts.bot = Lookup::Found(true);
    assert_eq!(ban::run(OWNER, None, 30, &facts), say(Reply::BotTargeted(UserAction::Ban)));
    facts.bot = Lookup::Found(false);
    assert_eq!(ban::run(OWNER, None, 30, &facts), Step::Ask(Request::FetchChannel));
    facts.parent = Lookup::Failed;
    assert_eq!(ban::run(OWNER, None, 30, &facts), say(Reply::ChannelUnavailable));
    facts.parent = Lookup::Found(Some(100));
    assert_eq!(
        ban::run(OWNER, None, 30, &facts),
        say_after(
            Effect::Apply(AclChange::Put(user_banned(30))),
            Reply::UserChanged(UserAction::Ban, 30)
        )
    );
    assert_eq!(
        ban::run(STRANGER, MANAGER_BITS, 30, &facts),
        say_after(
            Effect::Apply(AclChange::Put(user_banned(30))),
            Reply::UserChanged(UserAction::Ban, 30)
        )
    );
}

#[test]
fn unban_is_the_owners_alone() {
    let mut facts = known(None, Some(100));
    facts.bot = Lookup::Found(false);
    assert_eq!(
        unban::run(OWNER, 30, &facts),
        say_after(
            Effect::Apply(AclChange::Remove(OverwriteKind::Member(30))),
            Reply::UserChanged(UserAction::Unban, 30)
        )
    );
    assert_eq!(unban::run(STRANGER, 30, &facts), say(Reply::Dismiss));
    assert_eq!(
        user_action_step(UserAction::Unban, STRANGER, MANAGER_BITS, 30, &facts),
        say(Reply::Dismiss)
    );
    assert_eq!(unban::run(OWNER, OWNER, &facts), say(Reply::OwnerTargeted(UserAction::Unban)));
    facts.bot = Lookup::Found(true);
    assert_eq!(unban::run(OWNER, 30, &facts), say(Reply::BotTargeted(UserAction::Unban)));
}

#[test]
fn viewers_are_added_and_removed() {
    let mut facts = known(None, Some(100));
    assert_eq!(viewer::run(true, OWNER, None, 30, &facts), Step::Ask(Request::FetchAccount(30)));
    facts.bot = Lookup::Found(false);
    assert_eq!(
        viewer::run(true, OWNER, None, 30, &facts),
        say_after(
            Effect::Apply(AclChange::Put(user_viewer(30))),
            Reply::UserChanged(UserAction::AddViewer, 30)
        )
    );
    assert_eq!(
        viewer::run(false, STRANGER, MANAGER_BITS, 30, &facts),
        say_after(
            Effect::Apply(AclChange::Remove(OverwriteKind::Member(30))),
            Reply::UserChanged(UserAction::RemoveViewer, 30)
        )
    );
    assert_eq!(
        viewer::run(true, OWNER, None, OWNER, &facts),
        say(Reply::OwnerTargeted(UserAction::AddViewer))
    );
    facts.bot = Lookup::Found(true);
    assert_eq!(
        viewer::run(false, OWNER, None, 30, &facts),
        say(Reply::BotTargeted(UserAction::RemoveViewer))
    );
}

#[test]
fn collaborators_may_be_bots_but_not_the_owner() {
    let facts = known(None, Some(100));
    assert_eq!(
        user_action_step(UserAction::Collaborator, OWNER, None, 30, &facts),
        say_after(
            Effect::Apply(AclChange::Put(user_collaborator(30))),
            Reply::UserChanged(UserAction::Collaborator, 30)
        )
    );
    assert_eq!(
        user_action_step(UserAction::Collaborator, OWNER, None, OWNER, &facts),
        say(Reply::OwnerTargeted(UserAction::Collaborator))
    );
    assert_eq!(
        user_action_step(UserAction::Collaborator, STRANGER, None, 30, &facts),
        say(Reply::Dismiss)
    );
    assert_eq!(
        contributor::run(STRANGER, MANAGER_BITS, 30, &facts),
        say_after(
            Effect::Apply(AclChange::Put(user_collaborator(30))),
            Reply::UserChanged(UserAction::Collaborator, 30)
        )
    );
}

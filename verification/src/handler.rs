//! Which command an interaction is meant for.

use crate::lifecycle::Effect;
use crate::profile::Profile;
use crate::text::{has_prefix, same_text, starts_with};
use vstd::prelude::*;

verus! {

/// The commands members can give.
#[derive(Clone, Copy, Debug, PartialEq, Eq, Structural)]
pub enum Command {
    Archive,
    Ban,
    Category,
    Contributor,
    Create,
    Debug,
    Delete,
    Edit,
    Fixperms,
    Migrate,
    Mode,
    Unban,
    Viewer,
    Wordgen,
}

/// What a pressed button asks for.
#[derive(Clone, Copy, Debug, PartialEq, Eq, Structural)]
pub enum ComponentAction {
    /// The form for a new channel.
    CreateChannel,
    /// The confirmed deletion of the channel.
    DeleteChannel,
}

/// What a submitted form asks for.
#[derive(Clone, Copy, Debug, PartialEq, Eq, Structural)]
pub enum ModalAction {
    /// The creation of a channel.
    CreateChannel,
    /// The edit of the channel's name and topic.
    EditChannel,
}

/// Whether an interaction from `guild` concerns the community of
/// `profile`: one that names no community does, one that names another
/// does not.
pub open spec fn concerns(profile: Profile, guild: Option<u64>) -> bool {
    guild is None || guild == Some(profile.guild)
}

/// The command that `name` names.
pub open spec fn command_named(name: Seq<char>) -> Option<Command> {
    if name == "archive"@ {
        Some(Command::Archive)
    } else if name == "ban"@ {
        Some(Command::Ban)
    } else if name == "category"@ {
        Some(Command::Category)
    } else if name == "contributor"@ {
        Some(Command::Contributor)
    } else if name == "create"@ {
        Some(Command::Create)
    } else if name == "debug"@ {
        Some(Command::Debug)
    } else if name == "delete"@ {
        Some(Command::Delete)
    } else if name == "edit"@ {
        Some(Command::Edit)
    } else if name == "fixperms"@ {
        Some(Command::Fixperms)
    } else if name == "migrate"@ {
        Some(Command::Migrate)
    } else if name == "mode"@ {
        Some(Command::Mode)
    } else if name == "unban"@ {
        Some(Command::Unban)
    } else if name == "viewer"@ {
        Some(Command::Viewer)
    } else if name == "wordgen"@ {
        Some(Command::Wordgen)
    } else {
        None
    }
}

/// What the button with the identifier `id` asks for.
pub open spec fn component_named(id: Seq<char>) -> Option<ComponentAction> {
    if starts_with(id, "create-channel"@) {
        Some(ComponentAction::CreateChannel)
    } else if id == "delete-channel"@ {
        Some(ComponentAction::DeleteChannel)
    } else {
        None
    }
}

/// What the form with the identifier `id` asks for.
pub open spec fn modal_named(id: Seq<char>) -> Option<ModalAction> {
    if starts_with(id, "create-channel"@) {
        Some(ModalAction::CreateChannel)
    } else if id == "edit-channel"@ {
        Some(ModalAction::EditChannel)
    } else {
        None
    }
}

/// Routes the platform's events to the commands.
pub struct Handler;

impl Handler {
    /// What a channel's deletion on the platform entails: its record goes.
    /// This is the one place where records are retired, whoever deleted the
    /// channel.
    pub fn channel_delete(&self, channel: u64) -> (effect: Effect)
        ensures
            effect == Effect::DeleteRecord(channel),
    {
        Effect::DeleteRecord(channel)
    }

    /// Whether an interaction from `guild` is handled at all.
    pub fn concerns(&self, profile: &Profile, guild: Option<u64>) -> (handled: bool)
        ensures
            handled == concerns(*profile, guild),
    {
        match guild {
            Some(id) => id == profile.guild,
            None => true,
        }
    }

    /// The command that an interaction from `guild` with the name `name`
    /// is meant for, if any.
    pub fn command(&self, profile: &Profile, guild: Option<u64>, name: &str) -> (command: Option<
        Command,
    >)
        ensures
            command == if concerns(*profile, guild) {
                command_named(name@)
            } else {
                None
            },
    {
        if !self.concerns(profile, guild) {
            return None;
        }
        if same_text(name, "archive") {
            Some(Command::Archive)
        } else if same_text(name, "ban") {
            Some(Command::Ban)
        } else if same_text(name, "category") {
            Some(Command::Category)
        } else if same_text(name, "contributor") {
            Some(Command::Contributor)
        } else if same_text(name, "create") {
            Some(Command::Create)
        } else if same_text(name, "debug") {
            Some(Command::Debug)
        } else if same_text(name, "delete") {
            Some(Command::Delete)
        } else if same_text(name, "edit") {
            Some(Command::Edit)
        } else if same_text(name, "fixperms") {
            Some(Command::Fixperms)
        } else if same_text(name, "migrate") {
            Some(Command::Migrate)
        } else if same_text(name, "mode") {
            Some(Command::Mode)
        } else if same_text(name, "unban") {
            Some(Command::Unban)
        } else if same_text(name, "viewer") {
            Some(Command::Viewer)
        } else if same_text(name, "wordgen") {
            Some(Command::Wordgen)
        } else {
            None
        }
    }

    /// What the button `id`, pressed in `guild`, asks for, if anything.
    pub fn component(&self, profile: &Profile, guild: Option<u64>, id: &str) -> (action: Option<
        ComponentAction,
    >)
        ensures
            action == if concerns(*profile, guild) {
                component_named(id@)
            } else {
                None
            },
    {
        if !self.concerns(profile, guild) {
            None
        } else if has_prefix(id, "create-channel") {
            Some(ComponentAction::CreateChannel)
        } else if same_text(id, "delete-channel") {
            Some(ComponentAction::DeleteChannel)
        } else {
            None
        }
    }

    /// What the form `id`, submitted in `guild`, asks for, if anything.
    pub fn modal(&self, profile: &Profile, guild: Option<u64>, id: &str) -> (action: Option<
        ModalAction,
    >)
        ensures
            action == if concerns(*profile, guild) {
                modal_named(id@)
            } else {
                None
            },
    {
        if !self.concerns(profile, guild) {
            None
        } else if has_prefix(id, "create-channel") {
            Some(ModalAction::CreateChannel)
        } else if same_text(id, "edit-channel") {
            Some(ModalAction::EditChannel)
        } else {
            None
        }
    }
}

} // verus!

//! The channel lifecycle: for each command, what to find out next, what to
//! do, and what to tell the member, given what is known so far.
//!
//! The caller owns the conversation with the platform and the registry. It
//! starts with `Facts::new()`, asks a step function what comes next, carries
//! out the `Request` it gets, notes the answer in the facts, and asks again,
//! until the step function returns an `Outcome`.

use crate::channel::ConChannel;
use crate::permissions::{AclChange, PermissionOverwrite, UserAction, VisibilityMode};
use vstd::prelude::*;

verus! {

/// What is known of something that has to be asked for.
#[derive(Clone, Copy, Debug)]
pub enum Lookup<T> {
    /// Not asked yet.
    Unasked,
    /// Asked, and the platform or the registry failed.
    Failed,
    /// Asked and answered.
    Found(T),
}

/// What one command has found out so far.
#[derive(Clone, Copy, Debug)]
pub struct Facts {
    /// The registry's record of the channel the command was given in.
    pub record: Lookup<ConChannel>,
    /// The container the platform shows that channel in.
    pub parent: Lookup<Option<u64>>,
    /// Whether the targeted account is a bot.
    pub bot: Lookup<bool>,
    /// How many channels the acting member owns.
    pub owned: Lookup<usize>,
    /// The identifier of the channel the platform created.
    pub created: Lookup<u64>,
    /// Whether the registry took the write.
    pub stored: Lookup<()>,
    /// The container the platform shows the channel in after its edit.
    pub edited: Lookup<Option<u64>>,
}

/// A call whose answer decides how the command goes on.
#[derive(Clone, Copy, Debug, PartialEq, Eq, Structural)]
pub enum Request {
    /// Read the channel's record. The answer is `Facts::record`.
    FetchRecord,
    /// Count the records the member owns. The answer is `Facts::owned`.
    CountOwned(u64),
    /// Read the account of a user. The answer is `Facts::bot`.
    FetchAccount(u64),
    /// Read the channel from the platform. The answer is `Facts::parent`.
    FetchChannel,
    /// Count the channels in a container. The answer extends the counts
    /// handed to `archive_step`.
    CountChildren(u64),
    /// Create a text channel in `category` with these three rows. The
    /// answer is `Facts::created`.
    CreateChannel {
        category: u64,
        hidden: PermissionOverwrite,
        owner: PermissionOverwrite,
        public: PermissionOverwrite,
    },
    /// Add the record. The answer is `Facts::stored`.
    InsertRecord(ConChannel),
    /// Replace the record. The answer is `Facts::stored`.
    UpdateRecord(ConChannel),
    /// Write the submitted name and topic. The answer is `Facts::edited`.
    EditChannel,
}

/// A call made on a best-effort basis: its failure is logged and changes
/// nothing of what the member is told.
#[derive(Clone, Copy, Debug, PartialEq, Eq, Structural)]
pub enum Effect {
    /// Put a container's channels in the order of their names.
    Sort(u64),
    /// Move the command's channel into a container.
    Move(u64),
    /// Change the access list of the command's channel.
    Apply(AclChange),
    /// Give the acting member a role.
    GrantRole(u64),
    /// Delete a channel on the platform.
    DeleteChannel(u64),
    /// Delete a channel's record.
    DeleteRecord(u64),
}

/// What the member is told.
#[derive(Clone, Copy, Debug, PartialEq, Eq, Structural)]
pub enum Reply {
    /// Nothing: the pending response is withdrawn.
    Dismiss,
    /// The registry has no record of the channel.
    NoRecord,
    /// The member neither owns the channel nor manages channels.
    NotYours,
    /// As `NotYours`, in the wording of the edit command.
    NotYoursToEdit,
    /// The platform did not return the channel.
    ChannelUnavailable,
    /// The platform did not return the targeted account.
    AccountUnavailable,
    /// The channel's owner cannot be the target of this action.
    OwnerTargeted(UserAction),
    /// A bot cannot be the target of this action.
    BotTargeted(UserAction),
    /// The action on the named user was carried out.
    UserChanged(UserAction, u64),
    /// The channel is in the mode now.
    ModeSet(VisibilityMode),
    /// The owner's and everyone's rows were written again.
    PermissionsFixed,
    /// The channel was archived.
    Archived,
    /// The channel was brought back to its category.
    Unarchived,
    /// The channel has no category to return to: one has to be chosen
    /// first.
    NeedsCategory,
    /// Every archive container is full.
    NoCapacity,
    /// No declared category has the name.
    NoSuchCategory,
    /// The channel belongs to the category with this identifier now.
    CategoryChanged(u64),
    /// The registry refused the new category.
    UpdateFailed,
    /// The member owns as many channels as anyone may.
    QuotaReached,
    /// The registry could not be read.
    StorageFailed,
    /// The platform did not create the channel.
    PlatformFailed,
    /// The registry did not take the new channel's record.
    InsertFailed,
    /// The channel with this identifier was created.
    Created(u64),
    /// Show the form for a new channel's name and topic.
    CreateForm,
    /// Ask whether the channel shall really be deleted.
    ConfirmDelete,
    /// The channel is being deleted.
    Deleting,
    /// Show the form with the channel's name and topic.
    EditForm,
    /// The name and topic were written.
    Edited,
    /// The platform refused the edit.
    EditFailed,
}

/// How a command ends: up to two best-effort calls, in this order, and the
/// reply.
#[derive(Clone, Copy, Debug, PartialEq, Eq, Structural)]
pub struct Outcome {
    pub first: Option<Effect>,
    pub second: Option<Effect>,
    pub reply: Reply,
}

/// What a command does next.
#[derive(Clone, Copy, Debug, PartialEq, Eq, Structural)]
pub enum Step {
    /// Make this call and note its answer in the facts.
    Ask(Request),
    /// Make the outcome's calls and send its reply: the command is over.
    Finish(Outcome),
}

/// The end of a command that only replies.
pub open spec fn say(reply: Reply) -> Step {
    Step::Finish(Outcome { first: None, second: None, reply })
}

/// The end of a command that makes one call.
pub open spec fn say_after(first: Effect, reply: Reply) -> Step {
    Step::Finish(Outcome { first: Some(first), second: None, reply })
}

/// The end of a command that makes two calls.
pub open spec fn say_after_both(first: Effect, second: Effect, reply: Reply) -> Step {
    Step::Finish(Outcome { first: Some(first), second: Some(second), reply })
}

/// Whether an outcome makes the call `effect`.
pub open spec fn makes(step: Step, effect: Effect) -> bool {
    step matches Step::Finish(outcome) && (outcome.first == Some(effect) || outcome.second == Some(
        effect,
    ))
}

/// Whether a step writes to the registry.
pub open spec fn writes_record(step: Step) -> bool {
    step matches Step::Ask(request) && (request is InsertRecord || request is UpdateRecord)
}

/// Whether a step changes anything on the platform.
pub open spec fn touches_platform(step: Step) -> bool {
    match step {
        Step::Ask(request) => request is CreateChannel || request is EditChannel,
        Step::Finish(outcome) => outcome.first is Some || outcome.second is Some,
    }
}

/// Whether the answer to `request` is still missing from `facts`.
pub open spec fn unanswered(facts: Facts, request: Request) -> bool {
    match request {
        Request::FetchRecord => facts.record is Unasked,
        Request::CountOwned(_) => facts.owned is Unasked,
        Request::FetchAccount(_) => facts.bot is Unasked,
        Request::FetchChannel => facts.parent is Unasked,
        Request::CountChildren(_) => true,
        Request::CreateChannel { .. } => facts.created is Unasked,
        Request::InsertRecord(_) => facts.stored is Unasked,
        Request::UpdateRecord(_) => facts.stored is Unasked,
        Request::EditChannel => facts.edited is Unasked,
    }
}

/// Whether a step asks for nothing that `facts` already holds. A command
/// whose steps all do comes to its end: every answer fills a gap.
pub open spec fn asks_news(facts: Facts, step: Step) -> bool {
    step matches Step::Ask(request) ==> unanswered(facts, request)
}

pub(crate) fn end(reply: Reply) -> (step: Step)
    ensures
        step == say(reply),
{
    Step::Finish(Outcome { first: None, second: None, reply })
}

pub(crate) fn end_after(first: Effect, reply: Reply) -> (step: Step)
    ensures
        step == say_after(first, reply),
{
    Step::Finish(Outcome { first: Some(first), second: None, reply })
}

pub(crate) fn end_after_both(first: Effect, second: Effect, reply: Reply) -> (step: Step)
    ensures
        step == say_after_both(first, second, reply),
{
    Step::Finish(Outcome { first: Some(first), second: Some(second), reply })
}

impl Facts {
    /// Nothing is known yet.
    pub fn new() -> (facts: Facts)
        ensures
            facts.record is Unasked,
            facts.parent is Unasked,
            facts.bot is Unasked,
            facts.owned is Unasked,
            facts.created is Unasked,
            facts.stored is Unasked,
            facts.edited is Unasked,
    {
        Facts {
            record: Lookup::Unasked,
            parent: Lookup::Unasked,
            bot: Lookup::Unasked,
            owned: Lookup::Unasked,
            created: Lookup::Unasked,
            stored: Lookup::Unasked,
            edited: Lookup::Unasked,
        }
    }
}

} // verus!

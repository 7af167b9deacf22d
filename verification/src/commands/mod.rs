//! The commands, one module each. Every `run` is one step of its command:
//! see `crate::lifecycle`.

pub mod archive;
pub mod ban;
pub mod category;
pub mod contributor;
pub mod create;
pub mod create_interaction;
pub mod create_modal;
pub mod delete;
pub mod delete_interaction;
pub mod edit;
pub mod edit_modal;
pub mod fixperms;
pub mod mode;
pub mod unban;
pub mod viewer;

use crate::channel::{ConChannel, Relationship};
use crate::lifecycle::{
    asks_news, end, end_after, say, say_after, touches_platform, writes_record, Effect, Facts, Lookup, Reply,
    Request, Step,
};
use crate::permissions::{spec_user_change, user_change, UserAction};
use vstd::prelude::*;

verus! {

/// Who may take an action on a named user: lifting a ban is the owner's
/// alone, the others are open to managers too.
pub open spec fn may_invoke(action: UserAction, relationship: Relationship) -> bool {
    match action {
        UserAction::Unban => relationship == Relationship::Owner,
        _ => relationship != Relationship::Other,
    }
}

/// Whether the targeted account is looked up before the action: bots are
/// kept out of bans and of the viewer list.
pub open spec fn screens_bots(action: UserAction) -> bool {
    action != UserAction::Collaborator
}

/// An action on a named user, step by step: the record, the acting
/// member's standing, the target (never the owner, and for most actions
/// never a bot), the platform channel, and then the change to the target's
/// row.
pub open spec fn spec_user_action_step(
    action: UserAction,
    actor: u64,
    permissions: Option<u64>,
    target: u64,
    facts: Facts,
) -> Step {
    match facts.record {
        Lookup::Unasked => Step::Ask(Request::FetchRecord),
        Lookup::Failed => say(Reply::Dismiss),
        Lookup::Found(channel) => if !may_invoke(
            action,
            channel.spec_relationship(actor, permissions),
        ) {
            say(Reply::Dismiss)
        } else if channel.owner == target {
            say(Reply::OwnerTargeted(action))
        } else if screens_bots(action) && facts.bot is Unasked {
            Step::Ask(Request::FetchAccount(target))
        } else if screens_bots(action) && facts.bot is Failed {
            say(Reply::AccountUnavailable)
        } else if screens_bots(action) && facts.bot->Found_0 {
            say(Reply::BotTargeted(action))
        } else {
            match facts.parent {
                Lookup::Unasked => Step::Ask(Request::FetchChannel),
                Lookup::Failed => say(Reply::ChannelUnavailable),
                Lookup::Found(_) => say_after(
                    Effect::Apply(spec_user_change(action, target)),
                    Reply::UserChanged(action, target),
                ),
            }
        },
    }
}

/// What an action on a named user does next.
pub fn user_action_step(
    action: UserAction,
    actor: u64,
    permissions: Option<u64>,
    target: u64,
    facts: &Facts,
) -> (step: Step)
    ensures
        step == spec_user_action_step(action, actor, permissions, target, *facts),
{
    let channel: ConChannel = match facts.record {
        Lookup::Unasked => { return Step::Ask(Request::FetchRecord); },
        Lookup::Failed => { return end(Reply::Dismiss); },
        Lookup::Found(channel) => channel,
    };
    let allowed = match action {
        UserAction::Unban => channel.owner == actor,
        _ => channel.check_permission(actor, permissions),
    };
    if !allowed {
        return end(Reply::Dismiss);
    }
    if channel.owner == target {
        return end(Reply::OwnerTargeted(action));
    }
    let screened = match action {
        UserAction::Collaborator => false,
        _ => true,
    };
    if screened {
        match facts.bot {
            Lookup::Unasked => { return Step::Ask(Request::FetchAccount(target)); },
            Lookup::Failed => { return end(Reply::AccountUnavailable); },
            Lookup::Found(bot) => {
                if bot {
                    return end(Reply::BotTargeted(action));
                }
            },
        }
    }
    match facts.parent {
        Lookup::Unasked => Step::Ask(Request::FetchChannel),
        Lookup::Failed => end(Reply::ChannelUnavailable),
        Lookup::Found(_) => end_after(
            Effect::Apply(user_change(action, target)),
            Reply::UserChanged(action, target),
        ),
    }
}

/// No action on a named user changes anything for the channel's owner, for
/// a bot where bots are screened, or at the word of a member who may not
/// take the action; and none writes to the registry.
pub proof fn lemma_user_action_guards(
    action: UserAction,
    actor: u64,
    permissions: Option<u64>,
    target: u64,
    facts: Facts,
)
    ensures
        !writes_record(spec_user_action_step(action, actor, permissions, target, facts)),
        touches_platform(spec_user_action_step(action, actor, permissions, target, facts)) ==> {
            &&& facts.record is Found
            &&& may_invoke(action, facts.record->Found_0.spec_relationship(actor, permissions))
            &&& facts.record->Found_0.owner != target
            &&& screens_bots(action) ==> facts.bot is Found && !facts.bot->Found_0
        },
{
}

/// An action on a named user asks for nothing twice.
pub proof fn lemma_user_action_proceeds(
    action: UserAction,
    actor: u64,
    permissions: Option<u64>,
    target: u64,
    facts: Facts,
)
    ensures
        asks_news(facts, spec_user_action_step(action, actor, permissions, target, facts)),
{
}

} // verus!

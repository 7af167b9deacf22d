//! Writing the owner's and everyone's rows again.

use crate::lifecycle::{
    asks_news, end, end_after_both, say, say_after_both, Effect, Facts, Lookup, Reply, Request, Step,
};
use crate::permissions::{
    hide_to_everyone, spec_hide_to_everyone, spec_user_owner, user_owner, AclChange,
};
use crate::profile::ProfileRoles;
use vstd::prelude::*;

verus! {

/// Repairing a channel's permissions, step by step: both rows are rebuilt
/// from the record alone.
pub open spec fn spec_run(roles: ProfileRoles, facts: Facts) -> Step {
    match facts.record {
        Lookup::Unasked => Step::Ask(Request::FetchRecord),
        Lookup::Failed => say(Reply::NoRecord),
        Lookup::Found(channel) => match facts.parent {
            Lookup::Unasked => Step::Ask(Request::FetchChannel),
            Lookup::Failed => say(Reply::ChannelUnavailable),
            Lookup::Found(_) => say_after_both(
                Effect::Apply(AclChange::Put(spec_hide_to_everyone(roles.everyone))),
                Effect::Apply(AclChange::Put(spec_user_owner(channel.owner))),
                Reply::PermissionsFixed,
            ),
        },
    }
}

/// What the repair does next.
pub fn run(roles: &ProfileRoles, facts: &Facts) -> (step: Step)
    ensures
        step == spec_run(*roles, *facts),
{
    match facts.record {
        Lookup::Unasked => Step::Ask(Request::FetchRecord),
        Lookup::Failed => end(Reply::NoRecord),
        Lookup::Found(channel) => match facts.parent {
            Lookup::Unasked => Step::Ask(Request::FetchChannel),
            Lookup::Failed => end(Reply::ChannelUnavailable),
            Lookup::Found(_) => end_after_both(
                Effect::Apply(AclChange::Put(hide_to_everyone(roles.everyone))),
                Effect::Apply(AclChange::Put(user_owner(channel.owner))),
                Reply::PermissionsFixed,
            ),
        },
    }
}

/// The repair asks for nothing twice.
pub proof fn lemma_repair_proceeds(roles: ProfileRoles, facts: Facts)
    ensures
        asks_news(facts, spec_run(roles, facts)),
{
}

} // verus!

//! Banning a user from a channel.

use crate::commands::{spec_user_action_step, user_action_step};
use crate::lifecycle::{Facts, Step};
use crate::permissions::UserAction;
use vstd::prelude::*;

verus! {

/// What the ban of `target` by `actor` does next. Owners and managers may
/// ban; neither the owner nor a bot can be banned.
pub fn run(actor: u64, permissions: Option<u64>, target: u64, facts: &Facts) -> (step: Step)
    ensures
        step == spec_user_action_step(UserAction::Ban, actor, permissions, target, *facts),
{
    user_action_step(UserAction::Ban, actor, permissions, target, facts)
}

} // verus!

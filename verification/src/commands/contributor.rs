//! Making a user a contributor to a channel.

use crate::commands::{spec_user_action_step, user_action_step};
use crate::lifecycle::{Facts, Step};
use crate::permissions::UserAction;
use vstd::prelude::*;

verus! {

/// What making `target` a contributor does next. Owners and managers may;
/// the owner cannot be the target. A contributor reads and writes.
pub fn run(actor: u64, permissions: Option<u64>, target: u64, facts: &Facts) -> (step: Step)
    ensures
        step == spec_user_action_step(UserAction::Collaborator, actor, permissions, target, *facts),
{
    user_action_step(UserAction::Collaborator, actor, permissions, target, facts)
}

} // verus!

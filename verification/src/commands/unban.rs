//! Lifting a ban.

use crate::commands::{spec_user_action_step, user_action_step};
use crate::lifecycle::{Facts, Step};
use crate::permissions::UserAction;
use vstd::prelude::*;

verus! {

/// What the lifting of `target`'s ban by `actor` does next. Only the owner
/// may lift a ban; the target's row is deleted, not emptied.
pub fn run(actor: u64, target: u64, facts: &Facts) -> (step: Step)
    ensures
        step == spec_user_action_step(UserAction::Unban, actor, None, target, *facts),
{
    user_action_step(UserAction::Unban, actor, None, target, facts)
}

} // verus!

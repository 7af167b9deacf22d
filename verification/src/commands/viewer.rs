//! Adding and removing viewers.

use crate::commands::{spec_user_action_step, user_action_step};
use crate::lifecycle::{Facts, Step};
use crate::permissions::UserAction;
use vstd::prelude::*;

verus! {

/// The action that the subcommand stands for.
pub open spec fn viewer_action(add: bool) -> UserAction {
    if add {
        UserAction::AddViewer
    } else {
        UserAction::RemoveViewer
    }
}

/// What adding (`add`) or removing `target` as a viewer does next.
pub fn run(add: bool, actor: u64, permissions: Option<u64>, target: u64, facts: &Facts) -> (step:
    Step)
    ensures
        step == spec_user_action_step(viewer_action(add), actor, permissions, target, *facts),
{
    let action = if add {
        UserAction::AddViewer
    } else {
        UserAction::RemoveViewer
    };
    user_action_step(action, actor, permissions, target, facts)
}

} // verus!

//! Setting a channel's visibility mode.

use crate::lifecycle::{
    asks_news, end, end_after, say, say_after, touches_platform, writes_record, Effect, Facts, Lookup, Reply,
    Request, Step,
};
use crate::permissions::{mode_change, spec_mode_change, VisibilityMode};
use vstd::prelude::*;

verus! {

/// Setting a mode, step by step. Only the owner may; the mode is written
/// as a change to the member role's row and is stored nowhere else.
pub open spec fn spec_run(mode: VisibilityMode, actor: u64, member_role: u64, facts: Facts) -> Step {
    match facts.record {
        Lookup::Unasked => Step::Ask(Request::FetchRecord),
        Lookup::Failed => say(Reply::Dismiss),
        Lookup::Found(channel) => if channel.owner != actor {
            say(Reply::Dismiss)
        } else {
            match facts.parent {
                Lookup::Unasked => Step::Ask(Request::FetchChannel),
                Lookup::Failed => say(Reply::ChannelUnavailable),
                Lookup::Found(_) => say_after(
                    Effect::Apply(spec_mode_change(mode, member_role)),
                    Reply::ModeSet(mode),
                ),
            }
        },
    }
}

/// What setting `mode` does next.
pub fn run(mode: VisibilityMode, actor: u64, member_role: u64, facts: &Facts) -> (step: Step)
    ensures
        step == spec_run(mode, actor, member_role, *facts),
{
    match facts.record {
        Lookup::Unasked => Step::Ask(Request::FetchRecord),
        Lookup::Failed => end(Reply::Dismiss),
        Lookup::Found(channel) => if channel.owner != actor {
            end(Reply::Dismiss)
        } else {
            match facts.parent {
                Lookup::Unasked => Step::Ask(Request::FetchChannel),
                Lookup::Failed => end(Reply::ChannelUnavailable),
                Lookup::Found(_) => end_after(
                    Effect::Apply(mode_change(mode, member_role)),
                    Reply::ModeSet(mode),
                ),
            }
        },
    }
}

/// A mode is set for nobody but the owner, and setting it writes nothing
/// to the registry: the mode lives in the access list alone.
pub proof fn lemma_mode_guards(mode: VisibilityMode, actor: u64, member_role: u64, facts: Facts)
    ensures
        !writes_record(spec_run(mode, actor, member_role, facts)),
        touches_platform(spec_run(mode, actor, member_role, facts)) ==> facts.record is Found
            && facts.record->Found_0.owner == actor,
{
}

/// Setting a mode asks for nothing twice.
pub proof fn lemma_mode_proceeds(mode: VisibilityMode, actor: u64, member_role: u64, facts: Facts)
    ensures
        asks_news(facts, spec_run(mode, actor, member_role, facts)),
{
}

} // verus!

//! The submitted edit of a channel's name and topic.

use crate::channel::Relationship;
use crate::lifecycle::{
    asks_news, end, end_after, say, say_after, touches_platform, writes_record, Effect, Facts, Lookup, Reply,
    Request, Step,
};
use vstd::prelude::*;

verus! {

/// The submitted edit, step by step: an owner or manager has the platform
/// write the name and topic; since a new name can change the order, the
/// container the channel is in, if it is in one, is sorted afterwards.
pub open spec fn spec_run(actor: u64, permissions: Option<u64>, facts: Facts) -> Step {
    match facts.record {
        Lookup::Unasked => Step::Ask(Request::FetchRecord),
        Lookup::Failed => say(Reply::NoRecord),
        Lookup::Found(channel) => if channel.spec_relationship(actor, permissions)
            == Relationship::Other {
            say(Reply::NotYoursToEdit)
        } else {
            match facts.edited {
                Lookup::Unasked => Step::Ask(Request::EditChannel),
                Lookup::Failed => say(Reply::EditFailed),
                Lookup::Found(Some(parent)) => say_after(Effect::Sort(parent), Reply::Edited),
                Lookup::Found(None) => say(Reply::Edited),
            }
        },
    }
}

/// What the submitted edit does next.
pub fn run(actor: u64, permissions: Option<u64>, facts: &Facts) -> (step: Step)
    ensures
        step == spec_run(actor, permissions, *facts),
{
    match facts.record {
        Lookup::Unasked => Step::Ask(Request::FetchRecord),
        Lookup::Failed => end(Reply::NoRecord),
        Lookup::Found(channel) => if !channel.check_permission(actor, permissions) {
            end(Reply::NotYoursToEdit)
        } else {
            match facts.edited {
                Lookup::Unasked => Step::Ask(Request::EditChannel),
                Lookup::Failed => end(Reply::EditFailed),
                Lookup::Found(Some(parent)) => end_after(Effect::Sort(parent), Reply::Edited),
                Lookup::Found(None) => end(Reply::Edited),
            }
        },
    }
}

/// Nothing is edited or sorted at the word of a member who neither owns
/// the channel nor manages channels, and an edit writes nothing to the
/// registry.
pub proof fn lemma_edit_guards(actor: u64, permissions: Option<u64>, facts: Facts)
    ensures
        !writes_record(spec_run(actor, permissions, facts)),
        touches_platform(spec_run(actor, permissions, facts)) ==> facts.record is Found
            && facts.record->Found_0.spec_relationship(actor, permissions) != Relationship::Other,
{
}

/// The submitted edit asks for nothing twice.
pub proof fn lemma_edit_proceeds(actor: u64, permissions: Option<u64>, facts: Facts)
    ensures
        asks_news(facts, spec_run(actor, permissions, facts)),
{
}

} // verus!

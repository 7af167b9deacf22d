//! The request to delete a channel: the first of two phases.

use crate::channel::Relationship;
use crate::lifecycle::{end, say, touches_platform, writes_record, Facts, Lookup, Reply, Request, Step};
use vstd::prelude::*;

verus! {

/// The request, step by step: an owner or manager is asked to confirm;
/// nothing is deleted yet.
pub open spec fn spec_run(actor: u64, permissions: Option<u64>, facts: Facts) -> Step {
    match facts.record {
        Lookup::Unasked => Step::Ask(Request::FetchRecord),
        Lookup::Failed => say(Reply::NoRecord),
        Lookup::Found(channel) => if channel.spec_relationship(actor, permissions)
            != Relationship::Other {
            say(Reply::ConfirmDelete)
        } else {
            say(Reply::NotYours)
        },
    }
}

/// What the request does next.
pub fn run(actor: u64, permissions: Option<u64>, facts: &Facts) -> (step: Step)
    ensures
        step == spec_run(actor, permissions, *facts),
{
    match facts.record {
        Lookup::Unasked => Step::Ask(Request::FetchRecord),
        Lookup::Failed => end(Reply::NoRecord),
        Lookup::Found(channel) => if channel.check_permission(actor, permissions) {
            end(Reply::ConfirmDelete)
        } else {
            end(Reply::NotYours)
        },
    }
}

/// The request deletes nothing and changes nothing, whoever makes it.
pub proof fn lemma_request_changes_nothing(actor: u64, permissions: Option<u64>, facts: Facts)
    ensures
        !writes_record(spec_run(actor, permissions, facts)),
        !touches_platform(spec_run(actor, permissions, facts)),
{
}

} // verus!

//! The request for the form that edits a channel's name and topic.

use crate::channel::Relationship;
use crate::lifecycle::{end, say, Facts, Lookup, Reply, Request, Step};
use vstd::prelude::*;

verus! {

/// The request, step by step: an owner or manager gets the form, filled
/// with what the platform shows of the channel.
pub open spec fn spec_run(actor: u64, permissions: Option<u64>, facts: Facts) -> Step {
    match facts.record {
        Lookup::Unasked => Step::Ask(Request::FetchRecord),
        Lookup::Failed => say(Reply::NoRecord),
        Lookup::Found(channel) => if channel.spec_relationship(actor, permissions)
            == Relationship::Other {
            say(Reply::NotYoursToEdit)
        } else {
            match facts.parent {
                Lookup::Unasked => Step::Ask(Request::FetchChannel),
                Lookup::Failed => say(Reply::ChannelUnavailable),
                Lookup::Found(_) => say(Reply::EditForm),
            }
        },
    }
}

/// What the request does next.
pub fn run(actor: u64, permissions: Option<u64>, facts: &Facts) -> (step: Step)
    ensures
        step == spec_run(actor, permissions, *facts),
{
    match facts.record {
        Lookup::Unasked => Step::Ask(Request::FetchRecord),
        Lookup::Failed => end(Reply::NoRecord),
        Lookup::Found(channel) => if !channel.check_permission(actor, permissions) {
            end(Reply::NotYoursToEdit)
        } else {
            match facts.parent {
                Lookup::Unasked => Step::Ask(Request::FetchChannel),
                Lookup::Failed => end(Reply::ChannelUnavailable),
                Lookup::Found(_) => end(Reply::EditForm),
            }
        },
    }
}

} // verus!

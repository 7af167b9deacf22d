//! The request for the creation form.

use crate::channel::MAX_CHANNELS;
use crate::lifecycle::{end, say, Facts, Lookup, Reply, Request, Step};
use vstd::prelude::*;

verus! {

/// Whether a member who asks for the creation form gets it.
pub open spec fn spec_run(creator: u64, facts: Facts) -> Step {
    match facts.owned {
        Lookup::Unasked => Step::Ask(Request::CountOwned(creator)),
        Lookup::Failed => say(Reply::StorageFailed),
        Lookup::Found(owned) => if owned < MAX_CHANNELS {
            say(Reply::CreateForm)
        } else {
            say(Reply::QuotaReached)
        },
    }
}

/// What the request for the creation form does next.
pub fn run(creator: u64, facts: &Facts) -> (step: Step)
    ensures
        step == spec_run(creator, *facts),
{
    match facts.owned {
        Lookup::Unasked => Step::Ask(Request::CountOwned(creator)),
        Lookup::Failed => end(Reply::StorageFailed),
        Lookup::Found(owned) => if owned < MAX_CHANNELS {
            end(Reply::CreateForm)
        } else {
            end(Reply::QuotaReached)
        },
    }
}

} // verus!

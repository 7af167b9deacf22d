//! The confirmed deletion of a channel: the second of two phases.

use crate::lifecycle::{
    end, end_after, makes, say, say_after, writes_record, Effect, Facts, Lookup, Reply, Request,
    Step,
};
use vstd::prelude::*;

verus! {

/// The confirmed deletion, step by step. Only the owner's confirmation
/// deletes, and it deletes the platform channel alone: the record goes when
/// the platform reports the channel gone.
pub open spec fn spec_run(actor: u64, facts: Facts) -> Step {
    match facts.record {
        Lookup::Unasked => Step::Ask(Request::FetchRecord),
        Lookup::Failed => say(Reply::NoRecord),
        Lookup::Found(channel) => if channel.owner == actor {
            say_after(Effect::DeleteChannel(channel.id), Reply::Deleting)
        } else {
            say(Reply::NotYours)
        },
    }
}

/// What the confirmed deletion does next.
pub fn run(actor: u64, facts: &Facts) -> (step: Step)
    ensures
        step == spec_run(actor, *facts),
{
    match facts.record {
        Lookup::Unasked => Step::Ask(Request::FetchRecord),
        Lookup::Failed => end(Reply::NoRecord),
        Lookup::Found(channel) => if channel.owner == actor {
            end_after(Effect::DeleteChannel(channel.id), Reply::Deleting)
        } else {
            end(Reply::NotYours)
        },
    }
}

/// A channel is deleted only at its owner's word, and it is the channel of
/// the record that is deleted. The record itself is not touched here.
pub proof fn lemma_deletion_guards(actor: u64, facts: Facts, channel: u64)
    ensures
        !writes_record(spec_run(actor, facts)),
        !makes(spec_run(actor, facts), Effect::DeleteRecord(channel)),
        makes(spec_run(actor, facts), Effect::DeleteChannel(channel)) ==> facts.record is Found
            && facts.record->Found_0.owner == actor && facts.record->Found_0.id == channel,
{
}

} // verus!

//! Moving a channel to another category.

use crate::channel::ConChannel;
use crate::lifecycle::{
    asks_news, end, end_after_both, say, say_after_both, touches_platform, writes_record, Effect, Facts,
    Lookup, Reply, Request, Step,
};
use crate::profile::Profile;
use vstd::prelude::*;

verus! {

/// Whether the platform shows a channel where its record says it is.
pub open spec fn in_place(channel: ConChannel, parent: Option<u64>) -> bool {
    channel.category is Some && parent == channel.category
}

/// The category change, step by step, for the owner's choice `selected`
/// (`None` where no declared category has the name). The record is written
/// first, and nothing happens on the platform unless the registry took it.
/// The channel is then moved only if the platform showed it in the category
/// its record named before: an archived channel stays where it is.
pub open spec fn spec_move_to(selected: Option<u64>, actor: u64, facts: Facts) -> Step {
    match facts.record {
        Lookup::Unasked => Step::Ask(Request::FetchRecord),
        Lookup::Failed => say(Reply::NoRecord),
        Lookup::Found(channel) => if channel.owner != actor {
            say(Reply::NotYours)
        } else if selected is None {
            say(Reply::NoSuchCategory)
        } else {
            match facts.parent {
                Lookup::Unasked => Step::Ask(Request::FetchChannel),
                Lookup::Failed => say(Reply::ChannelUnavailable),
                Lookup::Found(parent) => match facts.stored {
                    Lookup::Unasked => Step::Ask(
                        Request::UpdateRecord(
                            ConChannel { id: channel.id, owner: channel.owner, category: selected },
                        ),
                    ),
                    Lookup::Failed => say(Reply::UpdateFailed),
                    Lookup::Found(_) => if in_place(channel, parent) {
                        say_after_both(
                            Effect::Move(selected->0),
                            Effect::Sort(selected->0),
                            Reply::CategoryChanged(selected->0),
                        )
                    } else {
                        say(Reply::CategoryChanged(selected->0))
                    },
                },
            }
        },
    }
}

/// What the change to the category `selected` does next.
pub fn move_to(selected: Option<u64>, actor: u64, facts: &Facts) -> (step: Step)
    ensures
        step == spec_move_to(selected, actor, *facts),
{
    let channel: ConChannel = match facts.record {
        Lookup::Unasked => { return Step::Ask(Request::FetchRecord); },
        Lookup::Failed => { return end(Reply::NoRecord); },
        Lookup::Found(channel) => channel,
    };
    if channel.owner != actor {
        return end(Reply::NotYours);
    }
    let target: u64 = match selected {
        None => { return end(Reply::NoSuchCategory); },
        Some(target) => target,
    };
    let parent: Option<u64> = match facts.parent {
        Lookup::Unasked => { return Step::Ask(Request::FetchChannel); },
        Lookup::Failed => { return end(Reply::ChannelUnavailable); },
        Lookup::Found(parent) => parent,
    };
    match facts.stored {
        Lookup::Unasked => Step::Ask(
            Request::UpdateRecord(
                ConChannel { id: channel.id, owner: channel.owner, category: Some(target) },
            ),
        ),
        Lookup::Failed => end(Reply::UpdateFailed),
        Lookup::Found(_) => {
            let moved = match (channel.category, parent) {
                (Some(recorded), Some(shown)) => recorded == shown,
                _ => false,
            };
            if moved {
                end_after_both(
                    Effect::Move(target),
                    Effect::Sort(target),
                    Reply::CategoryChanged(target),
                )
            } else {
                end(Reply::CategoryChanged(target))
            }
        },
    }
}

/// What the change to the category that `name` selects does next. The name
/// selects the first declared category whose own name in lower case it is.
pub fn run(profile: &Profile, name: &str, actor: u64, facts: &Facts) -> (step: Step)
    ensures
        forall|index: int|
            0 <= index < profile.categories@.len() && profile.selects(index, name@) && (forall|
                j: int,
            |
                0 <= j < index ==> !profile.selects(j, name@)) ==> step == spec_move_to(
                Some(profile.categories@[index].id),
                actor,
                *facts,
            ),
        (forall|j: int| 0 <= j < profile.categories@.len() ==> !profile.selects(j, name@)) ==> step
            == spec_move_to(None, actor, *facts),
{
    let selected = match profile.find_category(name) {
        Some(index) => {
            proof {
                assert forall|other: int|
                    0 <= other < profile.categories@.len() && profile.selects(other, name@)
                        && (forall|j: int| 0 <= j < other ==> !profile.selects(j, name@)) implies other
                    == index by {
                    if other < index {
                        assert(!profile.selects(other, name@));
                    } else if index < other {
                        assert(!profile.selects(index as int, name@));
                    }
                }
            }
            profile.category_id(index)
        },
        None => None,
    };
    move_to(selected, actor, facts)
}

/// Nothing is changed on the platform unless the registry took the new
/// category, and nobody but the owner gets the registry written.
pub proof fn lemma_registry_goes_first(selected: Option<u64>, actor: u64, facts: Facts)
    ensures
        touches_platform(spec_move_to(selected, actor, facts)) ==> facts.stored is Found,
        writes_record(spec_move_to(selected, actor, facts)) ==> facts.record is Found
            && facts.record->Found_0.owner == actor && selected is Some && spec_move_to(
            selected,
            actor,
            facts,
        ) == Step::Ask(
            Request::UpdateRecord(
                ConChannel {
                    id: facts.record->Found_0.id,
                    owner: facts.record->Found_0.owner,
                    category: selected,
                },
            ),
        ),
{
}

/// A channel that the platform shows elsewhere than its record said, an
/// archived one for instance, gets its new category recorded and is left
/// where it is.
pub proof fn lemma_displaced_channel_stays(selected: u64, actor: u64, facts: Facts)
    requires
        facts.record is Found,
        facts.record->Found_0.owner == actor,
        facts.parent is Found,
        facts.stored is Found,
        !in_place(facts.record->Found_0, facts.parent->Found_0),
    ensures
        spec_move_to(Some(selected), actor, facts) == say(Reply::CategoryChanged(selected)),
{
}

/// The category change asks for nothing twice.
pub proof fn lemma_change_proceeds(selected: Option<u64>, actor: u64, facts: Facts)
    ensures
        asks_news(facts, spec_move_to(selected, actor, facts)),
{
}

} // verus!

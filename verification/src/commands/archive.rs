//! Archiving a channel, and bringing it back.

use crate::archive::{
    choose_archive, first_with_room, lemma_first_is_unique, none_with_room, spec_choose_archive,
    ArchiveChoice,
};
use crate::channel::Relationship;
use crate::lifecycle::{
    asks_news, end, end_after_both, say, say_after_both, touches_platform, writes_record, Effect, Facts,
    Lookup, Reply, Request, Step,
};
use crate::profile::Profile;
use vstd::prelude::*;

verus! {

/// Whether the platform shows a channel inside an archive container.
pub open spec fn is_archived(profile: Profile, parent: Option<u64>) -> bool {
    parent is Some && (profile.archives@.contains(parent->0) || profile.private_archives@.contains(
        parent->0,
    ))
}

/// The archive toggle, step by step. A channel that the platform shows in
/// an archive container goes back to the category its record names, and
/// stays where it is if the record names none. Any other channel moves to
/// the first archive container with room; its record is not touched, so
/// that it remembers where to return to. The container a channel lands in
/// is sorted. `counts` are the counts taken so far of the archive
/// containers, in their declared order.
pub open spec fn spec_run(
    profile: Profile,
    actor: u64,
    permissions: Option<u64>,
    facts: Facts,
    counts: Seq<Option<usize>>,
) -> Step {
    match facts.record {
        Lookup::Unasked => Step::Ask(Request::FetchRecord),
        Lookup::Failed => say(Reply::NoRecord),
        Lookup::Found(channel) => if channel.spec_relationship(actor, permissions)
            == Relationship::Other {
            say(Reply::NotYours)
        } else {
            match facts.parent {
                Lookup::Unasked => Step::Ask(Request::FetchChannel),
                Lookup::Failed => say(Reply::ChannelUnavailable),
                Lookup::Found(parent) => if is_archived(profile, parent) {
                    match channel.category {
                        Some(category) => say_after_both(
                            Effect::Move(category),
                            Effect::Sort(category),
                            Reply::Unarchived,
                        ),
                        None => say(Reply::NeedsCategory),
                    }
                } else {
                    match spec_choose_archive(profile.archives@, counts) {
                        ArchiveChoice::Probe(container) => Step::Ask(
                            Request::CountChildren(container),
                        ),
                        ArchiveChoice::Chosen(container) => say_after_both(
                            Effect::Move(container),
                            Effect::Sort(container),
                            Reply::Archived,
                        ),
                        ArchiveChoice::NoCapacity => say(Reply::NoCapacity),
                    }
                },
            }
        },
    }
}

/// What the archive toggle does next.
pub fn run(
    profile: &Profile,
    actor: u64,
    permissions: Option<u64>,
    facts: &Facts,
    counts: &Vec<Option<usize>>,
) -> (step: Step)
    ensures
        step == spec_run(*profile, actor, permissions, *facts, counts@),
{
    match facts.record {
        Lookup::Unasked => Step::Ask(Request::FetchRecord),
        Lookup::Failed => end(Reply::NoRecord),
        Lookup::Found(channel) => if !channel.check_permission(actor, permissions) {
            end(Reply::NotYours)
        } else {
            match facts.parent {
                Lookup::Unasked => Step::Ask(Request::FetchChannel),
                Lookup::Failed => end(Reply::ChannelUnavailable),
                Lookup::Found(parent) => {
                    let archived = match parent {
                        Some(container) => profile.is_archive(container),
                        None => false,
                    };
                    if archived {
                        match channel.category {
                            Some(category) => end_after_both(
                                Effect::Move(category),
                                Effect::Sort(category),
                                Reply::Unarchived,
                            ),
                            None => end(Reply::NeedsCategory),
                        }
                    } else {
                        match choose_archive(&profile.archives, counts) {
                            ArchiveChoice::Probe(container) => Step::Ask(
                                Request::CountChildren(container),
                            ),
                            ArchiveChoice::Chosen(container) => end_after_both(
                                Effect::Move(container),
                                Effect::Sort(container),
                                Reply::Archived,
                            ),
                            ArchiveChoice::NoCapacity => end(Reply::NoCapacity),
                        }
                    }
                },
            }
        },
    }
}

/// Neither archiving nor bringing back writes to the registry: the record
/// keeps the category it had, and keeps having none if it had none.
pub proof fn lemma_toggle_keeps_record(
    profile: Profile,
    actor: u64,
    permissions: Option<u64>,
    facts: Facts,
    counts: Seq<Option<usize>>,
)
    ensures
        !writes_record(spec_run(profile, actor, permissions, facts, counts)),
{
}

/// Archiving asks nothing of the record's category: a channel outside the
/// archive moves to the first container with room, assigned or not.
pub proof fn lemma_archiving_needs_no_category(
    profile: Profile,
    actor: u64,
    permissions: Option<u64>,
    facts: Facts,
    counts: Seq<Option<usize>>,
    index: int,
)
    requires
        facts.record is Found,
        facts.record->Found_0.spec_relationship(actor, permissions) != Relationship::Other,
        facts.parent is Found,
        !is_archived(profile, facts.parent->Found_0),
        first_with_room(profile.archives@, counts, index),
    ensures
        spec_run(profile, actor, permissions, facts, counts) == say_after_both(
            Effect::Move(profile.archives@[index]),
            Effect::Sort(profile.archives@[index]),
            Reply::Archived,
        ),
{
    lemma_first_is_unique(profile.archives@, counts, index);
}

/// With every container counted and none with room, archiving fails for
/// want of capacity and leaves the channel where it is.
pub proof fn lemma_archiving_needs_room(
    profile: Profile,
    actor: u64,
    permissions: Option<u64>,
    facts: Facts,
    counts: Seq<Option<usize>>,
)
    requires
        facts.record is Found,
        facts.record->Found_0.spec_relationship(actor, permissions) != Relationship::Other,
        facts.parent is Found,
        !is_archived(profile, facts.parent->Found_0),
        none_with_room(profile.archives@, counts),
        counts.len() >= profile.archives@.len(),
    ensures
        spec_run(profile, actor, permissions, facts, counts) == say(Reply::NoCapacity),
{
    assert forall|i: int| !first_with_room(profile.archives@, counts, i) by {
        if first_with_room(profile.archives@, counts, i) {
            assert(!crate::archive::has_room(counts[i]));
        }
    }
}

/// An archived channel whose record names no category cannot be brought
/// back: the member is told to choose a category first, and the channel
/// stays in its container.
pub proof fn lemma_unarchiving_needs_category(
    profile: Profile,
    actor: u64,
    permissions: Option<u64>,
    facts: Facts,
    counts: Seq<Option<usize>>,
)
    requires
        facts.record is Found,
        facts.record->Found_0.spec_relationship(actor, permissions) != Relationship::Other,
        facts.record->Found_0.category is None,
        facts.parent is Found,
        is_archived(profile, facts.parent->Found_0),
    ensures
        spec_run(profile, actor, permissions, facts, counts) == say(Reply::NeedsCategory),
        !touches_platform(spec_run(profile, actor, permissions, facts, counts)),
{
}

/// A member who neither owns the channel nor manages channels changes
/// nothing.
pub proof fn lemma_strangers_change_nothing(
    profile: Profile,
    actor: u64,
    permissions: Option<u64>,
    facts: Facts,
    counts: Seq<Option<usize>>,
)
    requires
        facts.record is Found,
        facts.record->Found_0.spec_relationship(actor, permissions) == Relationship::Other,
    ensures
        spec_run(profile, actor, permissions, facts, counts) == say(Reply::NotYours),
{
}

/// The archive toggle asks for nothing twice, and counts a container only
/// while some are left uncounted: the next one in declared order.
pub proof fn lemma_toggle_proceeds(
    profile: Profile,
    actor: u64,
    permissions: Option<u64>,
    facts: Facts,
    counts: Seq<Option<usize>>,
)
    ensures
        asks_news(facts, spec_run(profile, actor, permissions, facts, counts)),
        spec_run(profile, actor, permissions, facts, counts) matches Step::Ask(
            Request::CountChildren(container),
        ) ==> counts.len() < profile.archives@.len() && container
            == profile.archives@[counts.len() as int],
{
}

} // verus!

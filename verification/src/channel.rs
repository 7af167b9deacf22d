//! A managed channel's record, and who may act on it.

use crate::lifecycle::{
    asks_news, end, end_after, end_after_both, makes, say, say_after, say_after_both, touches_platform,
    writes_record, Effect, Facts, Lookup, Outcome, Reply, Request, Step,
};
use crate::permissions::{
    can_manage_channels, channel_public, hide_to_everyone, includes, spec_channel_public,
    spec_hide_to_everyone, spec_user_owner, user_owner, MANAGE_CHANNELS,
};
use crate::profile::ProfileRoles;
use crate::registry::{has_id, may_create, Registry};
use vstd::prelude::*;

verus! {

/// The most channels one member may own, over all categories.
pub const MAX_CHANNELS: usize = 2;

/// The record of one managed channel.
#[derive(Clone, Copy, Debug, PartialEq, Eq, Structural)]
pub struct ConChannel {
    pub id: u64,
    pub owner: u64,
    pub category: Option<u64>,
}

/// How the acting member stands to a channel.
#[derive(Clone, Copy, Debug, PartialEq, Eq, Structural)]
pub enum Relationship {
    /// The channel's owner.
    Owner,
    /// Not the owner, but may manage channels.
    Manager,
    /// Neither.
    Other,
}

impl ConChannel {
    /// How `user` stands to this channel. `permissions` are the member's
    /// permission bits where the platform sent them.
    pub open spec fn spec_relationship(&self, user: u64, permissions: Option<u64>) -> Relationship {
        if self.owner == user {
            Relationship::Owner
        } else if permissions is Some && includes(permissions->0, MANAGE_CHANNELS) {
            Relationship::Manager
        } else {
            Relationship::Other
        }
    }

    /// The category the channel is assigned to, if any.
    pub fn category(&self) -> (category: Option<u64>)
        ensures
            category == self.category,
    {
        self.category
    }

    /// How `user` stands to this channel.
    pub fn relationship(&self, user: u64, permissions: Option<u64>) -> (rel: Relationship)
        ensures
            rel == self.spec_relationship(user, permissions),
    {
        if self.owner == user {
            return Relationship::Owner;
        }
        if let Some(bits) = permissions {
            if can_manage_channels(bits) {
                return Relationship::Manager;
            }
        }
        Relationship::Other
    }

    /// Whether `user` may act on this channel as its owner or as a manager.
    pub fn check_permission(&self, user: u64, permissions: Option<u64>) -> (allowed: bool)
        ensures
            allowed == (self.spec_relationship(user, permissions) != Relationship::Other),
            allowed == (self.owner == user || (permissions is Some && includes(
                permissions->0,
                MANAGE_CHANNELS,
            ))),
    {
        match self.relationship(user, permissions) {
            Relationship::Other => false,
            _ => true,
        }
    }

    /// As `check_permission`, for callers that hold the member by value.
    pub fn check_permission_unboxed(&self, user: u64, permissions: Option<u64>) -> (allowed: bool)
        ensures
            allowed == (self.spec_relationship(user, permissions) != Relationship::Other),
    {
        self.check_permission(user, permissions)
    }
}

/// Whether a member who owns the channels `owned` may create another.
pub fn check_channel_count(owned: &Vec<ConChannel>) -> (allowed: bool)
    ensures
        allowed == (owned@.len() < MAX_CHANNELS),
{
    owned.len() < MAX_CHANNELS
}

/// The create transition, step by step: the quota first, then the platform
/// channel with the creator's, everyone's and the member role's rows, then
/// the record. A record that the registry refuses takes the new platform
/// channel with it; a record that it takes is followed by the sorting of
/// the category and the grant of the role.
pub open spec fn spec_create_channel(roles: ProfileRoles, creator: u64, category: u64, facts: Facts) -> Step {
    match facts.owned {
        Lookup::Unasked => Step::Ask(Request::CountOwned(creator)),
        Lookup::Failed => say(Reply::StorageFailed),
        Lookup::Found(owned) => if owned >= MAX_CHANNELS {
            say(Reply::QuotaReached)
        } else {
            match facts.created {
                Lookup::Unasked => Step::Ask(
                    Request::CreateChannel {
                        category,
                        hidden: spec_hide_to_everyone(roles.everyone),
                        owner: spec_user_owner(creator),
                        public: spec_channel_public(roles.member),
                    },
                ),
                Lookup::Failed => say(Reply::PlatformFailed),
                Lookup::Found(id) => match facts.stored {
                    Lookup::Unasked => Step::Ask(
                        Request::InsertRecord(
                            ConChannel { id, owner: creator, category: Some(category) },
                        ),
                    ),
                    Lookup::Failed => say_after(Effect::DeleteChannel(id), Reply::InsertFailed),
                    Lookup::Found(_) => say_after_both(
                        Effect::Sort(category),
                        Effect::GrantRole(roles.conlanger),
                        Reply::Created(id),
                    ),
                },
            }
        },
    }
}

/// What the create transition does next.
pub fn create_channel(roles: &ProfileRoles, creator: u64, category: u64, facts: &Facts) -> (step: Step)
    ensures
        step == spec_create_channel(*roles, creator, category, *facts),
{
    let owned = match facts.owned {
        Lookup::Unasked => { return Step::Ask(Request::CountOwned(creator)); },
        Lookup::Failed => { return end(Reply::StorageFailed); },
        Lookup::Found(owned) => owned,
    };
    if owned >= MAX_CHANNELS {
        return end(Reply::QuotaReached);
    }
    let id = match facts.created {
        Lookup::Unasked => {
            return Step::Ask(
                Request::CreateChannel {
                    category,
                    hidden: hide_to_everyone(roles.everyone),
                    owner: user_owner(creator),
                    public: channel_public(roles.member),
                },
            );
        },
        Lookup::Failed => { return end(Reply::PlatformFailed); },
        Lookup::Found(id) => id,
    };
    match facts.stored {
        Lookup::Unasked => Step::Ask(
            Request::InsertRecord(ConChannel { id, owner: creator, category: Some(category) }),
        ),
        Lookup::Failed => end_after(Effect::DeleteChannel(id), Reply::InsertFailed),
        Lookup::Found(_) => end_after_both(
            Effect::Sort(category),
            Effect::GrantRole(roles.conlanger),
            Reply::Created(id),
        ),
    }
}

/// The record that the create transition writes for a new channel.
pub open spec fn new_record(id: u64, creator: u64, category: u64) -> ConChannel {
    ConChannel { id, owner: creator, category: Some(category) }
}

/// The create transition writes no record before the platform has
/// confirmed the channel: a step that writes one is the insert of the
/// confirmed channel's record, for a creator below the quota. Whatever the
/// platform's failure leaves behind, it is not a record.
pub proof fn lemma_record_follows_channel(
    roles: ProfileRoles,
    creator: u64,
    category: u64,
    facts: Facts,
)
    ensures
        writes_record(spec_create_channel(roles, creator, category, facts)) ==> {
            &&& facts.created is Found
            &&& facts.owned is Found
            &&& facts.owned->Found_0 < MAX_CHANNELS
            &&& spec_create_channel(roles, creator, category, facts) == Step::Ask(
                Request::InsertRecord(new_record(facts.created->Found_0, creator, category)),
            )
        },
        facts.created is Failed ==> !writes_record(
            spec_create_channel(roles, creator, category, facts),
        ) && !touches_platform(spec_create_channel(roles, creator, category, facts)),
{
}

/// A platform channel whose record the registry refused does not outlive
/// the refusal: the transition ends with the deletion of exactly that
/// channel. It deletes a channel in no other case.
pub proof fn lemma_refused_record_takes_channel(
    roles: ProfileRoles,
    creator: u64,
    category: u64,
    facts: Facts,
    id: u64,
)
    ensures
        facts.owned is Found && facts.owned->Found_0 < MAX_CHANNELS && facts.created
            == Lookup::Found(id) && facts.stored is Failed ==> spec_create_channel(
            roles,
            creator,
            category,
            facts,
        ) == say_after(Effect::DeleteChannel(id), Reply::InsertFailed),
        makes(spec_create_channel(roles, creator, category, facts), Effect::DeleteChannel(id))
            ==> facts.stored is Failed && facts.created == Lookup::Found(id),
{
}

/// A creator at the quota is turned away before anything is asked of the
/// platform or written to the registry, whatever else is known.
pub proof fn lemma_quota_stops_creation(
    roles: ProfileRoles,
    creator: u64,
    category: u64,
    facts: Facts,
)
    requires
        facts.owned is Found,
        facts.owned->Found_0 >= MAX_CHANNELS,
    ensures
        spec_create_channel(roles, creator, category, facts) == say(Reply::QuotaReached),
        !touches_platform(spec_create_channel(roles, creator, category, facts)),
        !writes_record(spec_create_channel(roles, creator, category, facts)),
{
}

/// The platform is asked for a channel only for a creator who was counted
/// and found below the quota.
pub proof fn lemma_creation_follows_quota(
    roles: ProfileRoles,
    creator: u64,
    category: u64,
    facts: Facts,
)
    ensures
        spec_create_channel(roles, creator, category, facts) matches Step::Ask(request)
            && request is CreateChannel ==> facts.owned is Found && facts.owned->Found_0
            < MAX_CHANNELS,
{
}

/// Runs the create transition to its end against `registry`, for a
/// platform that answers the request for a channel with `platform`: the new
/// channel's identifier, or `None` for a failure.
///
/// A creator at the quota and a failing platform leave the registry as it
/// was. A channel whose identifier the registry already holds is deleted
/// again and leaves the registry as it was. Otherwise the registry gains
/// the channel's record, with the creator as owner and the category.
pub fn create_recorded(
    registry: &mut Registry,
    roles: &ProfileRoles,
    creator: u64,
    category: u64,
    platform: Option<u64>,
) -> (outcome: Outcome)
    requires
        old(registry).wf(),
    ensures
        final(registry).wf(),
        !may_create(old(registry)@, creator) ==> final(registry)@ == old(registry)@
            && Step::Finish(outcome) == say(Reply::QuotaReached),
        may_create(old(registry)@, creator) && platform is None ==> final(registry)@ == old(
            registry,
        )@ && Step::Finish(outcome) == say(Reply::PlatformFailed),
        may_create(old(registry)@, creator) && platform is Some && has_id(
            old(registry)@,
            platform->0,
        ) ==> final(registry)@ == old(registry)@ && Step::Finish(outcome) == say_after(
            Effect::DeleteChannel(platform->0),
            Reply::InsertFailed,
        ),
        may_create(old(registry)@, creator) && platform is Some && !has_id(
            old(registry)@,
            platform->0,
        ) ==> final(registry)@ == old(registry)@.push(new_record(platform->0, creator, category))
            && Step::Finish(outcome) == say_after_both(
            Effect::Sort(category),
            Effect::GrantRole(roles.conlanger),
            Reply::Created(platform->0),
        ),
{
    let mut facts = Facts::new();
    let owned = registry.list_by_owner(creator);
    facts.owned = Lookup::Found(owned.len());
    if let Step::Finish(outcome) = create_channel(roles, creator, category, &facts) {
        return outcome;
    }
    facts.created = match platform {
        Some(id) => Lookup::Found(id),
        None => Lookup::Failed,
    };
    match create_channel(roles, creator, category, &facts) {
        Step::Finish(outcome) => outcome,
        Step::Ask(Request::InsertRecord(record)) => {
            facts.stored = match registry.insert(record) {
                Ok(_) => Lookup::Found(()),
                Err(_) => Lookup::Failed,
            };
            match create_channel(roles, creator, category, &facts) {
                Step::Finish(outcome) => outcome,
                Step::Ask(_) => unreached(),
            }
        },
        Step::Ask(_) => unreached(),
    }
}

/// The create transition asks for nothing twice.
pub proof fn lemma_creation_proceeds(roles: ProfileRoles, creator: u64, category: u64, facts: Facts)
    ensures
        asks_news(facts, spec_create_channel(roles, creator, category, facts)),
{
}

} // verus!

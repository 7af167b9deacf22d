//! The registry of managed channels: one record per channel identifier.

use crate::channel::{check_channel_count, ConChannel, MAX_CHANNELS};
use vstd::prelude::*;

verus! {

/// Why a registry operation did nothing.
#[derive(Clone, Copy, Debug, PartialEq, Eq, Structural)]
pub enum RegistryError {
    /// No record has the identifier.
    NotFound,
    /// A record with the identifier is already there.
    Conflict,
}

/// Whether some record of `rows` has the identifier `id`.
pub open spec fn has_id(rows: Seq<ConChannel>, id: u64) -> bool {
    exists|i: int| 0 <= i < rows.len() && #[trigger] rows[i].id == id
}

/// The position of the record with the identifier `id`.
pub open spec fn position_of(rows: Seq<ConChannel>, id: u64) -> int {
    choose|i: int| 0 <= i < rows.len() && #[trigger] rows[i].id == id
}

/// No two records share an identifier.
pub open spec fn distinct_ids(rows: Seq<ConChannel>) -> bool {
    forall|i: int, j: int|
        0 <= i < rows.len() && 0 <= j < rows.len() && #[trigger] rows[i].id == #[trigger] rows[j].id
            ==> i == j
}

/// The records of `rows` that `user` owns, in their order.
pub open spec fn owned_by(rows: Seq<ConChannel>, user: u64) -> Seq<ConChannel> {
    rows.filter(|c: ConChannel| c.owner == user)
}

/// Whether `user` may create another channel: fewer than two are owned.
pub open spec fn may_create(rows: Seq<ConChannel>, user: u64) -> bool {
    owned_by(rows, user).len() < MAX_CHANNELS
}

/// What is left of `rows` after every record of `batch` was offered in
/// turn: a record whose identifier is free is added, another is skipped.
pub open spec fn with_all(rows: Seq<ConChannel>, batch: Seq<ConChannel>) -> Seq<ConChannel>
    decreases batch.len(),
{
    if batch.len() == 0 {
        rows
    } else {
        let before = with_all(rows, batch.drop_last());
        if has_id(before, batch.last().id) {
            before
        } else {
            before.push(batch.last())
        }
    }
}

/// How a bulk insert went.
#[derive(Clone, Copy, Debug, PartialEq, Eq, Structural)]
pub struct ImportSummary {
    /// Records that were added.
    pub inserted: usize,
    /// Records that were refused because their identifier was taken.
    pub refused: usize,
}

/// The records of all managed channels.
pub struct Registry {
    rows: Vec<ConChannel>,
}

impl View for Registry {
    type V = Seq<ConChannel>;

    closed spec fn view(&self) -> Seq<ConChannel> {
        self.rows@
    }
}

impl Registry {
    /// The registry's invariant: identifiers are unique.
    pub open spec fn wf(&self) -> bool {
        distinct_ids(self@)
    }

    /// A registry without records.
    pub fn new() -> (registry: Registry)
        ensures
            registry.wf(),
            registry@ == Seq::<ConChannel>::empty(),
    {
        Registry { rows: Vec::new() }
    }

    /// The number of records.
    pub fn len(&self) -> (n: usize)
        ensures
            n == self@.len(),
    {
        self.rows.len()
    }

    fn find(&self, id: u64) -> (at: Option<usize>)
        requires
            self.wf(),
        ensures
            at is Some == has_id(self@, id),
            at is Some ==> at->0 == position_of(self@, id) && at->0 < self@.len() && self@[at->0 as int].id
                == id,
    {
        let mut i: usize = 0;
        while i < self.rows.len()
            invariant
                i <= self.rows.len(),
                self.wf(),
                forall|j: int| 0 <= j < i ==> self.rows@[j].id != id,
            decreases self.rows.len() - i,
        {
            if self.rows[i].id == id {
                proof {
                    assert(self@[i as int].id == id);
                    let p = position_of(self@, id);
                    assert(0 <= p < self@.len() && self@[p].id == id);
                    assert(self@[p].id == self@[i as int].id);
                }
                return Some(i);
            }
            i += 1;
        }
        None
    }

    /// Adds a record. Fails with `Conflict`, changing nothing, if a record
    /// with the same identifier exists.
    pub fn insert(&mut self, channel: ConChannel) -> (done: Result<(), RegistryError>)
        requires
            old(self).wf(),
        ensures
            final(self).wf(),
            has_id(old(self)@, channel.id) ==> done == Err::<(), RegistryError>(
                RegistryError::Conflict,
            ) && final(self)@ == old(self)@,
            !has_id(old(self)@, channel.id) ==> done is Ok && final(self)@ == old(self)@.push(
                channel,
            ),
    {
        match self.find(channel.id) {
            Some(_) => Err(RegistryError::Conflict),
            None => {
                self.rows.push(channel);
                Ok(())
            },
        }
    }

    /// Replaces the record that has `channel`'s identifier. Fails with
    /// `NotFound`, changing nothing, if there is none.
    pub fn update(&mut self, channel: ConChannel) -> (done: Result<(), RegistryError>)
        requires
            old(self).wf(),
        ensures
            final(self).wf(),
            !has_id(old(self)@, channel.id) ==> done == Err::<(), RegistryError>(
                RegistryError::NotFound,
            ) && final(self)@ == old(self)@,
            has_id(old(self)@, channel.id) ==> done is Ok && final(self)@ == old(self)@.update(
                position_of(old(self)@, channel.id),
                channel,
            ),
    {
        match self.find(channel.id) {
            Some(at) => {
                self.rows.set(at, channel);
                assert forall|i: int, j: int|
                    0 <= i < self@.len() && 0 <= j < self@.len() && #[trigger] self@[i].id
                        == #[trigger] self@[j].id implies i == j by {
                    assert(old(self)@[i].id == self@[i].id);
                    assert(old(self)@[j].id == self@[j].id);
                }
                Ok(())
            },
            None => Err(RegistryError::NotFound),
        }
    }

    /// The record with the identifier `id`, or `NotFound`.
    pub fn get_by_id(&self, id: u64) -> (found: Result<ConChannel, RegistryError>)
        requires
            self.wf(),
        ensures
            has_id(self@, id) ==> found == Ok::<ConChannel, RegistryError>(
                self@[position_of(self@, id)],
            ),
            !has_id(self@, id) ==> found == Err::<ConChannel, RegistryError>(
                RegistryError::NotFound,
            ),
            found is Ok ==> found->Ok_0.id == id,
    {
        match self.find(id) {
            Some(at) => Ok(self.rows[at]),
            None => Err(RegistryError::NotFound),
        }
    }

    /// Every record that `user` owns.
    pub fn list_by_owner(&self, user: u64) -> (owned: Vec<ConChannel>)
        ensures
            owned@ == owned_by(self@, user),
    {
        let mut owned: Vec<ConChannel> = Vec::new();
        let mut i: usize = 0;
        proof {
            reveal(Seq::filter);
            assert(self.rows@.take(0) =~= Seq::<ConChannel>::empty());
        }
        while i < self.rows.len()
            invariant
                i <= self.rows.len(),
                owned@ == owned_by(self.rows@.take(i as int), user),
            decreases self.rows.len() - i,
        {
            proof {
                reveal(Seq::filter);
                assert(self.rows@.take(i + 1).drop_last() =~= self.rows@.take(i as int));
            }
            if self.rows[i].owner == user {
                owned.push(self.rows[i]);
            }
            i += 1;
        }
        assert(self.rows@.take(i as int) =~= self.rows@);
        owned
    }

    /// Removes the record with the identifier `id` and returns it, or fails
    /// with `NotFound`, changing nothing.
    pub fn delete_by_id(&mut self, id: u64) -> (removed: Result<ConChannel, RegistryError>)
        requires
            old(self).wf(),
        ensures
            final(self).wf(),
            !has_id(old(self)@, id) ==> removed == Err::<ConChannel, RegistryError>(
                RegistryError::NotFound,
            ) && final(self)@ == old(self)@,
            has_id(old(self)@, id) ==> removed == Ok::<ConChannel, RegistryError>(
                old(self)@[position_of(old(self)@, id)],
            ) && final(self)@ == old(self)@.remove(position_of(old(self)@, id)),
            !has_id(final(self)@, id),
    {
        match self.find(id) {
            Some(at) => {
                let gone = self.rows.remove(at);
                assert forall|i: int, j: int|
                    0 <= i < self@.len() && 0 <= j < self@.len() && #[trigger] self@[i].id
                        == #[trigger] self@[j].id implies i == j by {
                    let oi = if i < at { i } else { i + 1 };
                    let oj = if j < at { j } else { j + 1 };
                    assert(old(self)@[oi].id == self@[i].id);
                    assert(old(self)@[oj].id == self@[j].id);
                }
                assert forall|i: int| 0 <= i < self@.len() implies #[trigger] self@[i].id != id by {
                    let oi = if i < at { i } else { i + 1 };
                    assert(old(self)@[oi].id == self@[i].id);
                    assert(old(self)@[at as int].id == id);
                }
                Ok(gone)
            },
            None => Err(RegistryError::NotFound),
        }
    }

    /// Whether `user` may create another channel. The answer reserves
    /// nothing: it holds of the registry as it is now.
    pub fn can_create(&self, user: u64) -> (allowed: bool)
        ensures
            allowed == may_create(self@, user),
            !allowed <==> owned_by(self@, user).len() >= 2,
    {
        let owned = self.list_by_owner(user);
        check_channel_count(&owned)
    }

    /// Offers every record of `batch` in turn, going on past those whose
    /// identifier is taken, and reports how many were added and refused.
    pub fn insert_all(&mut self, batch: &Vec<ConChannel>) -> (summary: ImportSummary)
        requires
            old(self).wf(),
        ensures
            final(self).wf(),
            final(self)@ == with_all(old(self)@, batch@),
            summary.inserted + summary.refused == batch@.len(),
            final(self)@.len() == old(self)@.len() + summary.inserted,
    {
        let mut inserted: usize = 0;
        let mut refused: usize = 0;
        let mut i: usize = 0;
        assert(batch@.take(0) =~= Seq::<ConChannel>::empty());
        while i < batch.len()
            invariant
                i <= batch.len(),
                self.wf(),
                self@ == with_all(old(self)@, batch@.take(i as int)),
                inserted + refused == i,
                self@.len() == old(self)@.len() + inserted,
            decreases batch.len() - i,
        {
            assert(batch@.take(i + 1).drop_last() =~= batch@.take(i as int));
            match self.insert(batch[i]) {
                Ok(_) => {
                    inserted += 1;
                },
                Err(_) => {
                    refused += 1;
                },
            }
            i += 1;
        }
        assert(batch@.take(i as int) =~= batch@);
        ImportSummary { inserted, refused }
    }
}

/// Whether a member may create a channel depends on nothing but how many
/// records name the member as owner: two registries whose records have the
/// same owners in the same places agree, whatever the categories are.
pub proof fn lemma_quota_ignores_category(a: Seq<ConChannel>, b: Seq<ConChannel>, user: u64)
    requires
        a.len() == b.len(),
        forall|i: int| 0 <= i < a.len() ==> a[i].owner == b[i].owner,
    ensures
        owned_by(a, user).len() == owned_by(b, user).len(),
        may_create(a, user) == may_create(b, user),
    decreases a.len(),
{
    reveal(Seq::filter);
    if a.len() > 0 {
        lemma_quota_ignores_category(a.drop_last(), b.drop_last(), user);
    }
}

/// A member may not create a channel exactly when the member owns two or
/// more.
pub proof fn lemma_quota(rows: Seq<ConChannel>, user: u64)
    ensures
        !may_create(rows, user) <==> owned_by(rows, user).len() >= 2,
{
}

/// A record that was added counts against its owner and against nobody
/// else.
pub proof fn lemma_insert_counts(rows: Seq<ConChannel>, channel: ConChannel, user: u64)
    ensures
        owned_by(rows.push(channel), user).len() == owned_by(rows, user).len() + if channel.owner
            == user {
            1int
        } else {
            0int
        },
{
    reveal(Seq::filter);
    assert(rows.push(channel).drop_last() =~= rows);
}

} // verus!

//! Choosing the archive container a channel moves to.

use vstd::prelude::*;

verus! {

/// The number of channels at which an archive container counts as full.
pub const ARCHIVE_CAPACITY: usize = 50;

/// The outcome of looking for an archive container with room.
#[derive(Clone, Copy, Debug, PartialEq, Eq, Structural)]
pub enum ArchiveChoice {
    /// This container has room: it is the first that has.
    Chosen(u64),
    /// Nothing is known yet of this container: count its channels next.
    Probe(u64),
    /// Every container is full, or could not be counted.
    NoCapacity,
}

/// Whether a count taken of a container shows room. A count that could not
/// be taken shows none.
pub open spec fn has_room(count: Option<usize>) -> bool {
    count is Some && count->0 < ARCHIVE_CAPACITY
}

/// The containers that are both declared and counted.
pub open spec fn counted(archives: Seq<u64>, counts: Seq<Option<usize>>) -> int {
    if counts.len() < archives.len() {
        counts.len() as int
    } else {
        archives.len() as int
    }
}

/// Whether the container at `index` is the first counted one with room.
pub open spec fn first_with_room(archives: Seq<u64>, counts: Seq<Option<usize>>, index: int) -> bool {
    &&& 0 <= index < counted(archives, counts)
    &&& has_room(counts[index])
    &&& forall|j: int| 0 <= j < index ==> !has_room(#[trigger] counts[j])
}

/// No counted container has room.
pub open spec fn none_with_room(archives: Seq<u64>, counts: Seq<Option<usize>>) -> bool {
    forall|j: int| 0 <= j < counted(archives, counts) ==> !has_room(#[trigger] counts[j])
}

/// First fit over the containers in their declared order: `counts[i]` is
/// the number of channels found in `archives[i]`, `None` where counting
/// failed; containers beyond `counts` have not been counted yet.
pub open spec fn spec_choose_archive(archives: Seq<u64>, counts: Seq<Option<usize>>) -> ArchiveChoice {
    if exists|i: int| first_with_room(archives, counts, i) {
        ArchiveChoice::Chosen(archives[choose|i: int| first_with_room(archives, counts, i)])
    } else if counts.len() < archives.len() {
        ArchiveChoice::Probe(archives[counts.len() as int])
    } else {
        ArchiveChoice::NoCapacity
    }
}

/// Picks the first archive container whose count is below the capacity;
/// asks for the next count while none is and containers are left; reports
/// that there is no capacity once all were counted.
pub fn choose_archive(archives: &Vec<u64>, counts: &Vec<Option<usize>>) -> (choice: ArchiveChoice)
    ensures
        choice == spec_choose_archive(archives@, counts@),
        forall|i: int| first_with_room(archives@, counts@, i) ==> choice == ArchiveChoice::Chosen(
            archives@[i],
        ),
        none_with_room(archives@, counts@) && counts@.len() < archives@.len() ==> choice
            == ArchiveChoice::Probe(archives@[counts@.len() as int]),
        none_with_room(archives@, counts@) && counts@.len() >= archives@.len() ==> choice
            == ArchiveChoice::NoCapacity,
{
    let mut i: usize = 0;
    while i < archives.len() && i < counts.len()
        invariant
            i <= archives.len(),
            i <= counts.len(),
            forall|j: int| 0 <= j < i ==> !has_room(#[trigger] counts@[j]),
        decreases archives.len() - i,
    {
        if let Some(n) = counts[i] {
            if n < ARCHIVE_CAPACITY {
                proof {
                    assert(first_with_room(archives@, counts@, i as int));
                    lemma_first_is_unique(archives@, counts@, i as int);
                }
                return ArchiveChoice::Chosen(archives[i]);
            }
        }
        i += 1;
    }
    assert(none_with_room(archives@, counts@));
    if counts.len() < archives.len() {
        ArchiveChoice::Probe(archives[counts.len()])
    } else {
        ArchiveChoice::NoCapacity
    }
}

/// At most one container is the first with room.
pub proof fn lemma_first_is_unique(archives: Seq<u64>, counts: Seq<Option<usize>>, index: int)
    requires
        first_with_room(archives, counts, index),
    ensures
        forall|i: int| first_with_room(archives, counts, i) ==> i == index,
        spec_choose_archive(archives, counts) == ArchiveChoice::Chosen(archives[index]),
{
    assert forall|i: int| first_with_room(archives, counts, i) implies i == index by {
        if i < index {
            assert(!has_room(counts[i]));
        } else if index < i {
            assert(!has_room(counts[index]));
        }
    }
}

} // verus!

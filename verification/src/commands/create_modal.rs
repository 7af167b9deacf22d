//! The submitted form for a new channel.

use crate::channel::{create_channel, spec_create_channel};
use crate::lifecycle::{Facts, Step};
use crate::profile::Profile;
use crate::text::{number, read_number};
use vstd::prelude::*;

verus! {

/// The place among the declared categories that a form's identifier
/// names: the number that follows its first fifteen characters.
pub open spec fn spec_category_index(id: Seq<char>) -> Option<u8> {
    if id.len() < 15 {
        None
    } else {
        match number(id.skip(15), 255) {
            Some(n) => Some(n as u8),
            None => None,
        }
    }
}

/// The place among the declared categories that the form `id` names.
pub fn category_index(id: &str) -> (index: Option<u8>)
    ensures
        index == spec_category_index(id@),
{
    let end = id.unicode_len();
    if end < 15 {
        return None;
    }
    assert(id@.subrange(15, end as int) =~= id@.skip(15));
    match read_number(id, 15, end, 255) {
        Some(n) => Some(n as u8),
        None => None,
    }
}

/// What the creation of a channel for `creator` in the category declared
/// at `index` does next.
pub fn run(profile: &Profile, index: u8, creator: u64, facts: &Facts) -> (step: Step)
    requires
        (index as int) < profile.categories@.len(),
    ensures
        step == spec_create_channel(
            profile.roles,
            creator,
            profile.categories@[index as int].id,
            *facts,
        ),
{
    create_channel(&profile.roles, creator, profile.categories[index as usize].id, facts)
}

} // verus!

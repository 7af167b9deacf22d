//! The community's configuration: its categories, archive containers and
//! roles. It is read once and never changed afterwards.

use vstd::prelude::*;

verus! {

/// A declared category: the container's identifier and the name members
/// select it by.
pub struct Category {
    pub id: u64,
    pub name: String,
}

/// The roles the rules speak of.
#[derive(Clone, Copy, Debug, PartialEq, Eq, Structural)]
pub struct ProfileRoles {
    pub everyone: u64,
    pub member: u64,
    pub conlanger: u64,
}

impl ProfileRoles {
    /// The role every account has.
    pub fn everyone(&self) -> (role: u64)
        ensures
            role == self.everyone,
    {
        self.everyone
    }

    /// The role of the community's members.
    pub fn member(&self) -> (role: u64)
        ensures
            role == self.member,
    {
        self.member
    }

    /// The role granted to a member whose channel was created.
    pub fn conlanger(&self) -> (role: u64)
        ensures
            role == self.conlanger,
    {
        self.conlanger
    }
}

/// The configuration of one community.
pub struct Profile {
    pub name: String,
    pub guild: u64,
    pub archives: Vec<u64>,
    pub private_archives: Vec<u64>,
    pub per_row: u8,
    pub roles: ProfileRoles,
    pub categories: Vec<Category>,
}

/// The lower-case form of a text, as std's `str::to_lowercase` gives it.
pub uninterp spec fn lowercase(text: Seq<char>) -> Seq<char>;

/// Trusted: std's `str::to_lowercase`. The contract only gives its result
/// the name `lowercase`; it says nothing of what the lower-case form is.
#[verifier::external_body]
fn to_lowercase(text: &str) -> (lowered: String)
    ensures
        lowered@ == lowercase(text@),
{
    text.to_lowercase()
}

/// Whether `id` is among `ids`.
fn holds(ids: &Vec<u64>, id: u64) -> (found: bool)
    ensures
        found == ids@.contains(id),
{
    let mut i: usize = 0;
    while i < ids.len()
        invariant
            i <= ids.len(),
            forall|j: int| 0 <= j < i ==> ids@[j] != id,
        decreases ids.len() - i,
    {
        if ids[i] == id {
            return true;
        }
        i += 1;
    }
    false
}

impl Profile {
    /// Whether the category at `index` is selected by `name`: its own name
    /// in lower case is `name`.
    pub open spec fn selects(&self, index: int, name: Seq<char>) -> bool {
        lowercase(self.categories@[index].name@) == name
    }

    /// The community's identifier.
    pub fn guild(&self) -> (id: u64)
        ensures
            id == self.guild,
    {
        self.guild
    }

    /// Whether `id` is an archive container, public or private.
    pub fn is_archive(&self, id: u64) -> (archive: bool)
        ensures
            archive == (self.archives@.contains(id) || self.private_archives@.contains(id)),
    {
        holds(&self.archives, id) || holds(&self.private_archives, id)
    }

    /// The position of the first declared category that `name` selects.
    /// Selection ignores case in the category's own name: `name` is compared
    /// with the lower-case form of each.
    pub fn find_category(&self, name: &str) -> (found: Option<usize>)
        ensures
            match found {
                Some(index) => index < self.categories@.len() && self.selects(index as int, name@)
                    && forall|j: int| 0 <= j < index ==> !self.selects(j, name@),
                None => forall|j: int| 0 <= j < self.categories@.len() ==> !self.selects(j, name@),
            },
    {
        let wanted = name.to_owned();
        let mut i: usize = 0;
        while i < self.categories.len()
            invariant
                i <= self.categories.len(),
                wanted@ == name@,
                forall|j: int| 0 <= j < i ==> !self.selects(j, name@),
            decreases self.categories.len() - i,
        {
            let lowered = to_lowercase(self.categories[i].name.as_str());
            if lowered == wanted {
                return Some(i);
            }
            i += 1;
        }
        None
    }

    /// The identifier of the category at `index`, if one is declared there.
    pub fn category_id(&self, index: usize) -> (id: Option<u64>)
        ensures
            id == if index < self.categories@.len() {
                Some(self.categories@[index as int].id)
            } else {
                None
            },
    {
        if index < self.categories.len() {
            Some(self.categories[index].id)
        } else {
            None
        }
    }
}

} // verus!

//! A channel's access list: at most one row per principal, changed only by
//! writing a principal's row or deleting it.

use crate::permissions::{
    spec_mode_change, spec_user_change, AclChange, OverwriteKind, PermissionOverwrite, UserAction,
    VisibilityMode,
};
use vstd::prelude::*;

verus! {

/// The row that `rows` holds for `kind`: the one written last.
pub open spec fn lookup(rows: Seq<PermissionOverwrite>, kind: OverwriteKind) -> Option<
    PermissionOverwrite,
>
    decreases rows.len(),
{
    if rows.len() == 0 {
        None
    } else if rows.last().kind == kind {
        Some(rows.last())
    } else {
        lookup(rows.drop_last(), kind)
    }
}

/// `rows` without any row for `kind`.
pub open spec fn without(rows: Seq<PermissionOverwrite>, kind: OverwriteKind) -> Seq<
    PermissionOverwrite,
>
    decreases rows.len(),
{
    if rows.len() == 0 {
        rows
    } else if rows.last().kind == kind {
        without(rows.drop_last(), kind)
    } else {
        without(rows.drop_last(), kind).push(rows.last())
    }
}

/// The access list as a map from principal to row.
pub open spec fn table(rows: Seq<PermissionOverwrite>) -> Map<OverwriteKind, PermissionOverwrite> {
    Map::new(|kind: OverwriteKind| lookup(rows, kind) is Some, |kind: OverwriteKind| lookup(rows, kind)->0)
}

/// What a change makes of an access list.
pub open spec fn apply_change(
    acl: Map<OverwriteKind, PermissionOverwrite>,
    change: AclChange,
) -> Map<OverwriteKind, PermissionOverwrite> {
    match change {
        AclChange::Put(row) => acl.insert(row.kind, row),
        AclChange::Remove(kind) => acl.remove(kind),
    }
}

proof fn lemma_lookup_without(rows: Seq<PermissionOverwrite>, gone: OverwriteKind, kind: OverwriteKind)
    ensures
        lookup(without(rows, gone), kind) == if kind == gone {
            None
        } else {
            lookup(rows, kind)
        },
        without(rows, gone).len() <= rows.len(),
    decreases rows.len(),
{
    if rows.len() > 0 {
        lemma_lookup_without(rows.drop_last(), gone, kind);
        if rows.last().kind != gone {
            let shorter = without(rows.drop_last(), gone);
            assert(shorter.push(rows.last()).drop_last() =~= shorter);
        }
    }
}

proof fn lemma_lookup_push(rows: Seq<PermissionOverwrite>, row: PermissionOverwrite, kind: OverwriteKind)
    ensures
        lookup(rows.push(row), kind) == if kind == row.kind {
            Some(row)
        } else {
            lookup(rows, kind)
        },
{
    assert(rows.push(row).drop_last() =~= rows);
}

/// No two rows speak of the same principal.
pub open spec fn one_row_each(rows: Seq<PermissionOverwrite>) -> bool {
    forall|i: int, j: int|
        0 <= i < rows.len() && 0 <= j < rows.len() && i != j ==> (#[trigger] rows[i]).kind != (
        #[trigger] rows[j]).kind
}

proof fn lemma_without_keeps_order(rows: Seq<PermissionOverwrite>, gone: OverwriteKind)
    ensures
        forall|i: int|
            0 <= i < without(rows, gone).len() ==> rows.contains(#[trigger] without(rows, gone)[i])
                && without(rows, gone)[i].kind != gone,
        one_row_each(rows) ==> one_row_each(without(rows, gone)),
    decreases rows.len(),
{
    if rows.len() > 0 {
        let shorter = rows.drop_last();
        lemma_without_keeps_order(shorter, gone);
        let kept = without(shorter, gone);
        assert forall|i: int| 0 <= i < kept.len() implies rows.contains(#[trigger] kept[i]) by {
            assert(shorter.contains(kept[i]));
            let at = choose|at: int| 0 <= at < shorter.len() && shorter[at] == kept[i];
            assert(rows[at] == kept[i]);
        }
        if one_row_each(rows) {
            assert forall|i: int, j: int|
                0 <= i < shorter.len() && 0 <= j < shorter.len() && i != j implies (
            #[trigger] shorter[i]).kind != (#[trigger] shorter[j]).kind by {
                assert(rows[i].kind != rows[j].kind);
            }
            if rows.last().kind != gone {
                let all = kept.push(rows.last());
                assert forall|i: int, j: int|
                    0 <= i < all.len() && 0 <= j < all.len() && i != j implies (#[trigger] all[i]).kind
                    != (#[trigger] all[j]).kind by {
                    if i < kept.len() && j < kept.len() {
                        assert(kept[i].kind != kept[j].kind);
                    } else {
                        let inner = if i < kept.len() { i } else { j };
                        assert(shorter.contains(kept[inner]));
                        let at = choose|at: int| 0 <= at < shorter.len() && shorter[at] == kept[inner];
                        assert(rows[at].kind != rows[rows.len() - 1].kind);
                    }
                }
            }
        }
        if rows.last().kind != gone {
            assert(rows.contains(rows.last())) by {
                assert(rows[rows.len() - 1] == rows.last());
            }
        }
    }
}

/// The rows of `rows` that do not speak of `kind`.
fn rows_without(rows: &Vec<PermissionOverwrite>, kind: OverwriteKind) -> (kept: Vec<
    PermissionOverwrite,
>)
    ensures
        kept@ == without(rows@, kind),
{
    let mut kept: Vec<PermissionOverwrite> = Vec::new();
    let mut i: usize = 0;
    assert(rows@.take(0) =~= Seq::<PermissionOverwrite>::empty());
    while i < rows.len()
        invariant
            i <= rows.len(),
            kept@ == without(rows@.take(i as int), kind),
        decreases rows.len() - i,
    {
        assert(rows@.take(i + 1).drop_last() =~= rows@.take(i as int));
        if rows[i].kind != kind {
            kept.push(rows[i]);
        }
        i += 1;
    }
    assert(rows@.take(i as int) =~= rows@);
    kept
}

/// The access list of one channel.
pub struct ChannelAcl {
    rows: Vec<PermissionOverwrite>,
}

impl View for ChannelAcl {
    type V = Map<OverwriteKind, PermissionOverwrite>;

    closed spec fn view(&self) -> Map<OverwriteKind, PermissionOverwrite> {
        table(self.rows@)
    }
}

impl ChannelAcl {
    #[verifier::type_invariant]
    spec fn one_row_per_principal(&self) -> bool {
        one_row_each(self.rows@)
    }

    /// An access list without rows.
    pub fn new() -> (acl: ChannelAcl)
        ensures
            acl@ == Map::<OverwriteKind, PermissionOverwrite>::empty(),
    {
        let acl = ChannelAcl { rows: Vec::new() };
        assert(acl@ =~= Map::<OverwriteKind, PermissionOverwrite>::empty());
        acl
    }

    /// The row of `kind`, if the list has one.
    pub fn get(&self, kind: OverwriteKind) -> (row: Option<PermissionOverwrite>)
        ensures
            row == if self@.contains_key(kind) {
                Some(self@[kind])
            } else {
                None
            },
    {
        let mut i: usize = self.rows.len();
        assert(self.rows@.take(i as int) =~= self.rows@);
        while i > 0
            invariant
                i <= self.rows.len(),
                lookup(self.rows@, kind) == lookup(self.rows@.take(i as int), kind),
            decreases i,
        {
            i -= 1;
            assert(self.rows@.take(i + 1).drop_last() =~= self.rows@.take(i as int));
            if self.rows[i].kind == kind {
                return Some(self.rows[i]);
            }
        }
        None
    }

    /// Deletes the row of `kind`; other rows stay as they are.
    pub fn remove(&mut self, kind: OverwriteKind)
        ensures
            final(self)@ == old(self)@.remove(kind),
    {
        let kept = rows_without(&self.rows, kind);
        proof {
            assert forall|k: OverwriteKind|
                lookup(kept@, k) == if k == kind {
                    None
                } else {
                    lookup(self.rows@, k)
                } by {
                lemma_lookup_without(self.rows@, kind, k);
            }
            assert(table(kept@) =~= table(self.rows@).remove(kind));
            use_type_invariant(&*self);
            lemma_without_keeps_order(self.rows@, kind);
        }
        self.rows = kept;
    }

    /// Writes `row`, in place of the principal's earlier row if it had one;
    /// other rows stay as they are.
    pub fn put(&mut self, row: PermissionOverwrite)
        ensures
            final(self)@ == old(self)@.insert(row.kind, row),
    {
        let mut next = rows_without(&self.rows, row.kind);
        proof {
            let kept = next@;
            assert forall|k: OverwriteKind|
                lookup(kept.push(row), k) == if k == row.kind {
                    Some(row)
                } else {
                    lookup(self.rows@, k)
                } by {
                lemma_lookup_without(self.rows@, row.kind, k);
                lemma_lookup_push(kept, row, k);
            }
            assert(table(kept.push(row)) =~= table(self.rows@).insert(row.kind, row));
            use_type_invariant(&*self);
            lemma_without_keeps_order(self.rows@, row.kind);
            assert(one_row_each(kept.push(row)));
        }
        next.push(row);
        self.rows = next;
    }

    /// Carries out one policy decision.
    pub fn apply(&mut self, change: AclChange)
        ensures
            final(self)@ == apply_change(old(self)@, change),
    {
        match change {
            AclChange::Put(row) => self.put(row),
            AclChange::Remove(kind) => self.remove(kind),
        }
    }

    /// The rows of the list, one per principal.
    pub fn rows(&self) -> (rows: Vec<PermissionOverwrite>)
        ensures
            table(rows@) == self@,
            one_row_each(rows@),
    {
        proof {
            use_type_invariant(self);
        }
        let rows = self.rows.clone();
        assert(rows@ =~= self.rows@);
        rows
    }
}

/// Setting a mode changes no row but the member role's: every other
/// principal keeps its row, or stays without one.
pub proof fn lemma_mode_touches_member_role_only(
    acl: Map<OverwriteKind, PermissionOverwrite>,
    mode: VisibilityMode,
    member_role: u64,
    other: OverwriteKind,
)
    requires
        other != OverwriteKind::Role(member_role),
    ensures
        apply_change(acl, spec_mode_change(mode, member_role)).contains_key(other)
            == acl.contains_key(other),
        acl.contains_key(other) ==> apply_change(acl, spec_mode_change(mode, member_role))[other]
            == acl[other],
{
}

/// After `private` the member role has no row at all, whatever mode was set
/// before, and a row written for a single user before the change is still
/// there, unchanged.
pub proof fn lemma_private_after_any_mode(
    acl: Map<OverwriteKind, PermissionOverwrite>,
    before: VisibilityMode,
    member_role: u64,
    user: u64,
)
    ensures
        ({
            let earlier = apply_change(acl, spec_mode_change(before, member_role));
            let later = apply_change(earlier, spec_mode_change(VisibilityMode::Private, member_role));
            &&& !later.contains_key(OverwriteKind::Role(member_role))
            &&& later.contains_key(OverwriteKind::Member(user)) == acl.contains_key(
                OverwriteKind::Member(user),
            )
            &&& acl.contains_key(OverwriteKind::Member(user)) ==> later[OverwriteKind::Member(user)]
                == acl[OverwriteKind::Member(user)]
        }),
{
}

/// A change on a named user leaves every other principal's row alone, and a
/// removal leaves the user without a row.
pub proof fn lemma_user_change_is_local(
    acl: Map<OverwriteKind, PermissionOverwrite>,
    action: UserAction,
    user: u64,
    other: OverwriteKind,
)
    requires
        other != OverwriteKind::Member(user),
    ensures
        apply_change(acl, spec_user_change(action, user)).contains_key(other) == acl.contains_key(
            other,
        ),
        acl.contains_key(other) ==> apply_change(acl, spec_user_change(action, user))[other]
            == acl[other],
        (action == UserAction::Unban || action == UserAction::RemoveViewer) ==> !apply_change(
            acl,
            spec_user_change(action, user),
        ).contains_key(OverwriteKind::Member(user)),
{
}

} // verus!

//! The channels of a container, and the order they are displayed in:
//! ascending by name, recomputed from the live listing after every change.

use vstd::prelude::*;
use vstd::relations::{sorted_by, total_ordering};
use vstd::seq_lib::{lemma_sorted_unique, to_multiset_build, to_multiset_insert};

verus! {

/// What the platform shows of a channel.
pub struct ChannelInfo {
    pub id: u64,
    pub name: String,
    pub parent_id: Option<u64>,
}

/// The bytes of a channel's name. Names are ordered by their bytes, as the
/// platform returns them: case matters.
pub open spec fn name_of(channel: ChannelInfo) -> Seq<u8> {
    vstd::utf8::encode_utf8(channel.name@)
}

/// The lexicographic order on byte strings: `a` comes before `b`, or is
/// `b`.
pub open spec fn bytes_le(a: Seq<u8>, b: Seq<u8>) -> bool
    decreases a.len(),
{
    if a.len() == 0 {
        true
    } else if b.len() == 0 {
        false
    } else if a[0] != b[0] {
        a[0] < b[0]
    } else {
        bytes_le(a.drop_first(), b.drop_first())
    }
}

/// Whether the channel listed at `i` is displayed no later than the one
/// listed at `j`: by name, and for equal names by their place in the
/// listing.
pub open spec fn goes_before(members: Seq<ChannelInfo>, i: usize, j: usize) -> bool {
    if name_of(members[i as int]) == name_of(members[j as int]) {
        i <= j
    } else {
        bytes_le(name_of(members[i as int]), name_of(members[j as int]))
    }
}

/// The display order as a relation on places in the listing.
pub open spec fn name_order(members: Seq<ChannelInfo>) -> spec_fn(usize, usize) -> bool {
    |i: usize, j: usize| goes_before(members, i, j)
}

/// The places `0, 1, ..` of a listing of `n` channels.
pub open spec fn places(n: nat) -> Seq<usize> {
    Seq::new(n, |k: int| k as usize)
}

/// The places of a listing in display order.
pub open spec fn sorted_places(members: Seq<ChannelInfo>) -> Seq<usize> {
    places(members.len()).sort_by(name_order(members))
}

/// The reorder instruction for a listing: each channel's identifier with
/// its position, counted from zero, in display order.
pub open spec fn reordering(members: Seq<ChannelInfo>) -> Seq<(u64, u64)> {
    Seq::new(
        members.len(),
        |k: int| (members[sorted_places(members)[k] as int].id, k as u64),
    )
}

/// The listing in display order.
pub open spec fn arranged(members: Seq<ChannelInfo>) -> Seq<ChannelInfo> {
    Seq::new(members.len(), |k: int| members[sorted_places(members)[k] as int])
}

/// The channels of `channels` whose container is `category`.
pub open spec fn children_of(channels: Seq<ChannelInfo>, category: u64) -> Seq<ChannelInfo> {
    channels.filter(|c: ChannelInfo| c.parent_id == Some(category))
}

proof fn lemma_bytes_le_reflexive(a: Seq<u8>)
    ensures
        bytes_le(a, a),
    decreases a.len(),
{
    if a.len() > 0 {
        lemma_bytes_le_reflexive(a.drop_first());
    }
}

proof fn lemma_bytes_le_antisymmetric(a: Seq<u8>, b: Seq<u8>)
    requires
        bytes_le(a, b),
        bytes_le(b, a),
    ensures
        a == b,
    decreases a.len(),
{
    if a.len() > 0 {
        lemma_bytes_le_antisymmetric(a.drop_first(), b.drop_first());
        assert(a =~= seq![a[0]] + a.drop_first());
        assert(b =~= seq![b[0]] + b.drop_first());
    } else {
        assert(a =~= b);
    }
}

proof fn lemma_bytes_le_transitive(a: Seq<u8>, b: Seq<u8>, c: Seq<u8>)
    requires
        bytes_le(a, b),
        bytes_le(b, c),
    ensures
        bytes_le(a, c),
    decreases a.len(),
{
    if a.len() > 0 && a[0] == b[0] && b[0] == c[0] {
        lemma_bytes_le_transitive(a.drop_first(), b.drop_first(), c.drop_first());
    }
}

proof fn lemma_bytes_le_total(a: Seq<u8>, b: Seq<u8>)
    ensures
        bytes_le(a, b) || bytes_le(b, a),
    decreases a.len(),
{
    if a.len() > 0 && b.len() > 0 && a[0] == b[0] {
        lemma_bytes_le_total(a.drop_first(), b.drop_first());
    }
}

/// The display order is a total order on the places of a listing.
pub proof fn lemma_name_order_is_total(members: Seq<ChannelInfo>)
    ensures
        total_ordering(name_order(members)),
{
    let leq = name_order(members);
    assert forall|x: usize| #[trigger] leq(x, x) by {}
    assert forall|x: usize, y: usize| #[trigger] leq(x, y) && #[trigger] leq(y, x) implies x
        == y by {
        if name_of(members[x as int]) != name_of(members[y as int]) {
            lemma_bytes_le_antisymmetric(name_of(members[x as int]), name_of(members[y as int]));
        }
    }
    assert forall|x: usize, y: usize, z: usize| #[trigger] leq(x, y) && #[trigger] leq(y, z) implies leq(
        x,
        z,
    ) by {
        let a = name_of(members[x as int]);
        let b = name_of(members[y as int]);
        let c = name_of(members[z as int]);
        lemma_bytes_le_reflexive(a);
        lemma_bytes_le_reflexive(b);
        lemma_bytes_le_transitive(a, b, c);
        if a == c && a != b {
            lemma_bytes_le_antisymmetric(a, b);
        }
    }
    assert forall|x: usize, y: usize| #[trigger] leq(x, y) || #[trigger] leq(y, x) by {
        lemma_bytes_le_total(name_of(members[x as int]), name_of(members[y as int]));
    }
    assert(vstd::relations::reflexive(leq));
    assert(vstd::relations::antisymmetric(leq));
    assert(vstd::relations::transitive(leq));
    assert(vstd::relations::strongly_connected(leq));
}

/// Whether the bytes `a` come before the bytes `b`, or are `b`.
fn name_le(a: &[u8], b: &[u8]) -> (le: bool)
    ensures
        le == bytes_le(a@, b@),
{
    let mut i: usize = 0;
    assert(a@.skip(0) =~= a@ && b@.skip(0) =~= b@);
    loop
        invariant
            i <= a.len(),
            i <= b.len(),
            bytes_le(a@, b@) == bytes_le(a@.skip(i as int), b@.skip(i as int)),
        decreases a.len() - i,
    {
        if i == a.len() {
            return true;
        }
        if i == b.len() {
            return false;
        }
        if a[i] != b[i] {
            return a[i] < b[i];
        }
        assert(a@.skip(i as int).drop_first() =~= a@.skip(i + 1));
        assert(b@.skip(i as int).drop_first() =~= b@.skip(i + 1));
        i += 1;
    }
}

/// A copy of what the platform shows of a channel.
fn duplicate(channel: &ChannelInfo) -> (copy: ChannelInfo)
    ensures
        copy == *channel,
{
    ChannelInfo { id: channel.id, name: channel.name.clone(), parent_id: channel.parent_id }
}

/// The channels of the listing `channels` that sit in `category`, in the
/// order of the listing.
pub fn get_channels_in_category(category: u64, channels: &Vec<ChannelInfo>) -> (children: Vec<
    ChannelInfo,
>)
    ensures
        children@ == children_of(channels@, category),
{
    let mut children: Vec<ChannelInfo> = Vec::new();
    let mut i: usize = 0;
    proof {
        reveal(Seq::filter);
        assert(channels@.take(0) =~= Seq::<ChannelInfo>::empty());
    }
    while i < channels.len()
        invariant
            i <= channels.len(),
            children@ == children_of(channels@.take(i as int), category),
        decreases channels.len() - i,
    {
        proof {
            reveal(Seq::filter);
            assert(channels@.take(i + 1).drop_last() =~= channels@.take(i as int));
        }
        let inside = match channels[i].parent_id {
            Some(parent) => parent == category,
            None => false,
        };
        if inside {
            children.push(duplicate(&channels[i]));
        }
        i += 1;
    }
    assert(channels@.take(i as int) =~= channels@);
    children
}

/// The places of `members` in display order.
fn sort_places(members: &Vec<ChannelInfo>) -> (order: Vec<usize>)
    ensures
        order@ == sorted_places(members@),
{
    let n = members.len();
    let mut order: Vec<usize> = Vec::new();
    let mut i: usize = 0;
    proof {
        lemma_name_order_is_total(members@);
        assert(places(0) =~= Seq::<usize>::empty());
    }
    while i < n
        invariant
            i <= n,
            n == members@.len(),
            order@.len() == i,
            total_ordering(name_order(members@)),
            sorted_by(order@, name_order(members@)),
            order@.to_multiset() == places(i as nat).to_multiset(),
            forall|k: int| 0 <= k < i ==> #[trigger] order@[k] < i,
        decreases n - i,
    {
        let ghost leq = name_order(members@);
        let name = members[i].name.as_str().as_bytes();
        let mut p: usize = 0;
        while p < order.len() && name_le(members[order[p]].name.as_str().as_bytes(), name)
            invariant
                p <= order@.len(),
                order@.len() == i,
                i < n,
                n == members@.len(),
                name@ == name_of(members@[i as int]),
                forall|k: int| 0 <= k < i ==> #[trigger] order@[k] < i,
                forall|k: int| 0 <= k < p ==> leq(#[trigger] order@[k], i),
                leq == name_order(members@),
            decreases order@.len() - p,
        {
            proof {
                let q = order@[p as int];
                assert(q < i);
                assert(leq(q, i));
            }
            p += 1;
        }
        proof {
            let before = order@;
            let after = before.insert(p as int, i);
            assert forall|a: int, b: int| 0 <= a < b < after.len() implies leq(
                after[a],
                after[b],
            ) by {
                if b < p {
                    assert(after[a] == before[a] && after[b] == before[b]);
                } else if b == p {
                    assert(after[a] == before[a]);
                } else if a > p {
                    assert(after[a] == before[a - 1] && after[b] == before[b - 1]);
                } else if a < p {
                    assert(after[a] == before[a] && after[b] == before[b - 1]);
                    let q = before[p as int];
                    assert(q < i);
                    lemma_bytes_le_reflexive(name_of(members@[q as int]));
                    assert(!leq(q, i));
                    assert(leq(i, q));
                    assert(leq(before[a], i));
                    if p < b - 1 {
                        assert(leq(q, before[b - 1]));
                    } else {
                        assert(leq(q, q));
                    }
                    assert(leq(before[a], q));
                    assert(leq(before[a], before[b - 1]));
                } else {
                    assert(after[b] == before[b - 1]);
                    let q = before[p as int];
                    assert(q < i);
                    lemma_bytes_le_reflexive(name_of(members@[q as int]));
                    assert(!leq(q, i));
                    assert(leq(i, q));
                    if p < b - 1 {
                        assert(leq(q, before[b - 1]));
                    } else {
                        assert(leq(q, q));
                    }
                    assert(leq(i, before[b - 1]));
                }
            }
            to_multiset_insert(before, p as int, i);
            to_multiset_build(places(i as nat), i);
            assert(places((i + 1) as nat) =~= places(i as nat).push(i));
            assert forall|k: int| 0 <= k < i + 1 implies #[trigger] after[k] < i + 1 by {
                if k < p {
                    assert(after[k] == before[k]);
                } else if k > p {
                    assert(after[k] == before[k - 1]);
                }
            }
        }
        order.insert(p, i);
        i += 1;
    }
    proof {
        let leq = name_order(members@);
        places(n as nat).lemma_sort_by_ensures(leq);
        lemma_sorted_unique(order@, sorted_places(members@), leq);
    }
    order
}

/// The reorder instruction that puts the channels `members` of one
/// container in the order of their names: each identifier with its
/// position, counted from zero.
pub fn sort_category(members: &Vec<ChannelInfo>) -> (instruction: Vec<(u64, u64)>)
    ensures
        instruction@ == reordering(members@),
{
    let order = sort_places(members);
    proof {
        assert(members@.len() == members.len());
        lemma_sorted_places(members@);
    }
    let mut instruction: Vec<(u64, u64)> = Vec::new();
    let mut k: usize = 0;
    while k < order.len()
        invariant
            k <= order@.len(),
            order@ == sorted_places(members@),
            order@.len() == members@.len(),
            forall|j: int| 0 <= j < order@.len() ==> #[trigger] order@[j] < members@.len(),
            instruction@.len() == k,
            forall|j: int| 0 <= j < k ==> #[trigger] instruction@[j] == reordering(members@)[j],
        decreases order@.len() - k,
    {
        instruction.push((members[order[k]].id, k as u64));
        k += 1;
    }
    assert(instruction@ =~= reordering(members@));
    instruction
}

/// The places in display order are the places of the listing, each once,
/// and no channel is displayed after one that it goes before.
pub proof fn lemma_sorted_places(members: Seq<ChannelInfo>)
    requires
        members.len() <= usize::MAX,
    ensures
        sorted_places(members).len() == members.len(),
        forall|k: int|
            0 <= k < members.len() ==> #[trigger] sorted_places(members)[k] < members.len(),
        sorted_places(members).no_duplicates(),
        forall|a: int, b: int|
            0 <= a < b < members.len() ==> goes_before(
                members,
                #[trigger] sorted_places(members)[a],
                #[trigger] sorted_places(members)[b],
            ),
{
    let leq = name_order(members);
    let all = places(members.len());
    let order = sorted_places(members);
    lemma_name_order_is_total(members);
    all.lemma_sort_by_ensures(leq);
    all.to_multiset_ensures();
    order.to_multiset_ensures();
    assert forall|i: int, j: int| 0 <= i < all.len() && 0 <= j < all.len() && i != j implies all[i]
        != all[j] by {
        assert(all[i] == i as usize && all[j] == j as usize);
    }
    assert(all.no_duplicates());
    all.lemma_multiset_has_no_duplicates();
    order.lemma_multiset_has_no_duplicates_conv();
    assert forall|k: int| 0 <= k < members.len() implies #[trigger] order[k] < members.len() by {
        assert(order.contains(order[k]));
        assert(all.to_multiset().count(order[k]) > 0);
        assert(all.contains(order[k]));
        let at = choose|at: int| 0 <= at < all.len() && all[at] == order[k];
        assert(all[at] == at as usize);
    }
    assert forall|a: int, b: int| 0 <= a < b < members.len() implies goes_before(
        members,
        #[trigger] order[a],
        #[trigger] order[b],
    ) by {
        assert(leq(order[a], order[b]));
    }
}

/// Channels with distinct names are displayed strictly ascending by name.
pub proof fn lemma_distinct_names_ascend(members: Seq<ChannelInfo>)
    requires
        members.len() <= usize::MAX,
        distinct_names(members),
    ensures
        forall|a: int, b: int|
            0 <= a < b < members.len() ==> bytes_le(
                name_of(#[trigger] arranged(members)[a]),
                name_of(#[trigger] arranged(members)[b]),
            ) && name_of(arranged(members)[a]) != name_of(arranged(members)[b]),
{
    lemma_sorted_places(members);
    let order = sorted_places(members);
    assert forall|a: int, b: int| 0 <= a < b < members.len() implies bytes_le(
        name_of(#[trigger] arranged(members)[a]),
        name_of(#[trigger] arranged(members)[b]),
    ) && name_of(arranged(members)[a]) != name_of(arranged(members)[b]) by {
        let x = order[a];
        let y = order[b];
        assert(goes_before(members, x, y));
        assert(x != y);
        if x < y {
            assert(name_of(members[x as int]) != name_of(members[y as int]));
        } else {
            assert(name_of(members[y as int]) != name_of(members[x as int]));
        }
    }
}

/// Sorting is idempotent: a container whose channels are listed in the
/// order that sorting gave them gets the same instruction again, and every
/// channel keeps its place.
pub proof fn lemma_sorting_is_idempotent(members: Seq<ChannelInfo>)
    requires
        members.len() <= usize::MAX,
    ensures
        sorted_places(arranged(members)) == places(members.len()),
        arranged(arranged(members)) == arranged(members),
        reordering(arranged(members)) == reordering(members),
{
    lemma_sorted_places(members);
    let listed = arranged(members);
    let order = sorted_places(members);
    let leq = name_order(listed);
    let all = places(members.len());
    lemma_name_order_is_total(listed);
    assert forall|a: int, b: int| 0 <= a < b < all.len() implies #[trigger] leq(all[a], all[b]) by {
        assert(goes_before(members, order[a], order[b]));
        assert(all[a] == a as usize && all[b] == b as usize);
        assert(listed[a] == members[order[a] as int] && listed[b] == members[order[b] as int]);
        assert(goes_before(listed, a as usize, b as usize));
    }
    all.lemma_sort_by_ensures(leq);
    lemma_sorted_unique(all, sorted_places(listed), leq);
    assert forall|k: int| 0 <= k < listed.len() implies arranged(listed)[k] == listed[k] by {
        assert(sorted_places(listed)[k] == all[k]);
        assert(all[k] == k as usize);
    }
    assert(arranged(listed) =~= listed);
    assert(reordering(listed) =~= reordering(members));
}

/// What the display order of a channel rests on: the bytes of its name,
/// and its identifier.
pub open spec fn row_of(channel: ChannelInfo) -> (Seq<u8>, u64) {
    (name_of(channel), channel.id)
}

/// What the display order of a listing rests on.
pub open spec fn rows_of(members: Seq<ChannelInfo>) -> Seq<(Seq<u8>, u64)> {
    Seq::new(members.len(), |i: int| row_of(members[i]))
}

/// Whether no two channels of a listing share a name.
pub open spec fn distinct_names(members: Seq<ChannelInfo>) -> bool {
    forall|i: int, j: int|
        0 <= i < members.len() && 0 <= j < members.len() && i != j ==> name_of(
            #[trigger] members[i],
        ) != name_of(#[trigger] members[j])
}

spec fn row_le(a: (Seq<u8>, u64), b: (Seq<u8>, u64)) -> bool {
    if a.0 != b.0 {
        bytes_le(a.0, b.0)
    } else {
        a.1 <= b.1
    }
}

spec fn row_order() -> spec_fn((Seq<u8>, u64), (Seq<u8>, u64)) -> bool {
    |a: (Seq<u8>, u64), b: (Seq<u8>, u64)| row_le(a, b)
}

proof fn lemma_row_order_is_total()
    ensures
        total_ordering(row_order()),
{
    let leq = row_order();
    assert forall|x: (Seq<u8>, u64)| #[trigger] leq(x, x) by {}
    assert forall|x: (Seq<u8>, u64), y: (Seq<u8>, u64)| #[trigger]
        leq(x, y) && #[trigger] leq(y, x) implies x == y by {
        if x.0 != y.0 {
            lemma_bytes_le_antisymmetric(x.0, y.0);
        }
    }
    assert forall|x: (Seq<u8>, u64), y: (Seq<u8>, u64), z: (Seq<u8>, u64)| #[trigger]
        leq(x, y) && #[trigger] leq(y, z) implies leq(x, z) by {
        lemma_bytes_le_reflexive(x.0);
        lemma_bytes_le_reflexive(y.0);
        lemma_bytes_le_transitive(x.0, y.0, z.0);
        if x.0 == z.0 && x.0 != y.0 {
            lemma_bytes_le_antisymmetric(x.0, y.0);
        }
    }
    assert forall|x: (Seq<u8>, u64), y: (Seq<u8>, u64)| #[trigger]
        leq(x, y) || #[trigger] leq(y, x) by {
        lemma_bytes_le_total(x.0, y.0);
    }
    assert(vstd::relations::reflexive(leq));
    assert(vstd::relations::antisymmetric(leq));
    assert(vstd::relations::transitive(leq));
    assert(vstd::relations::strongly_connected(leq));
}

proof fn lemma_mapped_multiset<A, B>(s: Seq<A>, t: Seq<A>, f: spec_fn(A) -> B)
    requires
        s.to_multiset() == t.to_multiset(),
    ensures
        s.map_values(f).to_multiset() == t.map_values(f).to_multiset(),
    decreases s.len(),
{
    s.to_multiset_ensures();
    t.to_multiset_ensures();
    if s.len() == 0 {
        assert(s.map_values(f) =~= t.map_values(f));
    } else {
        let x = s.last();
        assert(s.contains(x)) by {
            assert(s[s.len() - 1] == x);
        }
        assert(s.to_multiset().count(x) > 0);
        assert(t.to_multiset().count(x) > 0);
        assert(t.contains(x));
        let i = choose|i: int| 0 <= i < t.len() && t[i] == x;
        let shorter = s.drop_last();
        let other = t.remove(i);
        assert(shorter =~= s.remove(s.len() - 1));
        vstd::seq_lib::to_multiset_remove(s, s.len() - 1);
        vstd::seq_lib::to_multiset_remove(t, i);
        lemma_mapped_multiset(shorter, other, f);
        assert(s.map_values(f) =~= shorter.map_values(f).push(f(x)));
        assert(t.map_values(f) =~= other.map_values(f).insert(i, f(x)));
        to_multiset_build(shorter.map_values(f), f(x));
        to_multiset_insert(other.map_values(f), i, f(x));
    }
}

proof fn lemma_arranged_rows(members: Seq<ChannelInfo>)
    requires
        members.len() <= usize::MAX,
    ensures
        rows_of(arranged(members)).to_multiset() == rows_of(members).to_multiset(),
        distinct_names(members) ==> sorted_by(rows_of(arranged(members)), row_order()),
{
    let n = members.len();
    let order = sorted_places(members);
    let f = |k: usize| row_of(members[k as int]);
    lemma_sorted_places(members);
    lemma_name_order_is_total(members);
    places(n).lemma_sort_by_ensures(name_order(members));
    lemma_mapped_multiset(order, places(n), f);
    assert(order.map_values(f) =~= rows_of(arranged(members)));
    assert(places(n).map_values(f) =~= rows_of(members)) by {
        assert forall|k: int| 0 <= k < n implies places(n).map_values(f)[k] == rows_of(
            members,
        )[k] by {
            assert(places(n)[k] == k as usize);
        }
    }
    if distinct_names(members) {
        let rows = rows_of(arranged(members));
        assert forall|a: int, b: int| 0 <= a < b < rows.len() implies #[trigger] row_order()(
            rows[a],
            rows[b],
        ) by {
            assert(goes_before(members, order[a], order[b]));
            assert(order[a] != order[b]);
            assert(members[order[a] as int] == arranged(members)[a]);
            assert(members[order[b] as int] == arranged(members)[b]);
            assert(name_of(members[order[a] as int]) != name_of(members[order[b] as int]));
        }
    }
}

proof fn lemma_names_stay_distinct(first: Seq<ChannelInfo>, second: Seq<ChannelInfo>)
    requires
        rows_of(first).to_multiset() == rows_of(second).to_multiset(),
        distinct_names(first),
    ensures
        distinct_names(second),
        first.len() == second.len(),
{
    let a = rows_of(first);
    let b = rows_of(second);
    a.to_multiset_ensures();
    b.to_multiset_ensures();
    assert forall|i: int, j: int| 0 <= i < a.len() && 0 <= j < a.len() && i != j implies a[i]
        != a[j] by {
        assert(name_of(first[i]) != name_of(first[j]));
    }
    assert(a.no_duplicates());
    a.lemma_multiset_has_no_duplicates();
    b.lemma_multiset_has_no_duplicates_conv();
    assert forall|i: int, j: int|
        0 <= i < second.len() && 0 <= j < second.len() && i != j implies name_of(
        #[trigger] second[i],
    ) != name_of(#[trigger] second[j]) by {
        assert(b.contains(b[i]) && b.contains(b[j]));
        assert(b.to_multiset().count(b[i]) > 0 && b.to_multiset().count(b[j]) > 0);
        assert(a.to_multiset().count(b[i]) > 0 && a.to_multiset().count(b[j]) > 0);
        assert(a.contains(b[i]) && a.contains(b[j]));
        let p = choose|p: int| 0 <= p < a.len() && a[p] == b[i];
        let q = choose|q: int| 0 <= q < a.len() && a[q] == b[j];
        if name_of(second[i]) == name_of(second[j]) {
            assert(name_of(first[p]) == name_of(first[q]));
            assert(p == q);
            assert(b[i] == b[j]);
        }
    }
}

/// The order that sorting gives to channels with distinct names does not
/// depend on the order the platform lists them in: two listings of the
/// same channels get the same instruction. So sorting again, with no
/// change of membership in between, changes nothing.
pub proof fn lemma_order_ignores_listing(first: Seq<ChannelInfo>, second: Seq<ChannelInfo>)
    requires
        first.len() <= usize::MAX,
        rows_of(first).to_multiset() == rows_of(second).to_multiset(),
        distinct_names(first),
    ensures
        reordering(first) == reordering(second),
{
    lemma_names_stay_distinct(first, second);
    lemma_arranged_rows(first);
    lemma_arranged_rows(second);
    lemma_row_order_is_total();
    let a = rows_of(arranged(first));
    let b = rows_of(arranged(second));
    lemma_sorted_unique(a, b, row_order());
    assert forall|k: int| 0 <= k < first.len() implies reordering(first)[k] == reordering(
        second,
    )[k] by {
        assert(a[k] == row_of(arranged(first)[k]));
        assert(b[k] == row_of(arranged(second)[k]));
    }
    assert(reordering(first) =~= reordering(second));
}

} // verus!

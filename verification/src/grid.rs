//! The arrangement of the host grid, and what a drag over it shows and does.

use vstd::prelude::*;
use vstd::string::*;

use crate::profile::{
    distinct_ids, find_profile, found_at, ids, in_range, lemma_found, lemma_found_at, picked,
    tree_order, tree_sorted, ConnectionProfile, ProfileId,
};
use crate::text::same;

verus! {

/// On which side of another session a dragged one lands.
#[derive(Debug, Clone, Copy, PartialEq, Eq, Structural)]
pub enum ProfileDropPosition {
    Before,
    After,
}

/// Where a dragged session will land.
#[derive(Debug, Clone)]
pub enum ProfileDrop {
    /// Next to another session, in that session's group.
    Beside { profile_id: ProfileId, position: ProfileDropPosition },
    /// Into a group.
    IntoGroup(String),
    /// Out of any group, above everything.
    TopLevel,
    /// Out of any group, below everything.
    BottomLevel,
}

/// A session that is being dragged.
pub struct ProfileDrag {
    pub dragged: Option<ProfileId>,
    /// The pointer has moved far enough for this to be no click.
    pub active: bool,
    /// The drag began on a card of the grid, not in the tree.
    pub from_grid: bool,
    pub drop: Option<ProfileDrop>,
}

// Lists of identities.

/// A list without every occurrence of an identity.
pub open spec fn ids_without(list: Seq<ProfileId>, id: ProfileId) -> Seq<ProfileId>
    decreases list.len(),
{
    if list.len() == 0 {
        Seq::empty()
    } else if list.last() == id {
        ids_without(list.drop_last(), id)
    } else {
        ids_without(list.drop_last(), id).push(list.last())
    }
}

/// The position of the first occurrence of an identity.
pub open spec fn id_at(list: Seq<ProfileId>, id: ProfileId) -> Option<int>
    decreases list.len(),
{
    if list.len() == 0 {
        None
    } else if list[0] == id {
        Some(0)
    } else {
        match id_at(list.drop_first(), id) {
            Some(k) => Some(k + 1),
            None => None,
        }
    }
}

/// A list with `source` taken out and put next to `target`, if that is there.
pub open spec fn put_beside(
    list: Seq<ProfileId>,
    source: ProfileId,
    target: ProfileId,
    position: ProfileDropPosition,
) -> Option<Seq<ProfileId>> {
    let rest = ids_without(list, source);
    match id_at(rest, target) {
        None => None,
        Some(k) => Some(
            rest.insert(
                if position == ProfileDropPosition::After {
                    k + 1
                } else {
                    k
                },
                source,
            ),
        ),
    }
}

proof fn lemma_id_at(list: Seq<ProfileId>, id: ProfileId, k: int)
    requires
        0 <= k <= list.len(),
        forall|i: int| 0 <= i < k ==> list[i] != id,
        k < list.len() ==> list[k] == id,
    ensures
        id_at(list, id) == if k < list.len() {
            Some(k)
        } else {
            None
        },
    decreases list.len(),
{
    if list.len() > 0 && k > 0 {
        assert forall|i: int| 0 <= i < k - 1 implies list.drop_first()[i] != id by {
            assert(list[i + 1] != id);
        }
        lemma_id_at(list.drop_first(), id, k - 1);
    }
}

/// What was found is there, and what is there is found.
pub proof fn lemma_id_found(list: Seq<ProfileId>, id: ProfileId)
    ensures
        id_at(list, id) matches Some(k) ==> 0 <= k < list.len() && list[k] == id,
        id_at(list, id) is Some <==> list.contains(id),
    decreases list.len(),
{
    if list.len() > 0 && list[0] != id {
        let rest = list.drop_first();
        lemma_id_found(rest, id);
        if list.contains(id) {
            let i = choose|i: int| 0 <= i < list.len() && list[i] == id;
            assert(rest[i - 1] == id);
        }
        if rest.contains(id) {
            let i = choose|i: int| 0 <= i < rest.len() && rest[i] == id;
            assert(list[i + 1] == id);
        }
    }
}

/// The position of the first occurrence of an identity.
pub fn index_of_id(list: &Vec<ProfileId>, id: ProfileId) -> (r: Option<usize>)
    ensures
        match r {
            Some(k) => id_at(list@, id) == Some(k as int) && k < list@.len(),
            None => id_at(list@, id) is None,
        },
        r is Some <==> list@.contains(id),
{
    let mut i: usize = 0;
    while i < list.len()
        invariant
            i <= list.len(),
            forall|j: int| 0 <= j < i ==> list@[j] != id,
        decreases list.len() - i,
    {
        if list[i] == id {
            proof {
                lemma_id_at(list@, id, i as int);
                lemma_id_found(list@, id);
            }
            return Some(i);
        }
        i += 1;
    }
    proof {
        lemma_id_at(list@, id, i as int);
        lemma_id_found(list@, id);
    }
    None
}

fn drop_id(list: &Vec<ProfileId>, id: ProfileId) -> (r: Vec<ProfileId>)
    ensures
        r@ == ids_without(list@, id),
        r@.len() <= list@.len(),
{
    let mut out: Vec<ProfileId> = Vec::new();
    let mut i: usize = 0;
    while i < list.len()
        invariant
            i <= list.len(),
            out@ == ids_without(list@.take(i as int), id),
            out@.len() <= i,
        decreases list.len() - i,
    {
        assert(list@.take(i + 1).drop_last() =~= list@.take(i as int));
        if list[i] != id {
            out.push(list[i]);
        }
        i += 1;
    }
    assert(list@.take(i as int) =~= list@);
    out
}

/// A list with `source` taken out and put next to `target`, if that is there.
pub fn move_beside(
    list: &Vec<ProfileId>,
    source: ProfileId,
    target: ProfileId,
    position: ProfileDropPosition,
) -> (r: Option<Vec<ProfileId>>)
    ensures
        match r {
            Some(moved) => put_beside(list@, source, target, position) == Some(moved@),
            None => put_beside(list@, source, target, position) is None,
        },
{
    let mut rest: Vec<ProfileId> = drop_id(list, source);
    let count: usize = rest.len();
    match index_of_id(&rest, target) {
        None => None,
        Some(k) => {
            let at: usize = if position == ProfileDropPosition::After {
                k + 1
            } else {
                k
            };
            rest.insert(at, source);
            Some(rest)
        },
    }
}

// The grid's order.

/// Sessions in a saved order, and those it does not name after them.
pub open spec fn arranged(rest: Seq<ConnectionProfile>, order: Seq<ProfileId>) -> Seq<
    ConnectionProfile,
>
    decreases order.len(),
{
    if order.len() == 0 {
        rest
    } else {
        match found_at(rest, order[0]) {
            Some(k) => seq![rest[k]] + arranged(rest.remove(k), order.drop_first()),
            None => arranged(rest, order.drop_first()),
        }
    }
}

/// The order of the grid: the saved arrangement, then everything else in the
/// order of the tree. What the arrangement names and no longer exists is
/// skipped.
pub open spec fn grid_sorted(profiles: Seq<ConnectionProfile>, order: Seq<ProfileId>) -> Seq<
    ConnectionProfile,
> {
    arranged(tree_sorted(profiles), order)
}

fn find_position(profiles: &Vec<ConnectionProfile>, at: &Vec<usize>, id: ProfileId) -> (r: Option<
    usize,
>)
    requires
        in_range(at@, profiles@.len() as int),
    ensures
        match r {
            Some(k) => found_at(picked(profiles@, at@), id) == Some(k as int) && k < at@.len(),
            None => found_at(picked(profiles@, at@), id) is None,
        },
{
    let mut i: usize = 0;
    while i < at.len()
        invariant
            i <= at.len(),
            in_range(at@, profiles@.len() as int),
            forall|j: int| 0 <= j < i ==> (#[trigger] picked(profiles@, at@)[j]).id != id,
        decreases at.len() - i,
    {
        if profiles[at[i]].id == id {
            proof {
                lemma_found_at(picked(profiles@, at@), id, i as int);
            }
            return Some(i);
        }
        i += 1;
    }
    proof {
        lemma_found_at(picked(profiles@, at@), id, i as int);
    }
    None
}

/// The positions of the sessions in the order of the grid.
pub fn grid_ordered_profiles(profiles: &Vec<ConnectionProfile>, grid_order: &Vec<ProfileId>) -> (r:
    Vec<usize>)
    ensures
        in_range(r@, profiles@.len() as int),
        picked(profiles@, r@) == grid_sorted(profiles@, grid_order@),
{
    let mut rest: Vec<usize> = tree_order(profiles);
    let mut out: Vec<usize> = Vec::new();
    let mut i: usize = 0;
    let ghost whole = grid_sorted(profiles@, grid_order@);
    assert(grid_order@.skip(0) =~= grid_order@);
    assert(picked(profiles@, out@) + arranged(
        picked(profiles@, rest@),
        grid_order@.skip(0),
    ) =~= whole);
    while i < grid_order.len()
        invariant
            i <= grid_order.len(),
            in_range(rest@, profiles@.len() as int),
            in_range(out@, profiles@.len() as int),
            picked(profiles@, out@) + arranged(
                picked(profiles@, rest@),
                grid_order@.skip(i as int),
            ) == whole,
        decreases grid_order.len() - i,
    {
        let ghost left = grid_order@.skip(i as int);
        let ghost before_out = picked(profiles@, out@);
        let ghost before_rest = picked(profiles@, rest@);
        let ghost old_rest = rest@;
        let ghost old_out = out@;
        assert(left[0] == grid_order@[i as int]);
        assert(left.drop_first() =~= grid_order@.skip(i + 1));
        if let Some(k) = find_position(profiles, &rest, grid_order[i]) {
            let at: usize = rest.remove(k);
            assert(at == old_rest[k as int]);
            out.push(at);
            proof {
                assert(picked(profiles@, rest@) =~= before_rest.remove(k as int));
                assert(picked(profiles@, out@) =~= before_out.push(before_rest[k as int]));
                let tail = arranged(before_rest.remove(k as int), left.drop_first());
                assert(before_out.push(before_rest[k as int]) + tail =~= before_out + (seq![
                    before_rest[k as int],
                ] + tail));
                assert forall|j: int| 0 <= j < rest@.len() implies (#[trigger] rest@[j])
                    < profiles@.len() by {
                    if j < k {
                        assert(rest@[j] == old_rest[j]);
                    } else {
                        assert(rest@[j] == old_rest[j + 1]);
                    }
                }
                assert forall|j: int| 0 <= j < out@.len() implies (#[trigger] out@[j])
                    < profiles@.len() by {
                    if j < old_out.len() {
                        assert(out@[j] == old_out[j]);
                    }
                }
            }
        }
        i += 1;
    }
    let ghost head = out@;
    let ghost tail = rest@;
    out.append(&mut rest);
    proof {
        assert(out@ =~= head + tail);
        assert(picked(profiles@, out@) =~= picked(profiles@, head) + picked(profiles@, tail));
        assert forall|j: int| 0 <= j < out@.len() implies (#[trigger] out@[j])
            < profiles@.len() by {
            if j < head.len() {
                assert(out@[j] == head[j]);
            } else {
                assert(out@[j] == tail[j - head.len()]);
            }
        }
    }
    out
}

/// The identities of the sessions in the order of the grid.
pub fn grid_ids(profiles: &Vec<ConnectionProfile>, grid_order: &Vec<ProfileId>) -> (r: Vec<
    ProfileId,
>)
    ensures
        r@ == ids(grid_sorted(profiles@, grid_order@)),
{
    let at: Vec<usize> = grid_ordered_profiles(profiles, grid_order);
    let mut out: Vec<ProfileId> = Vec::new();
    let mut i: usize = 0;
    while i < at.len()
        invariant
            i <= at.len(),
            in_range(at@, profiles@.len() as int),
            out.len() == i,
            forall|j: int| 0 <= j < i ==> out@[j] == (#[trigger] picked(profiles@, at@)[j]).id,
        decreases at.len() - i,
    {
        out.push(profiles[at[i]].id);
        i += 1;
    }
    assert(out@ =~= ids(picked(profiles@, at@)));
    out
}

/// Puts a session next to another in the grid's own order, and says whether
/// that other is there. Nothing else moves: the tree never hears of it.
pub fn reorder_grid(
    profiles: &Vec<ConnectionProfile>,
    grid_order: &mut Vec<ProfileId>,
    source: ProfileId,
    target: ProfileId,
    position: ProfileDropPosition,
) -> (r: bool)
    ensures
        match put_beside(
            ids(grid_sorted(profiles@, old(grid_order)@)),
            source,
            target,
            position,
        ) {
            Some(order) => r && final(grid_order)@ == order,
            None => !r && final(grid_order)@ == old(grid_order)@,
        },
{
    let order: Vec<ProfileId> = grid_ids(profiles, grid_order);
    match move_beside(&order, source, target, position) {
        Some(moved) => {
            *grid_order = moved;
            true
        },
        None => false,
    }
}

// What a drag shows.

impl ProfileDrag {
    /// Takes note that the pointer is beside a session, in the grid or in the tree, and
    /// says whether that is where the drag would land now. The two views keep apart: a
    /// drag that began in one does not see the other.
    pub fn over_profile(&mut self, id: ProfileId, position: ProfileDropPosition, in_grid: bool) -> (r:
        bool)
        ensures
            r == (old(self).dragged is Some && old(self).dragged != Some(id) && old(self).from_grid
                == in_grid),
            final(self).dragged == old(self).dragged,
            final(self).from_grid == old(self).from_grid,
            final(self).active == (old(self).active || r),
            final(self).drop == if r {
                Some(ProfileDrop::Beside { profile_id: id, position })
            } else {
                old(self).drop
            },
    {
        let lands: bool = match self.dragged {
            Some(dragged) => dragged != id && self.from_grid == in_grid,
            None => false,
        };
        if lands {
            self.active = true;
            self.drop = Some(ProfileDrop::Beside { profile_id: id, position });
        }
        lands
    }

    /// Whether a card of the grid is on the move.
    pub open spec fn live(&self) -> bool {
        self.from_grid && self.active
    }
}

/// How a band of hosts is laid out while a card is dragged: as it will be once
/// the card is let go.
pub open spec fn preview(hosts: Seq<ProfileId>, drag: &ProfileDrag) -> Seq<ProfileId> {
    if !drag.live() || drag.dragged is None {
        hosts
    } else {
        let dragged = drag.dragged->0;
        match drag.drop {
            Some(ProfileDrop::Beside { profile_id, position }) => if !hosts.contains(dragged) {
                hosts
            } else {
                match put_beside(hosts, dragged, profile_id, position) {
                    Some(moved) => moved,
                    None => ids_without(hosts, dragged),
                }
            },
            _ => hosts,
        }
    }
}

/// A copy of identities.
pub(crate) fn copy_ids(list: &Vec<ProfileId>) -> (r: Vec<ProfileId>)
    ensures
        r@ == list@,
{
    let mut out: Vec<ProfileId> = Vec::new();
    let mut i: usize = 0;
    while i < list.len()
        invariant
            i <= list.len(),
            out@ == list@.take(i as int),
        decreases list.len() - i,
    {
        out.push(list[i]);
        i += 1;
        assert(list@.take(i as int) =~= list@.take(i - 1).push(list@[i - 1]));
    }
    assert(list@.take(i as int) =~= list@);
    out
}

/// How a band of hosts is laid out: the travelling card is where it would land
/// and the others make room. A band that the target is not in merely lacks the
/// travelling card.
pub fn band_slots(hosts: &Vec<ProfileId>, drag: &ProfileDrag) -> (r: Vec<ProfileId>)
    ensures
        r@ == preview(hosts@, drag),
{
    if !drag.from_grid || !drag.active {
        return copy_ids(hosts);
    }
    let dragged: ProfileId = match drag.dragged {
        Some(id) => id,
        None => {
            return copy_ids(hosts);
        },
    };
    match &drag.drop {
        Some(ProfileDrop::Beside { profile_id, position }) => {
            if index_of_id(hosts, dragged).is_none() {
                return copy_ids(hosts);
            }
            match move_beside(hosts, dragged, *profile_id, *position) {
                Some(moved) => moved,
                None => drop_id(hosts, dragged),
            }
        },
        _ => copy_ids(hosts),
    }
}

/// The order that cards ease towards: while a card is dragged over another, the
/// one that letting go would give.
pub open spec fn aimed_order(order: Seq<ProfileId>, drag: &ProfileDrag) -> Seq<ProfileId> {
    if !drag.live() || drag.dragged is None {
        order
    } else {
        let dragged = drag.dragged->0;
        match drag.drop {
            Some(ProfileDrop::Beside { profile_id, position }) => if dragged == profile_id {
                order
            } else {
                match put_beside(order, dragged, profile_id, position) {
                    Some(moved) => moved,
                    None => ids_without(order, dragged),
                }
            },
            _ => order,
        }
    }
}

/// The group of the session with this identity.
pub open spec fn group_of(profiles: Seq<ConnectionProfile>, id: ProfileId) -> Option<Seq<char>> {
    match found_at(profiles, id) {
        Some(k) => Some(profiles[k].group@),
        None => None,
    }
}

/// How many of the first `upto` sessions are in a group.
pub open spec fn members_before(
    profiles: Seq<ConnectionProfile>,
    order: Seq<ProfileId>,
    group: Seq<char>,
    upto: int,
) -> nat
    decreases upto,
{
    if upto <= 0 {
        0
    } else {
        members_before(profiles, order, group, upto - 1) + if group_of(profiles, order[upto - 1])
            == Some(group) {
            1nat
        } else {
            0nat
        }
    }
}

/// The slot of each of the first `upto` sessions that exist: how many of its
/// group come before it, since each group is laid out on its own.
pub open spec fn slots(
    profiles: Seq<ConnectionProfile>,
    order: Seq<ProfileId>,
    upto: int,
) -> Seq<(ProfileId, usize)>
    decreases upto,
{
    if upto <= 0 {
        Seq::empty()
    } else {
        let before = slots(profiles, order, upto - 1);
        match group_of(profiles, order[upto - 1]) {
            Some(group) => before.push(
                (
                    order[upto - 1],
                    members_before(profiles, order, group, upto - 1) as usize,
                ),
            ),
            None => before,
        }
    }
}

/// Which slot each card eases towards. Each group is laid out on its own, so a
/// slot counts the cards of the same group before it.
pub fn retarget_card_slots(
    profiles: &Vec<ConnectionProfile>,
    grid_order: &Vec<ProfileId>,
    drag: &ProfileDrag,
) -> (r: Vec<(ProfileId, usize)>)
    ensures
        ({
            let order = aimed_order(ids(grid_sorted(profiles@, grid_order@)), drag);
            r@ == slots(profiles@, order, order.len() as int)
        }),
{
    let mut order: Vec<ProfileId> = grid_ids(profiles, grid_order);
    let ghost resting = order@;
    if drag.from_grid && drag.active {
        if let Some(dragged) = drag.dragged {
            if let Some(ProfileDrop::Beside { profile_id, position }) = &drag.drop {
                if dragged != *profile_id {
                    order = match move_beside(&order, dragged, *profile_id, *position) {
                        Some(moved) => moved,
                        None => drop_id(&order, dragged),
                    };
                }
            }
        }
    }
    assert(order@ == aimed_order(resting, drag));
    let mut out: Vec<(ProfileId, usize)> = Vec::new();
    let mut i: usize = 0;
    while i < order.len()
        invariant
            i <= order.len(),
            out@ == slots(profiles@, order@, i as int),
        decreases order.len() - i,
    {
        if let Some(at) = find_profile(profiles, order[i]) {
            let ghost group = profiles@[at as int].group@;
            let mut count: usize = 0;
            let mut k: usize = 0;
            while k < i
                invariant
                    k <= i < order.len(),
                    at < profiles.len(),
                    group == profiles@[at as int].group@,
                    count == members_before(profiles@, order@, group, k as int),
                    count <= k,
                decreases i - k,
            {
                if let Some(other) = find_profile(profiles, order[k]) {
                    if same(profiles[other].group.as_str(), profiles[at].group.as_str()) {
                        count += 1;
                    }
                }
                k += 1;
            }
            out.push((order[i], count));
        }
        i += 1;
    }
    out
}

// Recent hosts.

/// How many hosts are remembered as recent.
pub const RECENT_HOSTS_MAX: usize = 6;

/// The recent hosts once one was opened: it comes first, and the list stays
/// short.
pub open spec fn recent_after(recent: Seq<ProfileId>, id: ProfileId) -> Seq<ProfileId> {
    let all = seq![id] + ids_without(recent, id);
    all.take(
        if all.len() < RECENT_HOSTS_MAX {
            all.len() as int
        } else {
            RECENT_HOSTS_MAX as int
        },
    )
}

/// Moves a host to the front of the recent ones.
pub fn remember_recent_host(recent: &mut Vec<ProfileId>, id: ProfileId)
    ensures
        final(recent)@ == recent_after(old(recent)@, id),
{
    let rest: Vec<ProfileId> = drop_id(recent, id);
    let mut out: Vec<ProfileId> = Vec::new();
    out.push(id);
    let ghost all = seq![id] + rest@;
    assert(out@ =~= all.take(1));
    let mut i: usize = 0;
    while i < rest.len() && out.len() < RECENT_HOSTS_MAX
        invariant
            i <= rest.len(),
            out.len() == i + 1,
            out.len() <= RECENT_HOSTS_MAX,
            all == seq![id] + rest@,
            out@ == all.take(i + 1),
        decreases rest.len() - i,
    {
        out.push(rest[i]);
        i += 1;
        assert(all.take(i + 1) =~= all.take(i as int).push(all[i as int]));
    }
    *recent = out;
}

// Laws.

/// Taking an identity out leaves exactly the others, in their order and each as
/// often.
pub proof fn lemma_ids_without(list: Seq<ProfileId>, id: ProfileId)
    ensures
        !ids_without(list, id).contains(id),
        ids_without(list, id).len() <= list.len(),
        forall|other: ProfileId|
            other != id ==> (#[trigger] ids_without(list, id).contains(other) <==> list.contains(
                other,
            )),
        distinct_ids(list) ==> distinct_ids(ids_without(list, id)),
    decreases list.len(),
{
    if list.len() > 0 {
        let front = list.drop_last();
        let kept = ids_without(list, id);
        let before = ids_without(front, id);
        lemma_ids_without(front, id);
        assert forall|other: ProfileId| other != id implies (#[trigger] kept.contains(other)
            <==> list.contains(other)) by {
            if kept.contains(other) {
                let k = choose|k: int| 0 <= k < kept.len() && kept[k] == other;
                if k < before.len() {
                    assert(before[k] == other);
                    assert(before.contains(other));
                    let m = choose|m: int| 0 <= m < front.len() && front[m] == other;
                    assert(list[m] == other);
                } else {
                    assert(list[list.len() - 1] == other);
                }
            }
            if list.contains(other) {
                let m = choose|m: int| 0 <= m < list.len() && list[m] == other;
                if m < front.len() {
                    assert(front[m] == other);
                    assert(before.contains(other));
                    let k = choose|k: int| 0 <= k < before.len() && before[k] == other;
                    assert(kept[k] == other);
                } else {
                    assert(kept[kept.len() - 1] == other);
                }
            }
        }
        if distinct_ids(list) {
            assert(distinct_ids(front));
            if list.last() != id {
                assert(!before.contains(list.last())) by {
                    if before.contains(list.last()) {
                        assert(front.contains(list.last()));
                        let m = choose|m: int| 0 <= m < front.len() && front[m] == list.last();
                        assert(list[m] == list[list.len() - 1]);
                    }
                }
                assert forall|i: int, j: int| 0 <= i < j < kept.len() implies kept[i]
                    != kept[j] by {
                    if j == before.len() {
                        assert(before.contains(before[i]));
                    }
                }
            }
        }
    }
}

/// The recent hosts are never too many and never repeat, and the one opened
/// last comes first.
pub proof fn law_recent_hosts_are_few_and_distinct(recent: Seq<ProfileId>, id: ProfileId)
    requires
        distinct_ids(recent),
    ensures
        recent_after(recent, id).len() <= RECENT_HOSTS_MAX,
        recent_after(recent, id)[0] == id,
        distinct_ids(recent_after(recent, id)),
{
    lemma_ids_without(recent, id);
    let rest = ids_without(recent, id);
    let all = seq![id] + rest;
    assert forall|i: int, j: int| 0 <= i < j < all.len() implies all[i] != all[j] by {
        if i == 0 {
            assert(rest.contains(rest[j - 1]));
        } else {
            assert(rest[i - 1] != rest[j - 1]);
        }
    }
}

/// Opening the same host again changes nothing.
pub proof fn law_reopening_changes_nothing(recent: Seq<ProfileId>, id: ProfileId)
    requires
        distinct_ids(recent),
        recent.len() <= RECENT_HOSTS_MAX,
        recent.len() > 0,
        recent[0] == id,
    ensures
        recent_after(recent, id) == recent,
{
    lemma_ids_without_first(recent);
    assert(seq![id] + recent.drop_first() =~= recent);
    assert(recent.take(recent.len() as int) =~= recent);
}

proof fn lemma_ids_without_first(list: Seq<ProfileId>)
    requires
        distinct_ids(list),
        list.len() > 0,
    ensures
        ids_without(list, list[0]) == list.drop_first(),
    decreases list.len(),
{
    if list.len() == 1 {
        reveal_with_fuel(ids_without, 2);
        assert(list.drop_last() =~= Seq::empty());
        assert(ids_without(list, list[0]) =~= list.drop_first());
    } else {
        let front = list.drop_last();
        assert(front[0] == list[0]);
        lemma_ids_without_first(front);
        assert(front.drop_first().push(list.last()) =~= list.drop_first());
    }
}

/// What one identity of a list becomes when `source` is put next to `target`.
pub open spec fn piece(
    id: ProfileId,
    source: ProfileId,
    target: ProfileId,
    position: ProfileDropPosition,
) -> Seq<ProfileId> {
    if id == source {
        Seq::empty()
    } else if id == target {
        if position == ProfileDropPosition::After {
            seq![target, source]
        } else {
            seq![source, target]
        }
    } else {
        seq![id]
    }
}

/// A list with each identity replaced by what it becomes.
pub open spec fn spliced(
    list: Seq<ProfileId>,
    source: ProfileId,
    target: ProfileId,
    position: ProfileDropPosition,
) -> Seq<ProfileId>
    decreases list.len(),
{
    if list.len() == 0 {
        Seq::empty()
    } else {
        spliced(list.drop_last(), source, target, position) + piece(
            list.last(),
            source,
            target,
            position,
        )
    }
}

proof fn lemma_spliced_absent(
    list: Seq<ProfileId>,
    source: ProfileId,
    target: ProfileId,
    position: ProfileDropPosition,
)
    requires
        !list.contains(target),
    ensures
        spliced(list, source, target, position) == ids_without(list, source),
    decreases list.len(),
{
    if list.len() > 0 {
        let front = list.drop_last();
        assert(list[list.len() - 1] != target);
        assert forall|k: int| 0 <= k < front.len() implies front[k] != target by {
            assert(list[k] != target);
        }
        lemma_spliced_absent(front, source, target, position);
        assert(spliced(list, source, target, position) =~= ids_without(list, source));
    }
}

proof fn lemma_spliced(
    list: Seq<ProfileId>,
    source: ProfileId,
    target: ProfileId,
    position: ProfileDropPosition,
)
    requires
        distinct_ids(list),
        source != target,
        list.contains(target),
    ensures
        put_beside(list, source, target, position) == Some(
            spliced(list, source, target, position),
        ),
    decreases list.len(),
{
    let front = list.drop_last();
    let last = list.last();
    let rest = ids_without(list, source);
    let before = ids_without(front, source);
    assert(distinct_ids(front));
    lemma_ids_without(front, source);
    lemma_ids_without(list, source);
    lemma_id_found(rest, target);
    lemma_id_found(before, target);
    assert(rest.contains(target));
    let whole = spliced(list, source, target, position);
    if last == target {
        assert(!front.contains(target)) by {
            if front.contains(target) {
                let m = choose|m: int| 0 <= m < front.len() && front[m] == target;
                assert(list[m] == list[list.len() - 1]);
            }
        }
        lemma_spliced_absent(front, source, target, position);
        assert(!before.contains(target));
        assert(rest == before.push(target));
        assert forall|i: int| 0 <= i < before.len() implies rest[i] != target by {
            assert(before.contains(before[i]));
        }
        lemma_id_at(rest, target, before.len() as int);
        let k = before.len() as int;
        if position == ProfileDropPosition::After {
            assert(rest.insert(k + 1, source) =~= whole);
        } else {
            assert(rest.insert(k, source) =~= whole);
        }
    } else {
        assert(front.contains(target)) by {
            let m = choose|m: int| 0 <= m < list.len() && list[m] == target;
            assert(front[m] == target);
        }
        lemma_spliced(front, source, target, position);
        assert(before.contains(target));
        let k = id_at(before, target)->0;
        if last == source {
            assert(rest == before);
            assert(whole =~= spliced(front, source, target, position));
        } else {
            assert(rest == before.push(last));
            lemma_first_stays(before, last, target);
            let at = if position == ProfileDropPosition::After {
                k + 1
            } else {
                k
            };
            assert(rest.insert(at, source) =~= before.insert(at, source).push(last));
            assert(whole =~= spliced(front, source, target, position).push(last));
        }
    }
}

proof fn lemma_first_stays(list: Seq<ProfileId>, last: ProfileId, id: ProfileId)
    requires
        list.contains(id),
    ensures
        id_at(list.push(last), id) == id_at(list, id),
    decreases list.len(),
{
    lemma_id_found(list, id);
    if list.len() > 0 && list[0] != id {
        assert(list.push(last).drop_first() =~= list.drop_first().push(last));
        let i = choose|i: int| 0 <= i < list.len() && list[i] == id;
        assert(list.drop_first()[i - 1] == id);
        lemma_first_stays(list.drop_first(), last, id);
    }
}

/// The identities of a list that a band shows.
pub open spec fn band(list: Seq<ProfileId>, shows: spec_fn(ProfileId) -> bool) -> Seq<ProfileId>
    decreases list.len(),
{
    if list.len() == 0 {
        Seq::empty()
    } else if shows(list.last()) {
        band(list.drop_last(), shows).push(list.last())
    } else {
        band(list.drop_last(), shows)
    }
}

proof fn lemma_band(list: Seq<ProfileId>, shows: spec_fn(ProfileId) -> bool)
    ensures
        forall|id: ProfileId| #[trigger]
            band(list, shows).contains(id) <==> list.contains(id) && shows(id),
        distinct_ids(list) ==> distinct_ids(band(list, shows)),
    decreases list.len(),
{
    if list.len() > 0 {
        let front = list.drop_last();
        let before = band(front, shows);
        let all = band(list, shows);
        lemma_band(front, shows);
        assert forall|id: ProfileId| #[trigger] all.contains(id) <==> list.contains(id) && shows(
            id,
        ) by {
            if all.contains(id) {
                let k = choose|k: int| 0 <= k < all.len() && all[k] == id;
                if k < before.len() {
                    assert(before[k] == id);
                    assert(before.contains(id));
                    let m = choose|m: int| 0 <= m < front.len() && front[m] == id;
                    assert(list[m] == id);
                } else {
                    assert(list[list.len() - 1] == id);
                }
            }
            if list.contains(id) && shows(id) {
                let m = choose|m: int| 0 <= m < list.len() && list[m] == id;
                if m < front.len() {
                    assert(front[m] == id);
                    assert(before.contains(id));
                    let k = choose|k: int| 0 <= k < before.len() && before[k] == id;
                    assert(all[k] == id);
                } else {
                    assert(all[all.len() - 1] == id);
                }
            }
        }
        if distinct_ids(list) && shows(list.last()) {
            assert(distinct_ids(front));
            assert(!before.contains(list.last())) by {
                if before.contains(list.last()) {
                    let m = choose|m: int| 0 <= m < front.len() && front[m] == list.last();
                    assert(list[m] == list[list.len() - 1]);
                }
            }
            assert forall|i: int, j: int| 0 <= i < j < all.len() implies all[i] != all[j] by {
                if j == before.len() {
                    assert(before.contains(before[i]));
                }
            }
        } else if distinct_ids(list) {
            assert(distinct_ids(front));
        }
    }
}

proof fn lemma_band_concat(
    a: Seq<ProfileId>,
    b: Seq<ProfileId>,
    shows: spec_fn(ProfileId) -> bool,
)
    ensures
        band(a + b, shows) == band(a, shows) + band(b, shows),
    decreases b.len(),
{
    if b.len() == 0 {
        assert(a + b =~= a);
        assert(band(a, shows) + band(b, shows) =~= band(a, shows));
    } else {
        assert((a + b).drop_last() =~= a + b.drop_last());
        lemma_band_concat(a, b.drop_last(), shows);
        assert(band(a + b, shows) =~= band(a, shows) + band(b, shows));
    }
}

proof fn lemma_band_spliced(
    list: Seq<ProfileId>,
    shows: spec_fn(ProfileId) -> bool,
    source: ProfileId,
    target: ProfileId,
    position: ProfileDropPosition,
)
    requires
        shows(source),
        shows(target),
    ensures
        band(spliced(list, source, target, position), shows) == spliced(
            band(list, shows),
            source,
            target,
            position,
        ),
    decreases list.len(),
{
    if list.len() > 0 {
        let front = list.drop_last();
        let last = list.last();
        let p = piece(last, source, target, position);
        lemma_band_spliced(front, shows, source, target, position);
        lemma_band_concat(spliced(front, source, target, position), p, shows);
        let base = band(front, shows);
        reveal_with_fuel(band, 3);
        if p.len() == 2 {
            assert(p.drop_last() =~= seq![p[0]]);
            assert(p.drop_last().drop_last() =~= Seq::empty());
            assert(band(p, shows) =~= p);
        } else if p.len() == 1 {
            assert(p.drop_last() =~= Seq::empty());
        }
        if shows(last) {
            assert(band(list, shows) == base.push(last));
            assert(base.push(last).drop_last() =~= base);
            assert(band(p, shows) =~= p);
        } else {
            assert(band(list, shows) == base);
            assert(band(p, shows) =~= Seq::empty());
            assert(spliced(base, source, target, position) + Seq::empty() =~= spliced(
                base,
                source,
                target,
                position,
            ));
        }
    }
}

/// What a drag shows is what letting go gives. While a card is dragged over
/// another of the same band, the band is drawn as it will be drawn from the
/// grid's order after the drop.
pub proof fn law_the_preview_is_what_the_drop_gives(
    order: Seq<ProfileId>,
    shows: spec_fn(ProfileId) -> bool,
    drag: &ProfileDrag,
    target: ProfileId,
    position: ProfileDropPosition,
)
    requires
        distinct_ids(order),
        drag.live(),
        drag.dragged is Some,
        drag.drop == Some(ProfileDrop::Beside { profile_id: target, position }),
        drag.dragged->0 != target,
        order.contains(drag.dragged->0),
        order.contains(target),
        shows(drag.dragged->0),
        shows(target),
    ensures
        put_beside(order, drag.dragged->0, target, position) is Some,
        preview(band(order, shows), drag) == band(
            put_beside(order, drag.dragged->0, target, position)->0,
            shows,
        ),
{
    let source = drag.dragged->0;
    lemma_band(order, shows);
    lemma_spliced(order, source, target, position);
    assert(band(order, shows).contains(target));
    assert(band(order, shows).contains(source));
    lemma_spliced(band(order, shows), source, target, position);
    lemma_band_spliced(order, shows, source, target, position);
}

/// A drag in the tree leaves every card of the grid where it is.
pub proof fn law_a_tree_drag_does_not_disturb_the_grid(
    hosts: Seq<ProfileId>,
    order: Seq<ProfileId>,
    drag: &ProfileDrag,
)
    requires
        !drag.from_grid,
    ensures
        preview(hosts, drag) == hosts,
        aimed_order(order, drag) == order,
{
}

/// The grid shows each session exactly once, whatever arrangement was saved.
pub proof fn law_the_grid_shows_every_session(rest: Seq<ConnectionProfile>, order: Seq<ProfileId>)
    ensures
        arranged(rest, order).to_multiset() == rest.to_multiset(),
        arranged(rest, order).len() == rest.len(),
    decreases order.len(),
{
    if order.len() > 0 {
        match found_at(rest, order[0]) {
            Some(k) => {
                lemma_found(rest, order[0]);
                let smaller = rest.remove(k);
                law_the_grid_shows_every_session(smaller, order.drop_first());
                let tail = arranged(smaller, order.drop_first());
                rest.to_multiset_ensures();
                vstd::seq_lib::lemma_multiset_commutative(seq![rest[k]], tail);
                assert(smaller =~= rest.take(k) + rest.skip(k + 1));
                assert(rest =~= rest.take(k) + (seq![rest[k]] + rest.skip(k + 1)));
                vstd::seq_lib::lemma_multiset_commutative(rest.take(k), rest.skip(k + 1));
                vstd::seq_lib::lemma_multiset_commutative(seq![rest[k]], rest.skip(k + 1));
                vstd::seq_lib::lemma_multiset_commutative(
                    rest.take(k),
                    seq![rest[k]] + rest.skip(k + 1),
                );
                assert(arranged(rest, order).to_multiset() =~= rest.to_multiset());
            },
            None => {
                law_the_grid_shows_every_session(rest, order.drop_first());
            },
        }
    }
}

/// Taking an identity out keeps every other, in its order and as often.
pub proof fn law_taking_out_an_identity_keeps_the_others(list: Seq<ProfileId>, id: ProfileId)
    ensures
        ids_without(list, id) == list.filter(|other: ProfileId| other != id),
    decreases list.len(),
{
    reveal(Seq::filter);
    if list.len() > 0 {
        law_taking_out_an_identity_keeps_the_others(list.drop_last(), id);
    }
}

proof fn lemma_filter_one<A>(x: A, pred: spec_fn(A) -> bool)
    ensures
        seq![x].filter(pred) == if pred(x) {
            seq![x]
        } else {
            Seq::empty()
        },
{
    let one = seq![x];
    let none = Seq::<A>::empty();
    assert(one.drop_last() =~= none);
    reveal(Seq::filter);
    assert(none.filter(pred) =~= none);
    assert(one.filter(pred) =~= if pred(x) {
        seq![x]
    } else {
        none
    });
}

proof fn lemma_inserted_goes_again(list: Seq<ProfileId>, k: int, id: ProfileId)
    requires
        0 <= k <= list.len(),
    ensures
        list.insert(k, id).filter(|other: ProfileId| other != id) == list.filter(
            |other: ProfileId| other != id,
        ),
{
    let kept = |other: ProfileId| other != id;
    let (front, back) = (list.take(k), list.skip(k));
    assert(list.insert(k, id) =~= front + (seq![id] + back));
    assert(list =~= front + back);
    Seq::filter_distributes_over_add(front, seq![id] + back, kept);
    Seq::filter_distributes_over_add(seq![id], back, kept);
    Seq::filter_distributes_over_add(front, back, kept);
    lemma_filter_one(id, kept);
    assert(list.insert(k, id).filter(kept) =~= list.filter(kept));
}

proof fn lemma_put_back(list: Seq<ProfileId>, k: int, source: ProfileId)
    requires
        0 <= k <= ids_without(list, source).len(),
    ensures
        ids_without(list, source).insert(k, source).filter(|id: ProfileId| id != source)
            == list.filter(|id: ProfileId| id != source),
{
    let rest = ids_without(list, source);
    lemma_ids_without(list, source);
    law_taking_out_an_identity_keeps_the_others(list, source);
    lemma_inserted_goes_again(rest, k, source);
    law_taking_out_an_identity_keeps_the_others(rest, source);
    lemma_absent_stays(rest, source);
}

/// Whether one session stands right before another somewhere in a list.
pub open spec fn neighbours(list: Seq<ProfileId>, first: ProfileId, second: ProfileId) -> bool {
    exists|k: int| 0 <= k < list.len() - 1 && #[trigger] list[k] == first && list[k + 1] == second
}

proof fn lemma_put_next(rest: Seq<ProfileId>, at: int, source: ProfileId)
    requires
        0 <= at < rest.len(),
    ensures
        neighbours(rest.insert(at, source), source, rest[at]),
        neighbours(rest.insert(at + 1, source), rest[at], source),
{
    let (before, after) = (rest.insert(at, source), rest.insert(at + 1, source));
    assert(before[at] == source && before[at + 1] == rest[at]);
    assert(after[at] == rest[at] && after[at + 1] == source);
}

/// A dragged session lands right before or right behind the one it was dropped on, and all
/// the others keep their order. It lands nowhere where that one is not there.
pub proof fn law_a_drop_lands_beside_its_target(
    list: Seq<ProfileId>,
    source: ProfileId,
    target: ProfileId,
    position: ProfileDropPosition,
)
    requires
        source != target,
    ensures
        put_beside(list, source, target, position) is Some <==> list.contains(target),
        put_beside(list, source, target, position) matches Some(moved) ==> {
            &&& moved.filter(|id: ProfileId| id != source) == list.filter(
                |id: ProfileId| id != source,
            )
            &&& position == ProfileDropPosition::After ==> neighbours(moved, target, source)
            &&& position != ProfileDropPosition::After ==> neighbours(moved, source, target)
        },
{
    let rest = ids_without(list, source);
    lemma_ids_without(list, source);
    lemma_id_found(rest, target);
    if let Some(at) = id_at(rest, target) {
        let k = if position == ProfileDropPosition::After {
            at + 1
        } else {
            at
        };
        lemma_put_back(list, k, source);
        lemma_put_next(rest, at, source);
    }
}

proof fn lemma_absent_stays(list: Seq<ProfileId>, id: ProfileId)
    requires
        !list.contains(id),
    ensures
        ids_without(list, id) == list,
    decreases list.len(),
{
    if list.len() > 0 {
        let head = list.drop_last();
        assert(list[list.len() - 1] != id);
        assert forall|k: int| 0 <= k < head.len() implies head[k] != id by {
            assert(list[k] != id);
        }
        lemma_absent_stays(head, id);
        assert(head.push(list.last()) =~= list);
    } else {
        assert(list =~= Seq::empty());
    }
}

/// The host that was opened comes first among the recent ones and the others follow in their
/// order, at most six in all.
pub proof fn law_the_newest_host_leads_the_recent_ones(recent: Seq<ProfileId>, id: ProfileId)
    ensures
        ({
            let others = recent.filter(|other: ProfileId| other != id);
            let after = recent_after(recent, id);
            &&& after.len() == if others.len() < 5 {
                others.len() + 1
            } else {
                6
            }
            &&& after[0] == id
            &&& forall|k: int| 1 <= k < after.len() ==> #[trigger] after[k] == others[k - 1]
        }),
{
    law_taking_out_an_identity_keeps_the_others(recent, id);
}

/// While a card is dragged its band is drawn without it where it would land elsewhere, and
/// as it is where the drag is none of the grid's or has no place to land.
pub proof fn law_a_band_is_drawn_as_the_drag_says(hosts: Seq<ProfileId>, drag: &ProfileDrag)
    ensures
        !(drag.from_grid && drag.active) || drag.dragged is None ==> preview(hosts, drag) == hosts,
        !(drag.drop matches Some(ProfileDrop::Beside { .. })) ==> preview(hosts, drag) == hosts,
        drag.dragged matches Some(id) ==> !hosts.contains(id) ==> preview(hosts, drag) == hosts,
        drag.from_grid && drag.active ==> (drag.dragged matches Some(id) ==> (
        drag.drop matches Some(ProfileDrop::Beside { profile_id, position }) ==> hosts.contains(id)
            && id != profile_id ==> preview(hosts, drag) == (match put_beside(
            hosts,
            id,
            profile_id,
            position,
        ) {
            Some(moved) => moved,
            None => hosts.filter(|other: ProfileId| other != id),
        }))),
{
    if let Some(id) = drag.dragged {
        law_taking_out_an_identity_keeps_the_others(hosts, id);
    }
}

proof fn lemma_first_gone(list: Seq<ConnectionProfile>, k: int, pred: spec_fn(ConnectionProfile) -> bool)
    requires
        0 <= k < list.len(),
        !pred(list[k]),
    ensures
        list.remove(k).filter(pred) == list.filter(pred),
{
    let (front, back) = (list.take(k), list.skip(k + 1));
    assert(list =~= front + (seq![list[k]] + back));
    assert(list.remove(k) =~= front + back);
    Seq::filter_distributes_over_add(front, seq![list[k]] + back, pred);
    Seq::filter_distributes_over_add(seq![list[k]], back, pred);
    Seq::filter_distributes_over_add(front, back, pred);
    lemma_filter_one(list[k], pred);
    assert(list.remove(k).filter(pred) =~= list.filter(pred));
}

/// What the arrangement does not name keeps the order of the tree.
pub proof fn law_what_is_not_arranged_keeps_its_order(
    rest: Seq<ConnectionProfile>,
    order: Seq<ProfileId>,
)
    ensures
        arranged(rest, order).filter(|p: ConnectionProfile| !order.contains(p.id)) == rest.filter(
            |p: ConnectionProfile| !order.contains(p.id),
        ),
{
    lemma_arranged_others(rest, order, |p: ConnectionProfile| !order.contains(p.id));
}

proof fn lemma_arranged_others(
    rest: Seq<ConnectionProfile>,
    order: Seq<ProfileId>,
    others: spec_fn(ConnectionProfile) -> bool,
)
    requires
        forall|p: ConnectionProfile| order.contains(p.id) ==> !#[trigger] others(p),
    ensures
        arranged(rest, order).filter(others) == rest.filter(others),
    decreases order.len(),
{
    if order.len() > 0 {
        let later = order.drop_first();
        assert forall|p: ConnectionProfile| later.contains(p.id) implies !#[trigger] others(p) by {
            let k = choose|k: int| 0 <= k < later.len() && later[k] == p.id;
            assert(order[k + 1] == p.id);
        }
        assert(order.contains(order[0]));
        match found_at(rest, order[0]) {
            Some(k) => {
                lemma_found(rest, order[0]);
                let first = rest[k];
                lemma_arranged_others(rest.remove(k), later, others);
                lemma_first_gone(rest, k, others);
                let tail = arranged(rest.remove(k), later);
                Seq::filter_distributes_over_add(seq![first], tail, others);
                lemma_filter_one(first, others);
                assert(arranged(rest, order).filter(others) =~= tail.filter(others));
            },
            None => {
                lemma_arranged_others(rest, later, others);
            },
        }
    }
}

/// What the arrangement names comes first, in the order of the arrangement, as far as it
/// still exists; each session has an identity of its own and is named once.
pub proof fn law_what_is_arranged_comes_first(
    rest: Seq<ConnectionProfile>,
    order: Seq<ProfileId>,
)
    requires
        distinct_ids(ids(rest)),
        distinct_ids(order),
    ensures
        ({
            let known = order.filter(|id: ProfileId| ids(rest).contains(id));
            &&& known.len() <= arranged(rest, order).len()
            &&& forall|k: int|
                0 <= k < known.len() ==> (#[trigger] arranged(rest, order)[k]).id == known[k]
        }),
{
    lemma_arranged_first(rest, order, |id: ProfileId| ids(rest).contains(id));
}

proof fn lemma_arranged_first(
    rest: Seq<ConnectionProfile>,
    order: Seq<ProfileId>,
    there: spec_fn(ProfileId) -> bool,
)
    requires
        distinct_ids(ids(rest)),
        distinct_ids(order),
        forall|k: int| 0 <= k < order.len() ==> there(#[trigger] order[k]) == ids(rest).contains(
            order[k],
        ),
    ensures
        ({
            let known = order.filter(there);
            &&& known.len() <= arranged(rest, order).len()
            &&& forall|k: int|
                0 <= k < known.len() ==> (#[trigger] arranged(rest, order)[k]).id == known[k]
        }),
    decreases order.len(),
{
    reveal(Seq::filter);
    if order.len() > 0 {
        let (first, later) = (order[0], order.drop_first());
        assert(order =~= seq![first] + later);
        Seq::filter_distributes_over_add(seq![first], later, there);
        lemma_filter_one(first, there);
        assert(there(order[0]) == ids(rest).contains(first));
        lemma_found(rest, first);
        match found_at(rest, first) {
            Some(k) => {
                let fewer = rest.remove(k);
                assert(ids(fewer) =~= ids(rest).remove(k));
                assert forall|i: int, j: int| 0 <= i < j < ids(fewer).len() implies ids(fewer)[i]
                    != ids(fewer)[j] by {
                    let (x, y) = (
                        if i < k {
                            i
                        } else {
                            i + 1
                        },
                        if j < k {
                            j
                        } else {
                            j + 1
                        },
                    );
                    assert(ids(rest)[x] != ids(rest)[y]);
                }
                assert forall|m: int| 0 <= m < later.len() implies there(#[trigger] later[m])
                    == ids(fewer).contains(later[m]) by {
                    assert(later[m] == order[m + 1]);
                    assert(order[0] != order[m + 1]);
                    if ids(rest).contains(later[m]) {
                        let x = choose|x: int| 0 <= x < ids(rest).len() && ids(rest)[x] == later[m];
                        assert(x != k);
                        if x < k {
                            assert(ids(fewer)[x] == later[m]);
                        } else {
                            assert(ids(fewer)[x - 1] == later[m]);
                        }
                    }
                    if ids(fewer).contains(later[m]) {
                        let x = choose|x: int| 0 <= x < ids(fewer).len() && ids(fewer)[x] == later[m];
                        if x < k {
                            assert(ids(rest)[x] == later[m]);
                        } else {
                            assert(ids(rest)[x + 1] == later[m]);
                        }
                    }
                }
                lemma_arranged_first(fewer, later, there);
                assert(order.filter(there) =~= seq![first] + later.filter(there));
                let all = arranged(rest, order);
                let tail = arranged(fewer, later);
                assert forall|m: int| 0 <= m < order.filter(there).len() implies (
                #[trigger] all[m]).id == order.filter(there)[m] by {
                    if m > 0 {
                        assert(all[m] == tail[m - 1]);
                    }
                }
            },
            None => {
                assert forall|m: int| 0 <= m < later.len() implies there(#[trigger] later[m])
                    == ids(rest).contains(later[m]) by {
                    assert(later[m] == order[m + 1]);
                }
                lemma_arranged_first(rest, later, there);
                assert(order.filter(there) =~= later.filter(there));
            },
        }
    }
}

/// The slot of a card counts the cards of its own group that come before it.
pub proof fn law_a_slot_counts_the_cards_before(
    profiles: Seq<ConnectionProfile>,
    order: Seq<ProfileId>,
    i: int,
)
    requires
        0 <= i < order.len(),
        order.len() <= usize::MAX,
    ensures
        group_of(profiles, order[i]) matches Some(group) ==> slots(
            profiles,
            order,
            order.len() as int,
        ).contains(
            (
                order[i],
                order.take(i).filter(
                    |id: ProfileId| group_of(profiles, id) == Some(group),
                ).len() as usize,
            ),
        ),
        slots(profiles, order, order.len() as int).len() == order.filter(
            |id: ProfileId| group_of(profiles, id) is Some,
        ).len(),
{
    if let Some(group) = group_of(profiles, order[i]) {
        lemma_members_filter(profiles, order, group, i);
        lemma_slot_there(profiles, order, i, order.len() as int);
    }
    assert(order.take(order.len() as int) =~= order);
    lemma_slots_len(profiles, order, order.len() as int);
}

proof fn lemma_members_filter(
    profiles: Seq<ConnectionProfile>,
    order: Seq<ProfileId>,
    group: Seq<char>,
    n: int,
)
    requires
        0 <= n <= order.len(),
    ensures
        members_before(profiles, order, group, n) == order.take(n).filter(
            |id: ProfileId| group_of(profiles, id) == Some(group),
        ).len(),
    decreases n,
{
    reveal(Seq::filter);
    if n > 0 {
        lemma_members_filter(profiles, order, group, n - 1);
        assert(order.take(n).drop_last() =~= order.take(n - 1));
        assert(order.take(n).last() == order[n - 1]);
    }
}

proof fn lemma_slot_there(
    profiles: Seq<ConnectionProfile>,
    order: Seq<ProfileId>,
    i: int,
    n: int,
)
    requires
        0 <= i < n <= order.len(),
        group_of(profiles, order[i]) is Some,
    ensures
        slots(profiles, order, n).contains(
            (
                order[i],
                members_before(profiles, order, group_of(profiles, order[i])->0, i) as usize,
            ),
        ),
    decreases n,
{
    let wanted = (
        order[i],
        members_before(profiles, order, group_of(profiles, order[i])->0, i) as usize,
    );
    let all = slots(profiles, order, n);
    if i == n - 1 {
        assert(all[all.len() - 1] == wanted);
    } else {
        lemma_slot_there(profiles, order, i, n - 1);
        let before = slots(profiles, order, n - 1);
        let k = choose|k: int| 0 <= k < before.len() && before[k] == wanted;
        assert(all[k] == wanted);
    }
}

proof fn lemma_slots_len(profiles: Seq<ConnectionProfile>, order: Seq<ProfileId>, n: int)
    requires
        0 <= n <= order.len(),
    ensures
        slots(profiles, order, n).len() == order.take(n).filter(
            |id: ProfileId| group_of(profiles, id) is Some,
        ).len(),
    decreases n,
{
    reveal(Seq::filter);
    if n > 0 {
        lemma_slots_len(profiles, order, n - 1);
        assert(order.take(n).drop_last() =~= order.take(n - 1));
        assert(order.take(n).last() == order[n - 1]);
    }
}

} // verus!

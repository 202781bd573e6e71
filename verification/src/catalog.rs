//! The saved sessions and their folders: moving, renaming, deleting and
//! importing them.

use vstd::prelude::*;
use vstd::string::*;

use crate::grid::{id_at, index_of_id, lemma_id_found, move_beside, put_beside, ProfileDropPosition};
use crate::groups::{add_group, added, maybe_text, name_at, remove_group, without};
use crate::profile::{
    distinct_ids, find_profile, found_at, ids, in_range, lemma_found, picked, tree_before,
    tree_order, tree_sorted, AuthMethod, ConnectionProfile, ProfileId, Protocol,
};
use crate::text::{holds, owned, same, texts, trim, trimmed};
use crate::tree::DragCommit;

verus! {

/// The saved sessions and the order of their folders.
pub struct Catalog {
    pub profiles: Vec<ConnectionProfile>,
    pub groups: Vec<String>,
}

/// A session with another group.
pub open spec fn regrouped(new: &ConnectionProfile, old: &ConnectionProfile, group: Seq<char>) -> bool {
    new.group@ == group && *new == (ConnectionProfile { group: new.group, ..*old })
}

/// A session with another name.
pub open spec fn renamed(new: &ConnectionProfile, old: &ConnectionProfile, name: Seq<char>) -> bool {
    new.name@ == name && *new == (ConnectionProfile { name: new.name, ..*old })
}

/// The sessions of a group, in the order of the tree, but for one.
pub open spec fn group_order(
    sorted: Seq<ConnectionProfile>,
    group: Seq<char>,
    exclude: ProfileId,
) -> Seq<ProfileId>
    decreases sorted.len(),
{
    if sorted.len() == 0 {
        Seq::empty()
    } else {
        let before = group_order(sorted.drop_last(), group, exclude);
        if sorted.last().group@ == group && sorted.last().id != exclude {
            before.push(sorted.last().id)
        } else {
            before
        }
    }
}

impl Catalog {
    /// Whether every session has an identity of its own.
    pub open spec fn wf(&self) -> bool {
        distinct_ids(ids(self.profiles@))
    }

    /// Whether every session has an identity of its own.
    pub fn ids_are_distinct(&self) -> (r: bool)
        ensures
            r == self.wf(),
    {
        let mut i: usize = 0;
        while i < self.profiles.len()
            invariant
                i <= self.profiles.len(),
                forall|a: int, b: int|
                    0 <= a < i && a < b < self.profiles@.len() ==> ids(self.profiles@)[a] != ids(
                        self.profiles@,
                    )[b],
            decreases self.profiles.len() - i,
        {
            let mut j: usize = i + 1;
            while j < self.profiles.len()
                invariant
                    i < j <= self.profiles.len(),
                    forall|b: int|
                        i < b < j ==> ids(self.profiles@)[i as int] != ids(self.profiles@)[b],
                decreases self.profiles.len() - j,
            {
                if self.profiles[i].id == self.profiles[j].id {
                    assert(ids(self.profiles@)[i as int] == ids(self.profiles@)[j as int]);
                    return false;
                }
                j += 1;
            }
            i += 1;
        }
        true
    }

    /// Moves a session into a group, or out of all groups where the name is
    /// blank. Says whether there is such a session.
    pub fn move_profile_to_group(&mut self, id: ProfileId, group: &str) -> (r: bool)
        ensures
            final(self).groups == old(self).groups,
            final(self).profiles@.len() == old(self).profiles@.len(),
            ids(final(self).profiles@) == ids(old(self).profiles@),
            r == ids(old(self).profiles@).contains(id),
            forall|i: int|
                0 <= i < old(self).profiles@.len() ==> if found_at(old(self).profiles@, id) == Some(
                    i,
                ) {
                    regrouped(
                        &#[trigger] final(self).profiles@[i],
                        &old(self).profiles@[i],
                        trimmed(group@),
                    )
                } else {
                    final(self).profiles@[i] == old(self).profiles@[i]
                },
    {
        match find_profile(&self.profiles, id) {
            Some(k) => {
                self.profiles[k].group = trim(group);
                assert(ids(self.profiles@) =~= ids(old(self).profiles@));
                true
            },
            None => false,
        }
    }

    /// Gives a session its position. Says whether there is such a session.
    pub fn set_profile_sort_order(&mut self, id: ProfileId, order: i32) -> (r: bool)
        ensures
            final(self).groups == old(self).groups,
            final(self).profiles@.len() == old(self).profiles@.len(),
            ids(final(self).profiles@) == ids(old(self).profiles@),
            r == ids(old(self).profiles@).contains(id),
            forall|i: int|
                0 <= i < old(self).profiles@.len() ==> (#[trigger] final(self).profiles@[i]) == if found_at(
                    old(self).profiles@,
                    id,
                ) == Some(i) {
                    ConnectionProfile { sort_order: order, ..old(self).profiles@[i] }
                } else {
                    old(self).profiles@[i]
                },
    {
        match find_profile(&self.profiles, id) {
            Some(k) => {
                self.profiles[k].sort_order = order;
                assert(ids(self.profiles@) =~= ids(old(self).profiles@));
                true
            },
            None => false,
        }
    }

    /// Renames a session. Says whether there is such a session.
    pub fn rename_profile(&mut self, id: ProfileId, name: &str) -> (r: bool)
        ensures
            final(self).groups == old(self).groups,
            final(self).profiles@.len() == old(self).profiles@.len(),
            ids(final(self).profiles@) == ids(old(self).profiles@),
            r == ids(old(self).profiles@).contains(id),
            forall|i: int|
                0 <= i < old(self).profiles@.len() ==> if found_at(old(self).profiles@, id) == Some(
                    i,
                ) {
                    renamed(
                        &#[trigger] final(self).profiles@[i],
                        &old(self).profiles@[i],
                        name@,
                    )
                } else {
                    final(self).profiles@[i] == old(self).profiles@[i]
                },
    {
        match find_profile(&self.profiles, id) {
            Some(k) => {
                self.profiles[k].name = owned(name);
                assert(ids(self.profiles@) =~= ids(old(self).profiles@));
                true
            },
            None => false,
        }
    }

    /// Renames a folder: its sessions follow, and it keeps its place among the
    /// folders.
    pub fn apply_group_rename(&mut self, from: &str, to: &str)
        ensures
            final(self).profiles@.len() == old(self).profiles@.len(),
            ids(final(self).profiles@) == ids(old(self).profiles@),
            forall|i: int|
                0 <= i < old(self).profiles@.len() ==> if old(self).profiles@[i].group@ == from@ {
                    regrouped(
                        &#[trigger] final(self).profiles@[i],
                        &old(self).profiles@[i],
                        to@,
                    )
                } else {
                    final(self).profiles@[i] == old(self).profiles@[i]
                },
            texts(final(self).groups@) == match name_at(texts(old(self).groups@), from@) {
                Some(k) => texts(old(self).groups@).update(k, to@),
                None => added(texts(old(self).groups@), to@),
            },
    {
        let ghost before = self.profiles@;
        let mut i: usize = 0;
        while i < self.profiles.len()
            invariant
                i <= self.profiles.len(),
                self.profiles@.len() == before.len(),
                self.groups == old(self).groups,
                before == old(self).profiles@,
                forall|j: int|
                    0 <= j < i ==> if before[j].group@ == from@ {
                        regrouped(&#[trigger] self.profiles@[j], &before[j], to@)
                    } else {
                        self.profiles@[j] == before[j]
                    },
                forall|j: int| i <= j < before.len() ==> #[trigger] self.profiles@[j] == before[j],
            decreases self.profiles.len() - i,
        {
            if same(self.profiles[i].group.as_str(), from) {
                self.profiles[i].group = owned(to);
            }
            i += 1;
        }
        assert(ids(self.profiles@) =~= ids(before));
        match crate::groups::position_of_name(&self.groups, from) {
            Some(k) => {
                let ghost names = texts(self.groups@);
                self.groups.set(k, owned(to));
                assert(texts(self.groups@) =~= names.update(k as int, to@));
            },
            None => {
                add_group(&mut self.groups, to);
            },
        }
    }

    /// Deletes a session. Says whether there was such a session.
    pub fn delete_profile(&mut self, id: ProfileId) -> (r: bool)
        requires
            old(self).wf(),
        ensures
            final(self).wf(),
            final(self).groups == old(self).groups,
            match found_at(old(self).profiles@, id) {
                Some(k) => r && final(self).profiles@ == old(self).profiles@.remove(k),
                None => !r && final(self).profiles@ == old(self).profiles@,
            },
    {
        match find_profile(&self.profiles, id) {
            Some(k) => {
                let ghost before = self.profiles@;
                self.profiles.remove(k);
                proof {
                    lemma_remove_keeps_distinct(before, k as int);
                }
                true
            },
            None => false,
        }
    }

    /// Deletes a folder and every session in it. Hands back the sessions that
    /// went, so that their secrets can go too.
    pub fn delete_group(&mut self, group: &str) -> (r: Vec<ProfileId>)
        requires
            old(self).wf(),
        ensures
            final(self).wf(),
            final(self).profiles@ == outside_group(old(self).profiles@, group@),
            r@ == inside_group(old(self).profiles@, group@),
            texts(final(self).groups@) == without(texts(old(self).groups@), group@),
    {
        let ghost before = self.profiles@;
        let mut gone: Vec<ProfileId> = Vec::new();
        let mut i: usize = 0;
        let ghost mut seen: int = 0;
        assert(before.take(0) =~= Seq::empty());
        assert(self.profiles@ =~= outside_group(before.take(0), group@) + before.skip(0));
        while i < self.profiles.len()
            invariant
                0 <= i <= self.profiles@.len(),
                self.groups == old(self).groups,
                0 <= seen <= before.len(),
                i == outside_group(before.take(seen), group@).len(),
                self.profiles@ == outside_group(before.take(seen), group@) + before.skip(seen),
                gone@ == inside_group(before.take(seen), group@),
            decreases before.len() - seen,
        {
            let ghost kept = outside_group(before.take(seen), group@);
            let ghost rest = before.skip(seen);
            assert(self.profiles@[i as int] == rest[0]);
            assert(before.take(seen + 1).drop_last() =~= before.take(seen));
            if same(self.profiles[i].group.as_str(), group) {
                gone.push(self.profiles[i].id);
                self.profiles.remove(i);
                assert(self.profiles@ =~= kept + before.skip(seen + 1));
            } else {
                i += 1;
                assert(self.profiles@ =~= kept.push(rest[0]) + before.skip(seen + 1));
            }
            proof {
                seen = seen + 1;
            }
        }
        proof {
            assert(before.skip(seen).len() == 0);
            assert(before.take(before.len() as int) =~= before);
            assert(self.profiles@ =~= outside_group(before, group@));
            lemma_outside_distinct(before, group@);
        }
        remove_group(&mut self.groups, group);
        gone
    }

    /// Puts a session into the group of another, next to it, and numbers that
    /// group's sessions afresh. Says whether there are two such sessions.
    pub fn reorder_profile(
        &mut self,
        source: ProfileId,
        target: ProfileId,
        position: ProfileDropPosition,
    ) -> (r: bool)
        requires
            old(self).wf(),
            old(self).profiles@.len() <= i32::MAX,
        ensures
            final(self).wf(),
            final(self).groups == old(self).groups,
            ids(final(self).profiles@) == ids(old(self).profiles@),
            ({
                let before = old(self).profiles@;
                let at = found_at(before, target);
                let order = if at is Some {
                    put_beside(
                        group_order(tree_sorted(before), before[at->0].group@, source),
                        source,
                        target,
                        position,
                    )
                } else {
                    None
                };
                if source == target || found_at(before, source) is None || order is None {
                    !r && final(self).profiles@ == before
                } else {
                    &&& r
                    &&& forall|i: int|
                        0 <= i < before.len() ==> placed(
                            &#[trigger] final(self).profiles@[i],
                            &before[i],
                            before[at->0].group@,
                            source,
                            order->0,
                        )
                }
            }),
    {
        let ghost before = self.profiles@;
        if source == target {
            return false;
        }
        if find_profile(&self.profiles, source).is_none() {
            proof {
                lemma_found(before, source);
            }
            return false;
        }
        let at: usize = match find_profile(&self.profiles, target) {
            Some(k) => k,
            None => {
                return false;
            },
        };
        let group: String = self.profiles[at].group.clone();
        let sorted: Vec<usize> = tree_order(&self.profiles);
        let ghost in_order = picked(before, sorted@);
        let mut members: Vec<ProfileId> = Vec::new();
        let mut i: usize = 0;
        while i < sorted.len()
            invariant
                i <= sorted.len(),
                self.profiles@ == before,
                self.groups == old(self).groups,
                in_range(sorted@, before.len() as int),
                in_order == picked(before, sorted@),
                members@ == group_order(in_order.take(i as int), group@, source),
            decreases sorted.len() - i,
        {
            assert(in_order.take(i + 1).drop_last() =~= in_order.take(i as int));
            assert(in_order[i as int] == before[sorted@[i as int] as int]);
            if same(self.profiles[sorted[i]].group.as_str(), group.as_str())
                && self.profiles[sorted[i]].id != source {
                members.push(self.profiles[sorted[i]].id);
            }
            i += 1;
        }
        assert(in_order.take(i as int) =~= in_order);
        let order: Vec<ProfileId> = match move_beside(&members, source, target, position) {
            Some(order) => order,
            None => {
                return false;
            },
        };
        let mut k: usize = 0;
        while k < self.profiles.len()
            invariant
                k <= self.profiles.len(),
                self.profiles@.len() == before.len(),
                before.len() <= i32::MAX,
                self.groups == old(self).groups,
                forall|j: int|
                    0 <= j < k ==> placed(
                        &#[trigger] self.profiles@[j],
                        &before[j],
                        group@,
                        source,
                        order@,
                    ),
                forall|j: int| k <= j < before.len() ==> #[trigger] self.profiles@[j] == before[j],
            decreases self.profiles.len() - k,
        {
            let id: ProfileId = self.profiles[k].id;
            let ghost was = before[k as int];
            assert(self.profiles@[k as int] == was);
            if let Some(slot) = index_of_id(&order, id) {
                self.profiles[k].sort_order = if slot <= 2_147_483_647 {
                    slot as i32
                } else {
                    i32::MAX
                };
            }
            if id == source {
                self.profiles[k].group = group.clone();
            }
            k += 1;
        }
        assert(ids(self.profiles@) =~= ids(before));
        true
    }

    /// Carries out what the end of a drag decided. Says whether the sessions it
    /// names were there.
    pub fn apply_drag(&mut self, commit: DragCommit) -> (r: bool)
        requires
            old(self).wf(),
            old(self).profiles@.len() <= i32::MAX,
        ensures
            final(self).wf(),
            final(self).groups == old(self).groups,
            ids(final(self).profiles@) == ids(old(self).profiles@),
            match commit {
                DragCommit::Grid { .. } | DragCommit::Settle | DragCommit::Ignored
                | DragCommit::Nothing => r && final(self).profiles == old(self).profiles,
                DragCommit::IntoGroup { source, group } => {
                    &&& r == ids(old(self).profiles@).contains(source)
                    &&& forall|i: int|
                        0 <= i < old(self).profiles@.len() ==> if found_at(
                            old(self).profiles@,
                            source,
                        ) == Some(i) {
                            regrouped(
                                &#[trigger] final(self).profiles@[i],
                                &old(self).profiles@[i],
                                trimmed(group@),
                            )
                        } else {
                            final(self).profiles@[i] == old(self).profiles@[i]
                        }
                },
                DragCommit::TopLevel { source, order } => {
                    &&& r == ids(old(self).profiles@).contains(source)
                    &&& forall|i: int|
                        0 <= i < old(self).profiles@.len() ==> if found_at(
                            old(self).profiles@,
                            source,
                        ) == Some(i) {
                            &&& (#[trigger] final(self).profiles@[i]).group@.len() == 0
                            &&& final(self).profiles@[i] == (ConnectionProfile {
                                group: final(self).profiles@[i].group,
                                sort_order: order,
                                ..old(self).profiles@[i]
                            })
                        } else {
                            final(self).profiles@[i] == old(self).profiles@[i]
                        }
                },
                DragCommit::Beside { source, target, position } => {
                    let before = old(self).profiles@;
                    let at = found_at(before, target);
                    let order = if at is Some {
                        put_beside(
                            group_order(tree_sorted(before), before[at->0].group@, source),
                            source,
                            target,
                            position,
                        )
                    } else {
                        None
                    };
                    if source == target || found_at(before, source) is None || order is None {
                        !r && final(self).profiles@ == before
                    } else {
                        &&& r
                        &&& forall|i: int|
                            0 <= i < before.len() ==> placed(
                                &#[trigger] final(self).profiles@[i],
                                &before[i],
                                before[at->0].group@,
                                source,
                                order->0,
                            )
                    }
                },
            },
    {
        match commit {
            DragCommit::IntoGroup { source, group } => self.move_profile_to_group(
                source,
                group.as_str(),
            ),
            DragCommit::TopLevel { source, order } => {
                let ghost before = self.profiles@;
                let there: bool = self.move_profile_to_group(source, "");
                proof {
                    reveal_strlit("");
                    assert(trimmed(""@).len() == 0);
                    lemma_found_by_ids(before, self.profiles@, source);
                }
                let ghost moved = self.profiles@;
                self.set_profile_sort_order(source, order);
                assert forall|i: int| 0 <= i < before.len() implies if found_at(before, source)
                    == Some(i) {
                    &&& (#[trigger] self.profiles@[i]).group@.len() == 0
                    &&& self.profiles@[i] == (ConnectionProfile {
                        group: self.profiles@[i].group,
                        sort_order: order,
                        ..before[i]
                    })
                } else {
                    self.profiles@[i] == before[i]
                } by {
                    assert(moved[i] == moved[i]);
                }
                there
            },
            DragCommit::Beside { source, target, position } => self.reorder_profile(
                source,
                target,
                position,
            ),
            _ => true,
        }
    }
}

/// A session after a reorder: those in the new order are numbered by it, the
/// moved one has the group, and everything else is as it was.
pub open spec fn placed(
    new: &ConnectionProfile,
    old: &ConnectionProfile,
    group: Seq<char>,
    source: ProfileId,
    order: Seq<ProfileId>,
) -> bool {
    &&& new.group@ == if old.id == source {
        group
    } else {
        old.group@
    }
    &&& new.sort_order == match id_at(order, old.id) {
        Some(k) => (if k <= i32::MAX {
            k
        } else {
            i32::MAX as int
        }) as i32,
        None => old.sort_order,
    }
    &&& *new == (ConnectionProfile { group: new.group, sort_order: new.sort_order, ..*old })
}

/// The sessions that are not in a group.
pub open spec fn outside_group(profiles: Seq<ConnectionProfile>, group: Seq<char>) -> Seq<
    ConnectionProfile,
>
    decreases profiles.len(),
{
    if profiles.len() == 0 {
        Seq::empty()
    } else if profiles.last().group@ == group {
        outside_group(profiles.drop_last(), group)
    } else {
        outside_group(profiles.drop_last(), group).push(profiles.last())
    }
}

/// The identities of the sessions in a group.
pub open spec fn inside_group(profiles: Seq<ConnectionProfile>, group: Seq<char>) -> Seq<ProfileId>
    decreases profiles.len(),
{
    if profiles.len() == 0 {
        Seq::empty()
    } else if profiles.last().group@ == group {
        inside_group(profiles.drop_last(), group).push(profiles.last().id)
    } else {
        inside_group(profiles.drop_last(), group)
    }
}

proof fn lemma_remove_keeps_distinct(profiles: Seq<ConnectionProfile>, k: int)
    requires
        distinct_ids(ids(profiles)),
        0 <= k < profiles.len(),
    ensures
        distinct_ids(ids(profiles.remove(k))),
{
    let rest = profiles.remove(k);
    assert forall|i: int, j: int| 0 <= i < j < rest.len() implies ids(rest)[i] != ids(rest)[j] by {
        let a = if i < k {
            i
        } else {
            i + 1
        };
        let b = if j < k {
            j
        } else {
            j + 1
        };
        assert(ids(profiles)[a] != ids(profiles)[b]);
    }
}

proof fn lemma_outside_distinct(profiles: Seq<ConnectionProfile>, group: Seq<char>)
    requires
        distinct_ids(ids(profiles)),
    ensures
        distinct_ids(ids(outside_group(profiles, group))),
        forall|i: int|
            0 <= i < outside_group(profiles, group).len() ==> profiles.contains(
                #[trigger] outside_group(profiles, group)[i],
            ),
    decreases profiles.len(),
{
    if profiles.len() > 0 {
        let front = profiles.drop_last();
        let before = outside_group(front, group);
        let all = outside_group(profiles, group);
        assert forall|i: int, j: int| 0 <= i < j < front.len() implies ids(front)[i] != ids(
            front,
        )[j] by {
            assert(ids(profiles)[i] != ids(profiles)[j]);
        }
        lemma_outside_distinct(front, group);
        assert forall|i: int| 0 <= i < all.len() implies profiles.contains(
            #[trigger] all[i],
        ) by {
            if i < before.len() {
                assert(front.contains(before[i]));
                let m = choose|m: int| 0 <= m < front.len() && front[m] == before[i];
                assert(profiles[m] == all[i]);
            } else {
                assert(profiles[profiles.len() - 1] == all[i]);
            }
        }
        if profiles.last().group@ != group {
            assert forall|i: int, j: int| 0 <= i < j < all.len() implies ids(all)[i] != ids(
                all,
            )[j] by {
                if j == before.len() {
                    assert(front.contains(before[i]));
                    let m = choose|m: int| 0 <= m < front.len() && front[m] == before[i];
                    assert(ids(profiles)[m] != ids(profiles)[profiles.len() - 1]);
                } else {
                    assert(ids(before)[i] != ids(before)[j]);
                }
            }
        }
    }
}

proof fn lemma_found_by_ids(
    a: Seq<ConnectionProfile>,
    b: Seq<ConnectionProfile>,
    id: ProfileId,
)
    requires
        ids(a) == ids(b),
    ensures
        found_at(a, id) == found_at(b, id),
    decreases a.len(),
{
    assert(ids(a).len() == a.len() && ids(b).len() == b.len());
    if a.len() > 0 {
        assert(ids(a)[0] == a[0].id && ids(b)[0] == b[0].id);
        assert(ids(a.drop_first()) =~= ids(a).drop_first());
        assert(ids(b.drop_first()) =~= ids(b).drop_first());
        lemma_found_by_ids(a.drop_first(), b.drop_first(), id);
    }
}

/// After a reorder, the sessions of the group stand in the tree in the order
/// that was asked for: each before those that come after it.
pub proof fn law_a_reordered_group_stands_in_that_order(
    a: &ConnectionProfile,
    b: &ConnectionProfile,
    old_a: &ConnectionProfile,
    old_b: &ConnectionProfile,
    group: Seq<char>,
    source: ProfileId,
    order: Seq<ProfileId>,
)
    requires
        placed(a, old_a, group, source, order),
        placed(b, old_b, group, source, order),
        a.group@ == group,
        b.group@ == group,
        id_at(order, old_a.id) is Some,
        id_at(order, old_b.id) is Some,
        id_at(order, old_a.id)->0 < id_at(order, old_b.id)->0,
        order.len() <= i32::MAX,
    ensures
        tree_before(a, b),
{
    lemma_id_found(order, old_a.id);
    lemma_id_found(order, old_b.id);
}

/// Deleting a folder leaves no session in it and touches no other.
pub proof fn law_deleting_a_folder_empties_it(
    profiles: Seq<ConnectionProfile>,
    group: Seq<char>,
)
    ensures
        forall|i: int|
            0 <= i < outside_group(profiles, group).len() ==> (#[trigger] outside_group(
                profiles,
                group,
            )[i]).group@ != group,
        outside_group(profiles, group).len() + inside_group(profiles, group).len()
            == profiles.len(),
    decreases profiles.len(),
{
    if profiles.len() > 0 {
        law_deleting_a_folder_empties_it(profiles.drop_last(), group);
    }
}

// Renaming in place.

/// A rename in progress, of a session or of a folder.
pub struct InlineRename {
    pub editing_profile: Option<ProfileId>,
    pub profile_draft: String,
    pub editing_group: Option<String>,
    pub group_draft: String,
}

/// What comes of confirming the rename of a session.
pub enum ProfileRename {
    NotEditing,
    EmptyName,
    Unchanged,
    Rename { id: ProfileId, name: String },
}

/// What comes of confirming the rename of a folder.
pub enum GroupRename {
    NotEditing,
    EmptyName,
    Unchanged,
    Exists(String),
    Rename { from: String, to: String },
}

/// Whether the session with this identity has this name.
pub open spec fn is_named(profiles: Seq<ConnectionProfile>, id: ProfileId, name: Seq<char>) -> bool {
    match found_at(profiles, id) {
        Some(k) => profiles[k].name@ == name,
        None => false,
    }
}

fn has_name(profiles: &Vec<ConnectionProfile>, id: ProfileId, name: &str) -> (r: bool)
    ensures
        r == is_named(profiles@, id, name@),
{
    match find_profile(profiles, id) {
        Some(k) => same(profiles[k].name.as_str(), name),
        None => false,
    }
}

impl InlineRename {
    /// Drops the rename in progress without saving it.
    pub fn cancel_inline_rename(&mut self)
        ensures
            final(self).editing_profile is None,
            final(self).editing_group is None,
            final(self).profile_draft@.len() == 0,
            final(self).group_draft@.len() == 0,
    {
        self.editing_profile = None;
        self.profile_draft = String::new();
        self.editing_group = None;
        self.group_draft = String::new();
    }

    /// Takes note that the session in progress has its new name.
    pub fn profile_renamed(&mut self)
        ensures
            final(self).editing_profile is None,
            final(self).profile_draft@.len() == 0,
            final(self).editing_group == old(self).editing_group,
            final(self).group_draft == old(self).group_draft,
    {
        self.editing_profile = None;
        self.profile_draft = String::new();
    }

    /// Takes note that the folder in progress has its new name.
    pub fn group_renamed(&mut self)
        ensures
            final(self).editing_group is None,
            final(self).group_draft@.len() == 0,
            final(self).editing_profile == old(self).editing_profile,
            final(self).profile_draft == old(self).profile_draft,
    {
        self.editing_group = None;
        self.group_draft = String::new();
    }

    /// Ends the rename in progress and says what it renames. A name that is
    /// empty, unchanged, or taken by another folder is silently dropped, since
    /// clicking away must never trap the row. The last of the three says
    /// whether a rename was in progress at all.
    pub fn commit_inline_rename(&mut self, catalog: &Catalog) -> (r: (
        Option<(ProfileId, String)>,
        Option<(String, String)>,
        bool,
    ))
        ensures
            final(self).editing_profile is None,
            final(self).editing_group is None,
            old(self).editing_profile is Some ==> final(self).profile_draft@.len() == 0,
            old(self).editing_profile is None ==> final(self).profile_draft == old(
                self,
            ).profile_draft,
            old(self).editing_group is Some ==> final(self).group_draft@.len() == 0,
            old(self).editing_group is None ==> final(self).group_draft == old(self).group_draft,
            ({
                let name = trimmed(old(self).profile_draft@);
                let owed = old(self).editing_profile is Some && name.len() > 0 && !is_named(
                    catalog.profiles@,
                    old(self).editing_profile->0,
                    name,
                );
                &&& r.0 is Some == owed
                &&& r.0 matches Some((id, to)) ==> Some(id) == old(self).editing_profile && to@
                    == name
            }),
            ({
                let name = trimmed(old(self).group_draft@);
                let owed = old(self).editing_group is Some && name.len() > 0 && Some(name)
                    != maybe_text(old(self).editing_group) && !texts(catalog.groups@).contains(
                    name,
                );
                &&& r.1 is Some == owed
                &&& r.1 matches Some((from, to)) ==> Some(from) == old(self).editing_group && to@
                    == name
            }),
            r.2 == (old(self).editing_profile is Some || old(self).editing_group is Some),
    {
        let mut profile: Option<(ProfileId, String)> = None;
        let mut group: Option<(String, String)> = None;
        let mut resolved: bool = false;
        if let Some(id) = self.editing_profile {
            self.editing_profile = None;
            resolved = true;
            let name: String = trim(self.profile_draft.as_str());
            self.profile_draft = String::new();
            if !name.as_str().is_empty() && !has_name(&catalog.profiles, id, name.as_str()) {
                profile = Some((id, name));
            }
        }
        let editing: Option<String> = self.editing_group.take();
        if let Some(from) = editing {
            resolved = true;
            let to: String = trim(self.group_draft.as_str());
            self.group_draft = String::new();
            if !to.as_str().is_empty() && !same(to.as_str(), from.as_str()) && !holds(
                &catalog.groups,
                to.as_str(),
            ) {
                group = Some((from, to));
            }
        }
        (profile, group, resolved)
    }

    /// Confirms the rename of a session. The editor stays open on an empty name
    /// and until a rename has been carried out.
    pub fn save_profile_rename(&mut self, catalog: &Catalog) -> (r: ProfileRename)
        ensures
            final(self).editing_group == old(self).editing_group,
            final(self).group_draft == old(self).group_draft,
            ({
                let name = trimmed(old(self).profile_draft@);
                match old(self).editing_profile {
                    None => r is NotEditing && *final(self) == *old(self),
                    Some(id) => if name.len() == 0 {
                        r is EmptyName && *final(self) == *old(self)
                    } else if is_named(catalog.profiles@, id, name) {
                        &&& r is Unchanged
                        &&& final(self).editing_profile is None
                        &&& final(self).profile_draft@.len() == 0
                    } else {
                        &&& *final(self) == *old(self)
                        &&& r matches ProfileRename::Rename { id: which, name: to }
                        &&& which == id
                        &&& to@ == name
                    },
                }
            }),
    {
        let id: ProfileId = match self.editing_profile {
            Some(id) => id,
            None => {
                return ProfileRename::NotEditing;
            },
        };
        let name: String = trim(self.profile_draft.as_str());
        if name.as_str().is_empty() {
            return ProfileRename::EmptyName;
        }
        if has_name(&catalog.profiles, id, name.as_str()) {
            self.editing_profile = None;
            self.profile_draft = String::new();
            return ProfileRename::Unchanged;
        }
        ProfileRename::Rename { id, name }
    }

    /// Confirms the rename of a folder. The editor stays open on an empty or
    /// taken name and until a rename has been carried out.
    pub fn save_group_rename(&mut self, catalog: &Catalog) -> (r: GroupRename)
        ensures
            final(self).editing_profile == old(self).editing_profile,
            final(self).profile_draft == old(self).profile_draft,
            ({
                let name = trimmed(old(self).group_draft@);
                match old(self).editing_group {
                    None => r is NotEditing && *final(self) == *old(self),
                    Some(from) => if name.len() == 0 {
                        r is EmptyName && *final(self) == *old(self)
                    } else if name == from@ {
                        &&& r is Unchanged
                        &&& final(self).editing_group is None
                        &&& final(self).group_draft@.len() == 0
                    } else if texts(catalog.groups@).contains(name) {
                        &&& *final(self) == *old(self)
                        &&& r matches GroupRename::Exists(taken)
                        &&& taken@ == name
                    } else {
                        &&& *final(self) == *old(self)
                        &&& r matches GroupRename::Rename { from: which, to }
                        &&& which == from
                        &&& to@ == name
                    },
                }
            }),
    {
        let from: String = match &self.editing_group {
            Some(from) => from.clone(),
            None => {
                return GroupRename::NotEditing;
            },
        };
        let name: String = trim(self.group_draft.as_str());
        if name.as_str().is_empty() {
            return GroupRename::EmptyName;
        }
        if same(name.as_str(), from.as_str()) {
            self.editing_group = None;
            self.group_draft = String::new();
            return GroupRename::Unchanged;
        }
        if holds(&catalog.groups, name.as_str()) {
            return GroupRename::Exists(name);
        }
        GroupRename::Rename { from, to: name }
    }
}

// Importing.

/// A host as the user's SSH configuration describes it.
pub struct SshHost {
    pub alias: String,
    pub hostname: String,
    pub port: u16,
    pub user: String,
    pub identity_file: String,
}

/// A session as another client saved it.
pub struct ForeignSession {
    pub group: String,
    pub name: String,
    pub hostname: String,
    pub port: u16,
    pub username: String,
    pub protocol: String,
}

/// A session to be made.
pub struct NewProfile {
    pub group: String,
    pub name: String,
    pub host: String,
    pub port: u16,
    pub username: String,
    pub auth_method: AuthMethod,
    pub identity_file: String,
    pub protocol: Protocol,
}

/// Whether a name is one of the sessions'.
pub open spec fn name_taken(profiles: Seq<ConnectionProfile>, name: Seq<char>) -> bool {
    exists|i: int| 0 <= i < profiles.len() && (#[trigger] profiles[i]).name@ == name
}

/// Whether a group holds a session of this name.
pub open spec fn taken_in_group(
    profiles: Seq<ConnectionProfile>,
    group: Seq<char>,
    name: Seq<char>,
) -> bool {
    exists|i: int|
        0 <= i < profiles.len() && (#[trigger] profiles[i]).group@ == group && profiles[i].name@
            == name
}

fn is_name_taken(profiles: &Vec<ConnectionProfile>, name: &str) -> (r: bool)
    ensures
        r == name_taken(profiles@, name@),
{
    let mut i: usize = 0;
    while i < profiles.len()
        invariant
            i <= profiles.len(),
            forall|j: int| 0 <= j < i ==> (#[trigger] profiles@[j]).name@ != name@,
        decreases profiles.len() - i,
    {
        if same(profiles[i].name.as_str(), name) {
            return true;
        }
        i += 1;
    }
    false
}

fn is_taken_in_group(profiles: &Vec<ConnectionProfile>, group: &str, name: &str) -> (r: bool)
    ensures
        r == taken_in_group(profiles@, group@, name@),
{
    let mut i: usize = 0;
    while i < profiles.len()
        invariant
            i <= profiles.len(),
            forall|j: int|
                0 <= j < i ==> !((#[trigger] profiles@[j]).group@ == group@ && profiles@[j].name@
                    == name@),
        decreases profiles.len() - i,
    {
        if same(profiles[i].group.as_str(), group) && same(profiles[i].name.as_str(), name) {
            return true;
        }
        i += 1;
    }
    false
}

/// Whether a new session is what a host of the SSH configuration becomes: in
/// the group of imports, with the fallback user where none is named, and
/// authenticating with its key where it has one.
pub open spec fn imports_host(new: &NewProfile, host: &SshHost, fallback: Seq<char>) -> bool {
    &&& new.group@ == "Imported"@
    &&& new.name@ == host.alias@
    &&& new.host@ == host.hostname@
    &&& new.port == host.port
    &&& new.username@ == if host.user@.len() == 0 {
        fallback
    } else {
        host.user@
    }
    &&& new.auth_method == if host.identity_file@.len() == 0 {
        AuthMethod::Auto
    } else {
        AuthMethod::Key
    }
    &&& new.identity_file@ == host.identity_file@
    &&& new.protocol == Protocol::Ssh
}

/// Whether new sessions are, in order, what these hosts become, but for those
/// whose name a session has already.
pub open spec fn import_hosts(
    new: Seq<NewProfile>,
    hosts: Seq<SshHost>,
    profiles: Seq<ConnectionProfile>,
    fallback: Seq<char>,
) -> bool
    decreases hosts.len(),
{
    if hosts.len() == 0 {
        new.len() == 0
    } else if name_taken(profiles, hosts.last().alias@) {
        import_hosts(new, hosts.drop_last(), profiles, fallback)
    } else {
        &&& new.len() > 0
        &&& imports_host(&new.last(), &hosts.last(), fallback)
        &&& import_hosts(new.drop_last(), hosts.drop_last(), profiles, fallback)
    }
}

/// The sessions to make of the hosts of an SSH configuration, in order, and how
/// many hosts are skipped because a session has their name already.
pub fn import_ssh_config(
    hosts: &Vec<SshHost>,
    profiles: &Vec<ConnectionProfile>,
    fallback_user: &str,
) -> (r: (Vec<NewProfile>, usize))
    ensures
        import_hosts(r.0@, hosts@, profiles@, fallback_user@),
        r.1 == hosts@.len() - r.0@.len(),
{
    let mut out: Vec<NewProfile> = Vec::new();
    let mut skipped: usize = 0;
    let mut i: usize = 0;
    while i < hosts.len()
        invariant
            i <= hosts.len(),
            out@.len() + skipped == i,
            import_hosts(out@, hosts@.take(i as int), profiles@, fallback_user@),
        decreases hosts.len() - i,
    {
        let ghost before = out@;
        assert(hosts@.take(i + 1).drop_last() =~= hosts@.take(i as int));
        if is_name_taken(profiles, hosts[i].alias.as_str()) {
            skipped += 1;
        } else {
            let new = NewProfile {
                group: owned("Imported"),
                name: hosts[i].alias.clone(),
                host: hosts[i].hostname.clone(),
                port: hosts[i].port,
                username: if hosts[i].user.as_str().is_empty() {
                    owned(fallback_user)
                } else {
                    hosts[i].user.clone()
                },
                auth_method: if hosts[i].identity_file.as_str().is_empty() {
                    AuthMethod::Auto
                } else {
                    AuthMethod::Key
                },
                identity_file: hosts[i].identity_file.clone(),
                protocol: Protocol::Ssh,
            };
            out.push(new);
            assert(out@.drop_last() =~= before);
        }
        i += 1;
    }
    assert(hosts@.take(i as int) =~= hosts@);
    (out, skipped)
}

/// Whether a new session is what a session of another client becomes.
pub open spec fn imports_session(
    new: &NewProfile,
    session: &ForeignSession,
    fallback: Seq<char>,
) -> bool {
    &&& new.group@ == session.group@
    &&& new.name@ == session.name@
    &&& new.host@ == session.hostname@
    &&& new.port == session.port
    &&& new.username@ == if session.username@.len() == 0 {
        fallback
    } else {
        session.username@
    }
    &&& new.auth_method == AuthMethod::Auto
    &&& new.identity_file@.len() == 0
    &&& new.protocol == if session.protocol@ == "RDP"@ {
        Protocol::Rdp
    } else if session.protocol@ == "Serial"@ {
        Protocol::Serial
    } else {
        Protocol::Ssh
    }
}

/// Whether new sessions are, in order, what these sessions become, but for those
/// whose group has a session of the same name already.
pub open spec fn import_sessions(
    new: Seq<NewProfile>,
    sessions: Seq<ForeignSession>,
    profiles: Seq<ConnectionProfile>,
    fallback: Seq<char>,
) -> bool
    decreases sessions.len(),
{
    if sessions.len() == 0 {
        new.len() == 0
    } else if taken_in_group(
        profiles,
        sessions.last().group@,
        sessions.last().name@,
    ) {
        import_sessions(new, sessions.drop_last(), profiles, fallback)
    } else {
        &&& new.len() > 0
        &&& imports_session(&new.last(), &sessions.last(), fallback)
        &&& import_sessions(new.drop_last(), sessions.drop_last(), profiles, fallback)
    }
}

/// The sessions to make of another client's, in order, and how many are skipped
/// because their group has a session of the same name already.
pub fn import_securecrt(
    sessions: &Vec<ForeignSession>,
    profiles: &Vec<ConnectionProfile>,
    fallback_user: &str,
) -> (r: (Vec<NewProfile>, usize))
    ensures
        import_sessions(r.0@, sessions@, profiles@, fallback_user@),
        r.1 == sessions@.len() - r.0@.len(),
{
    let mut out: Vec<NewProfile> = Vec::new();
    let mut skipped: usize = 0;
    let mut i: usize = 0;
    while i < sessions.len()
        invariant
            i <= sessions.len(),
            out@.len() + skipped == i,
            import_sessions(out@, sessions@.take(i as int), profiles@, fallback_user@),
        decreases sessions.len() - i,
    {
        let ghost before = out@;
        assert(sessions@.take(i + 1).drop_last() =~= sessions@.take(i as int));
        let session: &ForeignSession = &sessions[i];
        if is_taken_in_group(profiles, session.group.as_str(), session.name.as_str()) {
            skipped += 1;
        } else {
            let new = NewProfile {
                group: session.group.clone(),
                name: session.name.clone(),
                host: session.hostname.clone(),
                port: session.port,
                username: if session.username.as_str().is_empty() {
                    owned(fallback_user)
                } else {
                    session.username.clone()
                },
                auth_method: AuthMethod::Auto,
                identity_file: String::new(),
                protocol: if same(session.protocol.as_str(), "RDP") {
                    Protocol::Rdp
                } else if same(session.protocol.as_str(), "Serial") {
                    Protocol::Serial
                } else {
                    Protocol::Ssh
                },
            };
            out.push(new);
            assert(out@.drop_last() =~= before);
        }
        i += 1;
    }
    assert(sessions@.take(i as int) =~= sessions@);
    (out, skipped)
}

// The configuration folder.

/// What choosing a configuration folder does.
#[derive(Debug, Clone, Copy, PartialEq, Eq, Structural)]
pub enum Relocation {
    /// It is the folder in use: only the pointer to it is written again.
    Unchanged,
    /// It holds another machine's configuration, which is loaded at the next
    /// start and never overwritten.
    AdoptOnRestart,
    /// The configuration is copied there and used from now on.
    CarryOver { back_to_default: bool },
}

/// What choosing a configuration folder does. The default folder's contents are
/// this machine's own, so going back there always carries the configuration
/// over.
pub fn relocate_config_dir(is_current: bool, is_default: bool, has_config: bool) -> (r: Relocation)
    ensures
        r == if is_current {
            Relocation::Unchanged
        } else if !is_default && has_config {
            Relocation::AdoptOnRestart
        } else {
            Relocation::CarryOver { back_to_default: is_default }
        },
{
    if is_current {
        Relocation::Unchanged
    } else if !is_default && has_config {
        Relocation::AdoptOnRestart
    } else {
        Relocation::CarryOver { back_to_default: is_default }
    }
}

// Laws.

/// The order of a group is that of the tree without the session that moves; a folder that
/// is deleted takes its sessions and leaves the others, as they stood.
pub proof fn law_a_group_is_its_own_sessions(
    profiles: Seq<ConnectionProfile>,
    group: Seq<char>,
    exclude: ProfileId,
)
    ensures
        group_order(profiles, group, exclude) == profiles.filter(
            |p: ConnectionProfile| p.group@ == group && p.id != exclude,
        ).map_values(|p: ConnectionProfile| p.id),
        outside_group(profiles, group) == profiles.filter(
            |p: ConnectionProfile| p.group@ != group,
        ),
        inside_group(profiles, group) == profiles.filter(
            |p: ConnectionProfile| p.group@ == group,
        ).map_values(|p: ConnectionProfile| p.id),
    decreases profiles.len(),
{
    reveal(Seq::filter);
    let id = |p: ConnectionProfile| p.id;
    let others = |p: ConnectionProfile| p.group@ == group && p.id != exclude;
    let own = |p: ConnectionProfile| p.group@ == group;
    if profiles.len() > 0 {
        law_a_group_is_its_own_sessions(profiles.drop_last(), group, exclude);
    }
    assert(group_order(profiles, group, exclude) =~= profiles.filter(others).map_values(id));
    assert(inside_group(profiles, group) =~= profiles.filter(own).map_values(id));
}

/// A session that is moved or renamed stays the same otherwise: where it leads and how it
/// is opened.
pub proof fn law_moving_and_renaming_change_nothing_else(
    new: &ConnectionProfile,
    old: &ConnectionProfile,
    text: Seq<char>,
)
    ensures
        regrouped(new, old, text) ==> {
            &&& new.group@ == text
            &&& new.name == old.name
            &&& new.sort_order == old.sort_order
        },
        renamed(new, old, text) ==> {
            &&& new.name@ == text
            &&& new.group == old.group
            &&& new.sort_order == old.sort_order
        },
        regrouped(new, old, text) || renamed(new, old, text) ==> {
            &&& new.id == old.id
            &&& new.host == old.host
            &&& new.port == old.port
            &&& new.username == old.username
            &&& new.auth_method == old.auth_method
            &&& new.identity_file == old.identity_file
            &&& new.protocol == old.protocol
            &&& new.tunnels == old.tunnels
            &&& new.jumps == old.jumps
        },
{
}

/// A session that is put beside another comes into the group of the other; the others
/// stay in theirs, and those of the group are numbered as they stand in the order.
pub proof fn law_a_session_comes_into_the_group_it_is_put_in(
    new: &ConnectionProfile,
    old: &ConnectionProfile,
    group: Seq<char>,
    source: ProfileId,
    order: Seq<ProfileId>,
    k: int,
)
    requires
        placed(new, old, group, source, order),
    ensures
        old.id == source ==> new.group@ == group,
        old.id != source ==> new.group@ == old.group@,
        !order.contains(old.id) ==> new.sort_order == old.sort_order,
        0 <= k < order.len() <= i32::MAX && order[k] == old.id && distinct_ids(order)
            ==> new.sort_order == k,
        new.id == old.id,
        new.name == old.name,
        new.host == old.host,
{
    lemma_id_found(order, old.id);
}

/// Every host whose name no session has becomes a session, in the order of the hosts, and
/// no other does.
pub proof fn law_every_new_host_is_imported(
    new: Seq<NewProfile>,
    hosts: Seq<SshHost>,
    profiles: Seq<ConnectionProfile>,
    fallback: Seq<char>,
)
    requires
        import_hosts(new, hosts, profiles, fallback),
    ensures
        ({
            let fresh = hosts.filter(|h: SshHost| !name_taken(profiles, h.alias@));
            &&& new.len() == fresh.len()
            &&& forall|i: int|
                0 <= i < new.len() ==> imports_host(&#[trigger] new[i], &fresh[i], fallback)
        }),
    decreases hosts.len(),
{
    reveal(Seq::filter);
    let fresh = hosts.filter(|h: SshHost| !name_taken(profiles, h.alias@));
    if hosts.len() > 0 {
        let front = hosts.drop_last();
        let before = front.filter(|h: SshHost| !name_taken(profiles, h.alias@));
        if name_taken(profiles, hosts.last().alias@) {
            law_every_new_host_is_imported(new, front, profiles, fallback);
            assert(fresh == before);
        } else {
            law_every_new_host_is_imported(new.drop_last(), front, profiles, fallback);
            assert(fresh == before.push(hosts.last()));
            assert forall|i: int| 0 <= i < new.len() implies imports_host(
                &#[trigger] new[i],
                &fresh[i],
                fallback,
            ) by {
                if i < before.len() {
                    assert(new.drop_last()[i] == new[i]);
                }
            }
        }
    }
}

/// Every session of the other program whose name its group does not have becomes a
/// session, in order, and no other does.
pub proof fn law_every_new_session_is_imported(
    new: Seq<NewProfile>,
    sessions: Seq<ForeignSession>,
    profiles: Seq<ConnectionProfile>,
    fallback: Seq<char>,
)
    requires
        import_sessions(new, sessions, profiles, fallback),
    ensures
        ({
            let fresh = sessions.filter(
                |s: ForeignSession| !taken_in_group(profiles, s.group@, s.name@),
            );
            &&& new.len() == fresh.len()
            &&& forall|i: int|
                0 <= i < new.len() ==> imports_session(&#[trigger] new[i], &fresh[i], fallback)
        }),
    decreases sessions.len(),
{
    reveal(Seq::filter);
    let fresh = sessions.filter(|s: ForeignSession| !taken_in_group(profiles, s.group@, s.name@));
    if sessions.len() > 0 {
        let front = sessions.drop_last();
        let before = front.filter(|s: ForeignSession| !taken_in_group(profiles, s.group@, s.name@));
        if taken_in_group(profiles, sessions.last().group@, sessions.last().name@) {
            law_every_new_session_is_imported(new, front, profiles, fallback);
            assert(fresh == before);
        } else {
            law_every_new_session_is_imported(new.drop_last(), front, profiles, fallback);
            assert(fresh == before.push(sessions.last()));
            assert forall|i: int| 0 <= i < new.len() implies imports_session(
                &#[trigger] new[i],
                &fresh[i],
                fallback,
            ) by {
                if i < before.len() {
                    assert(new.drop_last()[i] == new[i]);
                }
            }
        }
    }
}

/// A host that is imported leads where it led: to its machine and port, as its user, or
/// as the one that is given where it names none. It is opened with its key where it names
/// one.
pub proof fn law_an_imported_host_leads_where_it_led(
    new: &NewProfile,
    host: &SshHost,
    fallback: Seq<char>,
)
    requires
        imports_host(new, host, fallback),
    ensures
        new.name@ == host.alias@,
        new.host@ == host.hostname@,
        new.port == host.port,
        host.user@.len() > 0 ==> new.username@ == host.user@,
        host.user@.len() == 0 ==> new.username@ == fallback,
        new.auth_method == AuthMethod::Key <==> host.identity_file@.len() > 0,
        host.identity_file@.len() == 0 ==> new.auth_method == AuthMethod::Auto,
        new.identity_file@ == host.identity_file@,
        new.protocol == Protocol::Ssh,
        new.group@ == "Imported"@,
{
}

/// A session of the other program that is imported leads where it led, in the same group
/// and by the same protocol.
pub proof fn law_an_imported_session_leads_where_it_led(
    new: &NewProfile,
    session: &ForeignSession,
    fallback: Seq<char>,
)
    requires
        imports_session(new, session, fallback),
    ensures
        new.group@ == session.group@,
        new.name@ == session.name@,
        new.host@ == session.hostname@,
        new.port == session.port,
        session.username@.len() > 0 ==> new.username@ == session.username@,
        session.username@.len() == 0 ==> new.username@ == fallback,
        new.auth_method == AuthMethod::Auto,
        session.protocol@ == "RDP"@ ==> new.protocol == Protocol::Rdp,
        session.protocol@ == "Serial"@ ==> new.protocol == Protocol::Serial,
        session.protocol@ != "RDP"@ && session.protocol@ != "Serial"@ ==> new.protocol
            == Protocol::Ssh,
{
    reveal_strlit("RDP");
    reveal_strlit("Serial");
    assert("RDP"@.len() != "Serial"@.len());
}

} // verus!

//! The session tree: its top level, where a drop in it lands, and what the end
//! of a drag does.

use vstd::prelude::*;
use vstd::string::*;

use crate::grid::{
    put_beside, grid_sorted, reorder_grid, ProfileDrag, ProfileDrop, ProfileDropPosition,
};
use crate::groups::{shown_folders, sidebar_group_names};
use crate::profile::{find_profile, found_at, ids, ConnectionProfile, ProfileId};
use crate::text::{blank, is_blank, texts};

verus! {

/// The distance between the slots of two folders on the scale on which folders
/// and ungrouped sessions are interleaved.
pub const TOP_LEVEL_STEP: i32 = 100_000;

/// What stands at the top level: a session that is in no group, or a folder.
#[derive(Debug, Clone, Copy, PartialEq, Eq, Structural)]
pub enum TopKind {
    Session(ProfileId),
    Folder(usize),
}

/// An entry of the top level, and the key that orders it.
#[derive(Debug, Clone, Copy, PartialEq, Eq, Structural)]
pub struct TopEntry {
    pub key: i32,
    pub kind: TopKind,
}

/// An entry put behind every entry whose key is not greater.
pub open spec fn entry_inserted(sorted: Seq<TopEntry>, entry: TopEntry) -> Seq<TopEntry>
    decreases sorted.len(),
{
    if sorted.len() > 0 && entry.key < sorted.last().key {
        entry_inserted(sorted.drop_last(), entry).push(sorted.last())
    } else {
        sorted.push(entry)
    }
}

/// The entries by their keys; those with the same key keep their order.
pub open spec fn entries_sorted(entries: Seq<TopEntry>) -> Seq<TopEntry>
    decreases entries.len(),
{
    if entries.len() == 0 {
        Seq::empty()
    } else {
        entry_inserted(entries_sorted(entries.drop_last()), entries.last())
    }
}

/// The sessions that are in no group, but for one.
pub open spec fn loose_entries(
    profiles: Seq<ConnectionProfile>,
    exclude: Option<ProfileId>,
) -> Seq<TopEntry>
    decreases profiles.len(),
{
    if profiles.len() == 0 {
        Seq::empty()
    } else {
        let before = loose_entries(profiles.drop_last(), exclude);
        let last = profiles.last();
        if blank(last.group@) && exclude != Some(last.id) {
            before.push(TopEntry { key: last.sort_order, kind: TopKind::Session(last.id) })
        } else {
            before
        }
    }
}

/// The folders, each at its slot.
pub open spec fn folder_entries(count: nat) -> Seq<TopEntry> {
    Seq::new(
        count,
        |i: int|
            TopEntry {
                key: ((i + 1) * TOP_LEVEL_STEP) as i32,
                kind: TopKind::Folder(i as usize),
            },
    )
}

/// The top level: ungrouped sessions and folders, interleaved by their keys.
pub open spec fn top_level(
    profiles: Seq<ConnectionProfile>,
    folders: nat,
    exclude: Option<ProfileId>,
) -> Seq<TopEntry> {
    entries_sorted(loose_entries(profiles, exclude) + folder_entries(folders))
}

/// Sorts entries by their keys, keeping the order of those with the same key.
pub fn sort_entries(entries: Vec<TopEntry>) -> (r: Vec<TopEntry>)
    ensures
        r@ == entries_sorted(entries@),
        r@.len() == entries@.len(),
{
    let mut out: Vec<TopEntry> = Vec::new();
    let mut i: usize = 0;
    while i < entries.len()
        invariant
            i <= entries.len(),
            out@ == entries_sorted(entries@.take(i as int)),
            out@.len() == i,
        decreases entries.len() - i,
    {
        let x: TopEntry = entries[i];
        let ghost all = out@;
        let mut at: usize = out.len();
        assert(all.take(at as int) =~= all);
        assert(entry_inserted(all, x) =~= entry_inserted(all, x) + all.skip(at as int));
        while at > 0 && x.key < out[at - 1].key
            invariant
                at <= out.len(),
                out@ == all,
                entry_inserted(all, x) == entry_inserted(all.take(at as int), x) + all.skip(
                    at as int,
                ),
            decreases at,
        {
            proof {
                let head = all.take(at as int);
                assert(head.drop_last() =~= all.take(at - 1));
                assert(entry_inserted(head, x) + all.skip(at as int) =~= entry_inserted(
                    all.take(at - 1),
                    x,
                ) + all.skip(at - 1));
            }
            at -= 1;
        }
        assert(entry_inserted(all.take(at as int), x) == all.take(at as int).push(x));
        out.insert(at, x);
        assert(out@ =~= all.take(at as int).push(x) + all.skip(at as int));
        assert(entries@.take(i + 1).drop_last() =~= entries@.take(i as int));
        i += 1;
    }
    assert(entries@.take(i as int) =~= entries@);
    out
}

/// The top level without one session: the other ungrouped sessions and the
/// folders, interleaved by their keys.
pub fn top_level_entries(
    profiles: &Vec<ConnectionProfile>,
    folders: usize,
    exclude: Option<ProfileId>,
) -> (r: Vec<TopEntry>)
    requires
        folders * TOP_LEVEL_STEP <= i32::MAX,
    ensures
        r@ == top_level(profiles@, folders as nat, exclude),
{
    let mut entries: Vec<TopEntry> = Vec::new();
    let mut i: usize = 0;
    while i < profiles.len()
        invariant
            i <= profiles.len(),
            entries@ == loose_entries(profiles@.take(i as int), exclude),
        decreases profiles.len() - i,
    {
        assert(profiles@.take(i + 1).drop_last() =~= profiles@.take(i as int));
        let excluded: bool = match exclude {
            Some(id) => id == profiles[i].id,
            None => false,
        };
        if is_blank(profiles[i].group.as_str()) && !excluded {
            entries.push(
                TopEntry { key: profiles[i].sort_order, kind: TopKind::Session(profiles[i].id) },
            );
        }
        i += 1;
    }
    assert(profiles@.take(i as int) =~= profiles@);
    let ghost loose = entries@;
    let mut k: usize = 0;
    assert(entries@ =~= loose + folder_entries(0));
    while k < folders
        invariant
            k <= folders,
            folders * TOP_LEVEL_STEP <= i32::MAX,
            entries@ == loose + folder_entries(k as nat),
        decreases folders - k,
    {
        assert((k + 1) * TOP_LEVEL_STEP <= i32::MAX) by (nonlinear_arith)
            requires
                k + 1 <= folders,
                folders * TOP_LEVEL_STEP <= i32::MAX,
        ;
        let key: i32 = (k as i32 + 1) * TOP_LEVEL_STEP;
        entries.push(TopEntry { key, kind: TopKind::Folder(k) });
        k += 1;
        assert(entries@ =~= loose + folder_entries(k as nat));
    }
    sort_entries(entries)
}

// Placing a session at the top level.

/// The key before slot `index`.
pub open spec fn key_before(entries: Seq<TopEntry>, index: int) -> int {
    if index > 0 {
        entries[index - 1].key as int
    } else if entries.len() > 0 {
        entries[0].key - TOP_LEVEL_STEP
    } else {
        0
    }
}

/// The key at slot `index`.
pub open spec fn key_after(entries: Seq<TopEntry>, index: int) -> int {
    if index < entries.len() {
        entries[index].key as int
    } else if entries.len() > 0 {
        entries.last().key + TOP_LEVEL_STEP
    } else {
        TOP_LEVEL_STEP as int
    }
}

/// The key midway between the neighbours of slot `index`.
pub open spec fn key_midway(entries: Seq<TopEntry>, index: int) -> int {
    key_before(entries, index) + (key_after(entries, index) - key_before(entries, index)) / 2
}

/// Whether the keys around slot `index`, and their distance, can be written as
/// 32-bit numbers.
pub open spec fn slot_fits(entries: Seq<TopEntry>, index: int) -> bool {
    &&& i32::MIN <= key_before(entries, index) <= i32::MAX
    &&& i32::MIN <= key_after(entries, index) <= i32::MAX
    &&& 0 <= key_after(entries, index) - key_before(entries, index) <= i32::MAX
}

/// The key that puts a session into slot `index` of the top level.
pub fn place_ungrouped_at(entries: &Vec<TopEntry>, index: usize) -> (r: i32)
    requires
        index <= entries@.len(),
        slot_fits(entries@, index as int),
    ensures
        r == key_midway(entries@, index as int),
{
    let prev: i32 = if index > 0 {
        entries[index - 1].key
    } else if entries.len() > 0 {
        entries[0].key - TOP_LEVEL_STEP
    } else {
        0
    };
    let next: i32 = if index < entries.len() {
        entries[index].key
    } else if entries.len() > 0 {
        entries[entries.len() - 1].key + TOP_LEVEL_STEP
    } else {
        TOP_LEVEL_STEP
    };
    prev + (next - prev) / 2
}

/// A session that is placed between two entries gets a key between theirs, and
/// one that differs from both where there is room for it.
pub proof fn law_a_placed_session_stands_between_its_neighbours(
    entries: Seq<TopEntry>,
    index: int,
)
    requires
        slot_fits(entries, index),
    ensures
        key_before(entries, index) <= key_midway(entries, index) <= key_after(entries, index),
        key_after(entries, index) - key_before(entries, index) >= 2 ==> key_before(entries, index)
            < key_midway(entries, index) < key_after(entries, index),
{
}

// The end of a drag.

/// What the end of a drag does to the sessions.
pub enum DragCommit {
    /// There was no drag.
    Nothing,
    /// It was a click: cards only settle where they are.
    Settle,
    /// It ended where nothing can be dropped.
    Ignored,
    /// The session moves into a group.
    IntoGroup { source: ProfileId, group: String },
    /// The session leaves its group and stands at the top level with this key.
    TopLevel { source: ProfileId, order: i32 },
    /// The grid's own order has changed, and nothing else.
    Grid { source: ProfileId },
    /// The session joins the group of another, next to it.
    Beside { source: ProfileId, target: ProfileId, position: ProfileDropPosition },
}

/// The slot next to a session at the top level, or the last one where it is not
/// there.
pub open spec fn slot_beside(
    entries: Seq<TopEntry>,
    target: ProfileId,
    position: ProfileDropPosition,
) -> int
    decreases entries.len(),
{
    if entries.len() == 0 {
        0
    } else if entries[0].kind == TopKind::Session(target) {
        if position == ProfileDropPosition::After {
            1
        } else {
            0
        }
    } else {
        1 + slot_beside(entries.drop_first(), target, position)
    }
}

proof fn lemma_slot_beside(
    entries: Seq<TopEntry>,
    target: ProfileId,
    position: ProfileDropPosition,
    k: int,
)
    requires
        0 <= k <= entries.len(),
        forall|i: int| 0 <= i < k ==> (#[trigger] entries[i]).kind != TopKind::Session(target),
        k < entries.len() ==> entries[k].kind == TopKind::Session(target),
    ensures
        slot_beside(entries, target, position) == if k < entries.len() && position
            == ProfileDropPosition::After {
            k + 1
        } else {
            k
        },
    decreases entries.len(),
{
    if entries.len() > 0 && k > 0 {
        assert(entries[0].kind != TopKind::Session(target));
        assert forall|i: int| 0 <= i < k - 1 implies (
        #[trigger] entries.drop_first()[i]).kind != TopKind::Session(target) by {
            assert(entries.drop_first()[i] == entries[i + 1]);
        }
        lemma_slot_beside(entries.drop_first(), target, position, k - 1);
    }
}

fn find_slot_beside(
    entries: &Vec<TopEntry>,
    target: ProfileId,
    position: ProfileDropPosition,
) -> (r: usize)
    ensures
        r == slot_beside(entries@, target, position),
        r <= entries@.len(),
{
    let mut i: usize = 0;
    while i < entries.len()
        invariant
            i <= entries.len(),
            forall|j: int| 0 <= j < i ==> (#[trigger] entries@[j]).kind != TopKind::Session(target),
        decreases entries.len() - i,
    {
        if entries[i].kind == TopKind::Session(target) {
            proof {
                lemma_slot_beside(entries@, target, position, i as int);
            }
            return if position == ProfileDropPosition::After {
                i + 1
            } else {
                i
            };
        }
        i += 1;
    }
    proof {
        lemma_slot_beside(entries@, target, position, i as int);
    }
    i
}

/// Whether the session with this identity is in no group, or does not exist.
pub open spec fn ungrouped(profiles: Seq<ConnectionProfile>, id: ProfileId) -> bool {
    match found_at(profiles, id) {
        Some(k) => blank(profiles[k].group@),
        None => true,
    }
}

fn is_ungrouped(profiles: &Vec<ConnectionProfile>, id: ProfileId) -> (r: bool)
    ensures
        r == ungrouped(profiles@, id),
{
    match find_profile(profiles, id) {
        Some(k) => is_blank(profiles[k].group.as_str()),
        None => true,
    }
}

/// The slot of the top level that the end of a drag leads to, where it leads to
/// one.
pub open spec fn committed_slot(
    drag: &ProfileDrag,
    profiles: Seq<ConnectionProfile>,
    entries: Seq<TopEntry>,
) -> Option<int> {
    if drag.dragged is None || !drag.active || drag.from_grid {
        None
    } else {
        match drag.drop {
            Some(ProfileDrop::TopLevel) => Some(0),
            Some(ProfileDrop::BottomLevel) => Some(entries.len() as int),
            Some(ProfileDrop::Beside { profile_id, position }) => if Some(profile_id)
                != drag.dragged && ungrouped(profiles, profile_id) {
                Some(slot_beside(entries, profile_id, position))
            } else {
                None
            },
            _ => None,
        }
    }
}

/// What the end of a drag does. The grid and the tree keep apart: a drag that
/// began on a card changes the grid's order or a group and never the tree's
/// order, and a drag in the tree never changes the grid's.
pub open spec fn drag_commit(
    drag: &ProfileDrag,
    profiles: Seq<ConnectionProfile>,
    entries: Seq<TopEntry>,
) -> DragCommit {
    match drag.dragged {
        None => DragCommit::Nothing,
        Some(source) => if !drag.active {
            DragCommit::Settle
        } else {
            match committed_slot(drag, profiles, entries) {
                Some(slot) => DragCommit::TopLevel {
                    source,
                    order: key_midway(entries, slot) as i32,
                },
                None => match drag.drop {
                    Some(ProfileDrop::IntoGroup(group)) => DragCommit::IntoGroup { source, group },
                    Some(ProfileDrop::Beside { profile_id, position }) => if profile_id == source {
                        DragCommit::Ignored
                    } else if drag.from_grid {
                        DragCommit::Grid { source }
                    } else {
                        DragCommit::Beside { source, target: profile_id, position }
                    },
                    _ => DragCommit::Ignored,
                },
            }
        },
    }
}

/// Whether the end of a drag changes the grid's order.
pub open spec fn commits_grid(drag: &ProfileDrag) -> bool {
    drag.active && drag.from_grid && drag.dragged is Some && (drag.drop matches Some(
        ProfileDrop::Beside { profile_id, .. },
    ) && profile_id != drag.dragged->0)
}

/// The grid's order after a drag.
pub open spec fn grid_after(
    drag: &ProfileDrag,
    profiles: Seq<ConnectionProfile>,
    order: Seq<ProfileId>,
) -> Seq<ProfileId> {
    if commits_grid(drag) {
        match drag.drop {
            Some(ProfileDrop::Beside { profile_id, position }) => match put_beside(
                ids(grid_sorted(profiles, order)),
                drag.dragged->0,
                profile_id,
                position,
            ) {
                Some(moved) => moved,
                None => order,
            },
            _ => order,
        }
    } else {
        order
    }
}

fn entries_around(profiles: &Vec<ConnectionProfile>, groups: &Vec<String>, source: ProfileId) -> (r:
    Vec<TopEntry>)
    requires
        shown_folders(texts(groups@), profiles@).len() * TOP_LEVEL_STEP <= i32::MAX,
    ensures
        r@ == top_level(
            profiles@,
            shown_folders(texts(groups@), profiles@).len(),
            Some(source),
        ),
{
    let folders: Vec<String> = sidebar_group_names(groups, profiles);
    top_level_entries(profiles, folders.len(), Some(source))
}

/// Whether there is room for the folders in the order of the top level, and for one more
/// key in the slot of it that a drag would fill.
pub open spec fn drag_has_room(
    drag: &ProfileDrag,
    profiles: Seq<ConnectionProfile>,
    groups: Seq<Seq<char>>,
) -> bool {
    let folders = shown_folders(groups, profiles).len();
    let entries = top_level(profiles, folders, drag.dragged);
    committed_slot(drag, profiles, entries) matches Some(slot) ==> folders * TOP_LEVEL_STEP
        <= i32::MAX && slot_fits(entries, slot)
}

fn slot_has_room(entries: &Vec<TopEntry>, index: usize) -> (r: bool)
    requires
        index <= entries@.len(),
    ensures
        r == slot_fits(entries@, index as int),
{
    let prev: i64 = if index > 0 {
        entries[index - 1].key as i64
    } else if entries.len() > 0 {
        entries[0].key as i64 - TOP_LEVEL_STEP as i64
    } else {
        0
    };
    let next: i64 = if index < entries.len() {
        entries[index].key as i64
    } else if entries.len() > 0 {
        entries[entries.len() - 1].key as i64 + TOP_LEVEL_STEP as i64
    } else {
        TOP_LEVEL_STEP as i64
    };
    i32::MIN as i64 <= prev && prev <= i32::MAX as i64 && i32::MIN as i64 <= next && next
        <= i32::MAX as i64 && prev <= next && next - prev <= i32::MAX as i64
}

/// Whether a drag can end: only one that gives a session a new place at the top level
/// asks for room there.
pub fn drag_can_end(
    drag: &ProfileDrag,
    profiles: &Vec<ConnectionProfile>,
    groups: &Vec<String>,
) -> (r: bool)
    ensures
        r == drag_has_room(drag, profiles@, texts(groups@)),
{
    let source: ProfileId = match drag.dragged {
        Some(source) => source,
        None => {
            return true;
        },
    };
    if !drag.active || drag.from_grid {
        return true;
    }
    let beside: bool = match &drag.drop {
        Some(ProfileDrop::TopLevel) | Some(ProfileDrop::BottomLevel) => true,
        Some(ProfileDrop::Beside { profile_id, .. }) => *profile_id != source && is_ungrouped(
            profiles,
            *profile_id,
        ),
        _ => false,
    };
    if !beside {
        return true;
    }
    let folders: usize = sidebar_group_names(groups, profiles).len();
    if folders > (i32::MAX / TOP_LEVEL_STEP) as usize {
        return false;
    }
    let entries: Vec<TopEntry> = entries_around(profiles, groups, source);
    let slot: usize = match &drag.drop {
        Some(ProfileDrop::TopLevel) => 0,
        Some(ProfileDrop::Beside { profile_id, position }) => find_slot_beside(
            &entries,
            *profile_id,
            *position,
        ),
        _ => entries.len(),
    };
    slot_has_room(&entries, slot)
}

/// Ends a drag: says what becomes of the session that was held, and changes the
/// grid's order where the drag was one of the grid. A press without a real drag
/// moves nothing.
pub fn finish_profile_drag(
    drag: &mut ProfileDrag,
    profiles: &Vec<ConnectionProfile>,
    groups: &Vec<String>,
    grid_order: &mut Vec<ProfileId>,
) -> (r: DragCommit)
    requires
        drag_has_room(old(drag), profiles@, texts(groups@)),
    ensures
        final(drag).dragged is None,
        !final(drag).active,
        final(drag).drop is None,
        final(drag).from_grid == old(drag).from_grid,
        r == drag_commit(
            old(drag),
            profiles@,
            top_level(
                profiles@,
                shown_folders(texts(groups@), profiles@).len(),
                old(drag).dragged,
            ),
        ),
        final(grid_order)@ == grid_after(old(drag), profiles@, old(grid_order)@),
{
    let was_active: bool = drag.active;
    let from_grid: bool = drag.from_grid;
    drag.active = false;
    let held: Option<ProfileId> = drag.dragged;
    drag.dragged = None;
    let drop: Option<ProfileDrop> = drag.drop.take();
    let source: ProfileId = match held {
        Some(source) => source,
        None => {
            return DragCommit::Nothing;
        },
    };
    if !was_active {
        return DragCommit::Settle;
    }
    match drop {
        Some(ProfileDrop::IntoGroup(group)) => DragCommit::IntoGroup { source, group },
        Some(ProfileDrop::TopLevel) => {
            if from_grid {
                return DragCommit::Ignored;
            }
            let entries: Vec<TopEntry> = entries_around(profiles, groups, source);
            DragCommit::TopLevel { source, order: place_ungrouped_at(&entries, 0) }
        },
        Some(ProfileDrop::BottomLevel) => {
            if from_grid {
                return DragCommit::Ignored;
            }
            let entries: Vec<TopEntry> = entries_around(profiles, groups, source);
            DragCommit::TopLevel { source, order: place_ungrouped_at(&entries, entries.len()) }
        },
        Some(ProfileDrop::Beside { profile_id, position }) => {
            if profile_id == source {
                return DragCommit::Ignored;
            }
            if from_grid {
                reorder_grid(profiles, grid_order, source, profile_id, position);
                return DragCommit::Grid { source };
            }
            if is_ungrouped(profiles, profile_id) {
                let entries: Vec<TopEntry> = entries_around(profiles, groups, source);
                let slot: usize = find_slot_beside(&entries, profile_id, position);
                return DragCommit::TopLevel { source, order: place_ungrouped_at(&entries, slot) };
            }
            DragCommit::Beside { source, target: profile_id, position }
        },
        None => DragCommit::Ignored,
    }
}

/// The session that a drag moved, and whether what is written of the sessions changes
/// with it: a drag of the grid only changes the grid's own order.
pub fn drag_source(commit: &DragCommit) -> (r: Option<(ProfileId, bool)>)
    ensures
        r == match commit {
            DragCommit::Nothing | DragCommit::Settle | DragCommit::Ignored => None,
            DragCommit::Grid { source } => Some((*source, false)),
            DragCommit::IntoGroup { source, .. } => Some((*source, true)),
            DragCommit::TopLevel { source, .. } => Some((*source, true)),
            DragCommit::Beside { source, .. } => Some((*source, true)),
        },
{
    match commit {
        DragCommit::Nothing | DragCommit::Settle | DragCommit::Ignored => None,
        DragCommit::Grid { source } => Some((*source, false)),
        DragCommit::IntoGroup { source, .. } => Some((*source, true)),
        DragCommit::TopLevel { source, .. } => Some((*source, true)),
        DragCommit::Beside { source, .. } => Some((*source, true)),
    }
}

/// A drag that began on a card of the grid never changes the order of the tree,
/// whatever it ends on.
pub proof fn law_a_grid_drag_does_not_move_the_tree(
    drag: &ProfileDrag,
    profiles: Seq<ConnectionProfile>,
    entries: Seq<TopEntry>,
)
    requires
        drag.from_grid,
    ensures
        !(drag_commit(drag, profiles, entries) is TopLevel),
        !(drag_commit(drag, profiles, entries) is Beside),
{
}

/// A drag in the tree never changes the order of the grid, whatever it ends on.
pub proof fn law_a_tree_drag_does_not_move_the_grid(
    drag: &ProfileDrag,
    profiles: Seq<ConnectionProfile>,
    order: Seq<ProfileId>,
)
    requires
        !drag.from_grid,
    ensures
        grid_after(drag, profiles, order) == order,
{
}

/// A click moves nothing.
pub proof fn law_a_click_moves_nothing(
    drag: &ProfileDrag,
    profiles: Seq<ConnectionProfile>,
    entries: Seq<TopEntry>,
    order: Seq<ProfileId>,
)
    requires
        !drag.active,
    ensures
        drag_commit(drag, profiles, entries) is Nothing || drag_commit(
            drag,
            profiles,
            entries,
        ) is Settle,
        grid_after(drag, profiles, order) == order,
{
}

// What a row of the tree shows.

/// Half the height of a row of the tree.
pub const ROW_MIDDLE: i32 = 14;

/// On which side of a row of the tree a drop at this height lands.
pub fn profile_drop_position(y: i32) -> (r: ProfileDropPosition)
    ensures
        r == if y < ROW_MIDDLE {
            ProfileDropPosition::Before
        } else {
            ProfileDropPosition::After
        },
{
    if y < ROW_MIDDLE {
        ProfileDropPosition::Before
    } else {
        ProfileDropPosition::After
    }
}

/// Whether a row of the tree shows an insertion line above it and below it. A
/// drag of the grid shows none: it has nothing to do with the tree.
pub open spec fn row_lines(drag: &ProfileDrag, id: ProfileId) -> (bool, bool) {
    if !drag.active || drag.from_grid {
        (false, false)
    } else {
        match drag.drop {
            Some(ProfileDrop::Beside { profile_id, position }) => if profile_id == id {
                (
                    position == ProfileDropPosition::Before,
                    position == ProfileDropPosition::After,
                )
            } else {
                (false, false)
            },
            _ => (false, false),
        }
    }
}

/// Whether a row of the tree shows an insertion line above it and below it.
pub fn row_drop_lines(drag: &ProfileDrag, id: ProfileId) -> (r: (bool, bool))
    ensures
        r == row_lines(drag, id),
{
    if !drag.active || drag.from_grid {
        return (false, false);
    }
    match &drag.drop {
        Some(ProfileDrop::Beside { profile_id, position }) => if *profile_id == id {
            match position {
                ProfileDropPosition::Before => (true, false),
                ProfileDropPosition::After => (false, true),
            }
        } else {
            (false, false)
        },
        _ => (false, false),
    }
}

proof fn lemma_entry_inserted(sorted: Seq<TopEntry>, x: TopEntry)
    requires
        forall|i: int, j: int|
            0 <= i < j < sorted.len() ==> (#[trigger] sorted[i]).key <= (#[trigger] sorted[j]).key,
    ensures
        ({
            let all = entry_inserted(sorted, x);
            &&& all.len() == sorted.len() + 1
            &&& all.to_multiset() == sorted.to_multiset().insert(x)
            &&& forall|i: int, j: int|
                0 <= i < j < all.len() ==> (#[trigger] all[i]).key <= (#[trigger] all[j]).key
            &&& forall|i: int|
                0 <= i < all.len() ==> (#[trigger] all[i]).key <= x.key || all[i].key
                    <= sorted.last().key
        }),
    decreases sorted.len(),
{
    let all = entry_inserted(sorted, x);
    sorted.to_multiset_ensures();
    if sorted.len() > 0 && x.key < sorted.last().key {
        let head = sorted.drop_last();
        let l = sorted.last();
        lemma_entry_inserted(head, x);
        let inner = entry_inserted(head, x);
        inner.to_multiset_ensures();
        head.to_multiset_ensures();
        assert(head.push(l) =~= sorted);
        assert(all.to_multiset() =~= sorted.to_multiset().insert(x));
        assert forall|i: int, j: int| 0 <= i < j < all.len() implies (#[trigger] all[i]).key <= (
        #[trigger] all[j]).key by {
            assert(all[i] == inner[i]);
            if j < inner.len() {
                assert(all[j] == inner[j]);
            } else if head.len() > 0 {
                assert(head.last() == sorted[sorted.len() - 2]);
                assert(sorted[sorted.len() - 2].key <= sorted[sorted.len() - 1].key);
            }
        }
    } else {
        assert forall|i: int, j: int| 0 <= i < j < all.len() implies (#[trigger] all[i]).key <= (
        #[trigger] all[j]).key by {
            assert(all[i] == sorted[i]);
            if j < sorted.len() {
                assert(all[j] == sorted[j]);
            } else if i < sorted.len() - 1 {
                assert(sorted[i].key <= sorted[sorted.len() - 1].key);
            }
        }
        assert forall|i: int| 0 <= i < all.len() implies (#[trigger] all[i]).key <= x.key || all[i].key
            <= sorted.last().key by {
            if i < sorted.len() - 1 {
                assert(all[i] == sorted[i]);
                assert(sorted[i].key <= sorted[sorted.len() - 1].key);
            }
        }
    }
}

/// The top level shows every entry once, by their keys from the least to the greatest.
pub proof fn law_the_top_level_goes_by_its_keys(entries: Seq<TopEntry>)
    ensures
        entries_sorted(entries).to_multiset() == entries.to_multiset(),
        entries_sorted(entries).len() == entries.len(),
        forall|i: int, j: int|
            0 <= i < j < entries.len() ==> (#[trigger] entries_sorted(entries)[i]).key <= (
            #[trigger] entries_sorted(entries)[j]).key,
    decreases entries.len(),
{
    if entries.len() > 0 {
        let head = entries.drop_last();
        law_the_top_level_goes_by_its_keys(head);
        lemma_entry_inserted(entries_sorted(head), entries.last());
        head.to_multiset_ensures();
        assert(head.push(entries.last()) =~= entries);
    } else {
        assert(entries_sorted(entries) =~= entries);
    }
}

proof fn lemma_ties_kept(sorted: Seq<TopEntry>, x: TopEntry, key: i32)
    ensures
        entry_inserted(sorted, x).filter(|e: TopEntry| e.key == key) == if x.key == key {
            sorted.filter(|e: TopEntry| e.key == key).push(x)
        } else {
            sorted.filter(|e: TopEntry| e.key == key)
        },
    decreases sorted.len(),
{
    reveal(Seq::filter);
    if sorted.len() > 0 && x.key < sorted.last().key {
        let inner = entry_inserted(sorted.drop_last(), x);
        lemma_ties_kept(sorted.drop_last(), x, key);
        assert(inner.push(sorted.last()).drop_last() =~= inner);
    } else {
        assert(sorted.push(x).drop_last() =~= sorted);
    }
}

/// Entries with the same key keep the order in which they came: sessions before folders.
pub proof fn law_entries_with_one_key_keep_their_order(entries: Seq<TopEntry>, key: i32)
    ensures
        entries_sorted(entries).filter(|e: TopEntry| e.key == key) == entries.filter(
            |e: TopEntry| e.key == key,
        ),
    decreases entries.len(),
{
    reveal(Seq::filter);
    if entries.len() > 0 {
        law_entries_with_one_key_keep_their_order(entries.drop_last(), key);
        lemma_ties_kept(entries_sorted(entries.drop_last()), entries.last(), key);
    }
}

/// At the top level stand the sessions that are in no folder, each with the position it was
/// given, but for the one that is left out; and the folders, a hundred thousand apart.
pub proof fn law_these_stand_at_the_top_level(
    profiles: Seq<ConnectionProfile>,
    exclude: Option<ProfileId>,
    folders: nat,
)
    requires
        folders * 100_000 <= i32::MAX,
    ensures
        ({
            let here = profiles.filter(
                |p: ConnectionProfile| blank(p.group@) && exclude != Some(p.id),
            );
            let loose = loose_entries(profiles, exclude);
            &&& loose.len() == here.len()
            &&& forall|k: int|
                0 <= k < loose.len() ==> (#[trigger] loose[k]).key == here[k].sort_order
                    && loose[k].kind == TopKind::Session(here[k].id)
        }),
        folder_entries(folders).len() == folders,
        forall|i: int|
            0 <= i < folders && i <= usize::MAX ==> (#[trigger] folder_entries(folders)[i]).key == 100_000
                * (i + 1) && folder_entries(folders)[i].kind == TopKind::Folder(i as usize),
    decreases profiles.len(),
{
    reveal(Seq::filter);
    if profiles.len() > 0 {
        law_these_stand_at_the_top_level(profiles.drop_last(), exclude, folders);
    }
    assert forall|i: int| 0 <= i < folders && i <= usize::MAX implies (
    #[trigger] folder_entries(folders)[i]).key == 100_000 * (i + 1) by {
        assert((i + 1) * 100_000 <= folders * 100_000) by (nonlinear_arith)
            requires
                i + 1 <= folders,
        ;
    }
}

/// The slot beside a session is its own place or the one after it, as the drop says.
pub proof fn law_the_slot_beside_a_session(
    entries: Seq<TopEntry>,
    target: ProfileId,
    k: int,
)
    requires
        0 <= k < entries.len(),
        entries[k].kind == TopKind::Session(target),
        forall|i: int| 0 <= i < k ==> (#[trigger] entries[i]).kind != TopKind::Session(target),
    ensures
        slot_beside(entries, target, ProfileDropPosition::Before) == k,
        slot_beside(entries, target, ProfileDropPosition::After) == k + 1,
{
    lemma_slot_beside(entries, target, ProfileDropPosition::Before, k);
    lemma_slot_beside(entries, target, ProfileDropPosition::After, k);
}

/// A session that is dropped above everything gets a key below that of every entry, and one
/// that is dropped below everything a key above that of every entry.
pub proof fn law_the_ends_of_the_top_level_are_outside(entries: Seq<TopEntry>, i: int)
    requires
        0 <= i < entries.len(),
        forall|a: int, b: int|
            0 <= a < b < entries.len() ==> (#[trigger] entries[a]).key <= (#[trigger] entries[b]).key,
    ensures
        key_midway(entries, 0) < entries[i].key,
        key_midway(entries, entries.len() as int) > entries[i].key,
{
    let n = entries.len() as int;
    if i > 0 {
        assert(entries[0].key <= entries[i].key);
    }
    if i < n - 1 {
        assert(entries[i].key <= entries[n - 1].key);
    }
}

/// A drag that ends on a folder puts the session into it; one of the tree that ends at an
/// edge, or beside a session that is in no folder, gives it a place at the top level; one
/// that ends beside a session in a folder puts it there. A click changes nothing, and
/// neither does a drag that ends on itself or nowhere.
pub proof fn law_a_drag_does_what_it_ends_on(
    source: ProfileId,
    target: ProfileId,
    position: ProfileDropPosition,
    group: String,
    profiles: Seq<ConnectionProfile>,
    entries: Seq<TopEntry>,
)
    ensures
        ({
            let over = |from_grid: bool, drop: Option<ProfileDrop>|
                ProfileDrag { dragged: Some(source), active: true, from_grid, drop };
            let beside = Some(ProfileDrop::Beside { profile_id: target, position });
            &&& forall|from_grid: bool|
                #![trigger over(from_grid, Some(ProfileDrop::IntoGroup(group)))]
                drag_commit(
                    &over(from_grid, Some(ProfileDrop::IntoGroup(group))),
                    profiles,
                    entries,
                ) == (DragCommit::IntoGroup { source, group })
            &&& drag_commit(&over(false, Some(ProfileDrop::TopLevel)), profiles, entries) == (
            DragCommit::TopLevel { source, order: key_midway(entries, 0) as i32 })
            &&& drag_commit(&over(false, Some(ProfileDrop::BottomLevel)), profiles, entries) == (
            DragCommit::TopLevel { source, order: key_midway(entries, entries.len() as int) as i32 })
            &&& target != source && !ungrouped(profiles, target) ==> drag_commit(
                &over(false, beside),
                profiles,
                entries,
            ) == (DragCommit::Beside { source, target, position })
            &&& target != source && ungrouped(profiles, target) ==> drag_commit(
                &over(false, beside),
                profiles,
                entries,
            ) == (DragCommit::TopLevel {
                source,
                order: key_midway(entries, slot_beside(entries, target, position)) as i32,
            })
            &&& target != source ==> drag_commit(&over(true, beside), profiles, entries) == (
            DragCommit::Grid { source })
            &&& target == source ==> drag_commit(&over(true, beside), profiles, entries) is Ignored
            &&& target == source ==> drag_commit(&over(false, beside), profiles, entries) is Ignored
            &&& drag_commit(&over(true, None), profiles, entries) is Ignored
            &&& drag_commit(&over(true, Some(ProfileDrop::TopLevel)), profiles, entries) is Ignored
        }),
{
}

/// A row of the tree shows the line on the side on which a drag of the tree would land
/// beside it, and no line otherwise.
pub proof fn law_the_line_is_on_the_side_of_the_drop(drag: &ProfileDrag, id: ProfileId)
    ensures
        ({
            let aims = drag.active && !drag.from_grid && (drag.drop matches Some(
                ProfileDrop::Beside { profile_id, .. },
            ) && profile_id == id);
            &&& !aims ==> row_lines(drag, id) == (false, false)
            &&& aims ==> (drag.drop matches Some(ProfileDrop::Beside { position, .. }) && row_lines(
                drag,
                id,
            ) == (position == ProfileDropPosition::Before, position == ProfileDropPosition::After))
        }),
{
}

} // verus!

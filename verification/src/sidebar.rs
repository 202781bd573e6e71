//! The sidebar: the rows of its tree, the marks of its sessions and its menus.

use vstd::prelude::*;
use vstd::string::*;

use crate::grid::{ProfileDrag, ProfileDrop};
use crate::groups::{
    folder_reorder_lines, group_names, groups_from_catalog, is_text, maybe_text, merge_folders,
    reorder_lines, shown_folders,
};
use crate::profile::{
    in_range, law_tree_shows_every_session_in_order, lowered_contains, matches_filter, mentions,
    picked, profile_matches_filter,
    same_profile, tree_order, tree_sorted, ConnectionProfile, ProfileId,
};
use crate::style::SessionStatus;
use crate::text::{
    alphanumeric, ascii_lowered, ascii_lowered_chars, blank, chars_of, holds, is_alphanumeric,
    is_blank, same, string_of, texts, trim, trimmed, uppercase, uppercase_of,
};
use crate::tree::{
    entries_sorted, entry_inserted, folder_entries, law_the_top_level_goes_by_its_keys,
    row_drop_lines, row_lines, sort_entries, TopEntry, TopKind,
    TOP_LEVEL_STEP,
};

verus! {

// Avatars.

/// Whether a run of letters and digits starts at a position.
pub open spec fn starts_run(name: Seq<char>, i: int) -> bool {
    alphanumeric(name[i]) && (i == 0 || !alphanumeric(name[i - 1]))
}

/// The characters at which runs of letters and digits start, among the first `n`.
pub open spec fn run_starts(name: Seq<char>, n: int) -> Seq<char>
    decreases n,
{
    if n <= 0 {
        Seq::empty()
    } else if starts_run(name, n - 1) {
        run_starts(name, n - 1).push(name[n - 1])
    } else {
        run_starts(name, n - 1)
    }
}

/// The first characters of the first two runs of letters and digits; a question
/// mark where there is none.
pub open spec fn initials(name: Seq<char>) -> Seq<char> {
    let starts = run_starts(name, name.len() as int);
    if starts.len() == 0 {
        seq!['?']
    } else if starts.len() > 2 {
        starts.take(2)
    } else {
        starts
    }
}

/// The mark of a session: the initials of its name, as capitals.
pub fn avatar_initials(name: &str) -> (r: String)
    ensures
        r@ == uppercase_of(initials(name@)),
{
    let chars: Vec<char> = chars_of(name);
    let mut starts: Vec<char> = Vec::new();
    let mut i: usize = 0;
    while i < chars.len()
        invariant
            i <= chars.len(),
            chars@ == name@,
            starts@ == run_starts(name@, i as int),
            starts@.len() <= i,
        decreases chars.len() - i,
    {
        if is_alphanumeric(chars[i]) && (i == 0 || !is_alphanumeric(chars[i - 1])) {
            starts.push(chars[i]);
        }
        i += 1;
    }
    if starts.len() == 0 {
        starts.push('?');
        assert(starts@ =~= initials(name@));
    } else if starts.len() > 2 {
        starts.truncate(2);
        assert(starts@ =~= initials(name@));
    }
    let plain: String = string_of(starts.as_slice());
    uppercase(plain.as_str())
}

// The tree.

/// What the tree reads besides the sessions and the folders.
pub struct TreeState {
    pub filter: String,
    pub drag: ProfileDrag,
    pub selected_profile: Option<ProfileId>,
    pub hovered_profile: Option<ProfileId>,
    /// The session whose name is being edited in its row.
    pub editing_profile: Option<ProfileId>,
    /// The folder whose name is being edited in its row.
    pub editing_group: Option<String>,
    pub collapsed_groups: Vec<String>,
    /// The folder that a session is dragged over.
    pub group_drop_target: Option<String>,
    pub group_drag_active: bool,
    pub dragged_group: Option<String>,
    /// The folder that another folder is dragged over.
    pub group_drop: Option<String>,
}

/// A row of the tree. A folder is named by its position among the folders.
#[derive(Debug, Clone, Copy, PartialEq, Eq, Structural)]
pub enum TreeRow {
    /// Where a session can be dropped above everything.
    TopZone { targeted: bool },
    /// Where a session can be dropped below everything.
    BottomZone { targeted: bool },
    /// The line that shows where a drop lands.
    DropLine,
    Session { id: ProfileId, selected: bool, hovered: bool },
    SessionEdit { id: ProfileId },
    Folder { folder: usize, collapsed: bool, count: usize, drop_target: bool },
    FolderEdit { folder: usize, collapsed: bool },
}

impl TreeState {
    /// What is looked for: what was typed, without blanks around it and without
    /// regard to ASCII case.
    pub open spec fn needle(&self) -> Seq<char> {
        ascii_lowered(trimmed(self.filter@))
    }

    /// Whether the tree shows marks of a drag: only for one of its own.
    pub open spec fn zones(&self) -> bool {
        self.drag.active && !self.drag.from_grid
    }
}

/// One line where there is one.
pub open spec fn line_if(shown: bool) -> Seq<TreeRow> {
    if shown {
        seq![TreeRow::DropLine]
    } else {
        Seq::empty()
    }
}

/// The rows of a session: a field while its name is edited, and otherwise its row,
/// with the line of a drop above or below.
pub open spec fn session_rows(state: &TreeState, id: ProfileId) -> Seq<TreeRow> {
    if state.editing_profile == Some(id) {
        seq![TreeRow::SessionEdit { id }]
    } else {
        let lines = row_lines(&state.drag, id);
        line_if(lines.0) + seq![
            TreeRow::Session {
                id,
                selected: state.selected_profile == Some(id),
                hovered: state.hovered_profile == Some(id),
            },
        ] + line_if(lines.1)
    }
}

/// The rows of sessions, one after the other.
pub open spec fn sessions_rows(state: &TreeState, ids: Seq<ProfileId>) -> Seq<TreeRow>
    decreases ids.len(),
{
    if ids.len() == 0 {
        Seq::empty()
    } else {
        sessions_rows(state, ids.drop_last()) + session_rows(state, ids.last())
    }
}

/// The sessions of a folder that are shown: all of them, or those that the filter
/// finds.
pub open spec fn shown_members(
    sorted: Seq<ConnectionProfile>,
    group: Seq<char>,
    needle: Seq<char>,
    all: bool,
) -> Seq<ProfileId>
    decreases sorted.len(),
{
    if sorted.len() == 0 {
        Seq::empty()
    } else {
        let before = shown_members(sorted.drop_last(), group, needle, all);
        let last = sorted.last();
        if last.group@ == group && (all || matches_filter(&last, needle)) {
            before.push(last.id)
        } else {
            before
        }
    }
}

/// How many sessions a folder has.
pub open spec fn member_count(sorted: Seq<ConnectionProfile>, group: Seq<char>) -> nat
    decreases sorted.len(),
{
    if sorted.len() == 0 {
        0
    } else {
        member_count(sorted.drop_last(), group) + if sorted.last().group@ == group {
            1nat
        } else {
            0
        }
    }
}

/// The rows of a folder: its heading, and below it its sessions where it is not
/// folded. A filter unfolds every folder, and leaves out those in which it finds
/// nothing.
pub open spec fn folder_rows(
    state: &TreeState,
    sorted: Seq<ConnectionProfile>,
    folders: Seq<Seq<char>>,
    at: int,
) -> Seq<TreeRow> {
    let group = folders[at];
    let needle = state.needle();
    let filtering = needle.len() > 0;
    let named = filtering && mentions(group, needle);
    let members = shown_members(sorted, group, needle, !filtering || named);
    if filtering && !named && members.len() == 0 {
        Seq::empty()
    } else {
        let collapsed = texts(state.collapsed_groups@).contains(group) && !filtering;
        let editing = maybe_text(state.editing_group) == Some(group);
        let lines = if editing {
            (false, false)
        } else {
            reorder_lines(
                state.group_drag_active,
                maybe_text(state.dragged_group),
                maybe_text(state.group_drop),
                folders,
                group,
            )
        };
        line_if(lines.0) + seq![
            if editing {
                TreeRow::FolderEdit { folder: at as usize, collapsed }
            } else {
                TreeRow::Folder {
                    folder: at as usize,
                    collapsed,
                    count: member_count(sorted, group) as usize,
                    drop_target: maybe_text(state.group_drop_target) == Some(group),
                }
            },
        ] + (if collapsed {
            Seq::empty()
        } else {
            sessions_rows(state, members)
        }) + line_if(lines.1)
    }
}

/// The sessions that are in no folder and that the filter finds.
pub open spec fn loose_shown(sorted: Seq<ConnectionProfile>, needle: Seq<char>) -> Seq<TopEntry>
    decreases sorted.len(),
{
    if sorted.len() == 0 {
        Seq::empty()
    } else {
        let before = loose_shown(sorted.drop_last(), needle);
        let last = sorted.last();
        if blank(last.group@) && matches_filter(&last, needle) {
            before.push(TopEntry { key: last.sort_order, kind: TopKind::Session(last.id) })
        } else {
            before
        }
    }
}

/// The rows of an entry of the top level.
pub open spec fn entry_rows(
    state: &TreeState,
    sorted: Seq<ConnectionProfile>,
    folders: Seq<Seq<char>>,
    entry: TopEntry,
) -> Seq<TreeRow> {
    match entry.kind {
        TopKind::Session(id) => session_rows(state, id),
        TopKind::Folder(at) => folder_rows(state, sorted, folders, at as int),
    }
}

/// The rows of entries of the top level, one after the other.
pub open spec fn entries_rows(
    state: &TreeState,
    sorted: Seq<ConnectionProfile>,
    folders: Seq<Seq<char>>,
    entries: Seq<TopEntry>,
) -> Seq<TreeRow>
    decreases entries.len(),
{
    if entries.len() == 0 {
        Seq::empty()
    } else {
        entries_rows(state, sorted, folders, entries.drop_last()) + entry_rows(
            state,
            sorted,
            folders,
            entries.last(),
        )
    }
}

/// The zone above everything, while a session of the tree is dragged.
pub open spec fn top_zone(state: &TreeState) -> Seq<TreeRow> {
    if state.zones() {
        seq![TreeRow::TopZone { targeted: state.drag.drop == Some(ProfileDrop::TopLevel) }]
    } else {
        Seq::empty()
    }
}

/// The zone below everything, while a session of the tree is dragged.
pub open spec fn bottom_zone(state: &TreeState) -> Seq<TreeRow> {
    if state.zones() {
        seq![TreeRow::BottomZone { targeted: state.drag.drop == Some(ProfileDrop::BottomLevel) }]
    } else {
        Seq::empty()
    }
}

/// The rows of the tree: ungrouped sessions and folders, interleaved by their
/// positions, between the zones that a drag can be dropped on.
pub open spec fn tree_rows(
    state: &TreeState,
    profiles: Seq<ConnectionProfile>,
    folders: Seq<Seq<char>>,
) -> Seq<TreeRow> {
    let sorted = tree_sorted(profiles);
    top_zone(state) + entries_rows(
        state,
        sorted,
        folders,
        entries_sorted(loose_shown(sorted, state.needle()) + folder_entries(folders.len())),
    ) + bottom_zone(state)
}

// Building it.

fn push_line(rows: &mut Vec<TreeRow>, shown: bool)
    ensures
        final(rows)@ == old(rows)@ + line_if(shown),
{
    if shown {
        rows.push(TreeRow::DropLine);
        assert(rows@ =~= old(rows)@ + line_if(shown));
    } else {
        assert(rows@ =~= old(rows)@ + line_if(shown));
    }
}

fn push_session(state: &TreeState, rows: &mut Vec<TreeRow>, id: ProfileId)
    ensures
        final(rows)@ == old(rows)@ + session_rows(state, id),
{
    if same_profile(state.editing_profile, id) {
        rows.push(TreeRow::SessionEdit { id });
        assert(rows@ =~= old(rows)@ + session_rows(state, id));
        return;
    }
    let lines: (bool, bool) = row_drop_lines(&state.drag, id);
    push_line(rows, lines.0);
    rows.push(
        TreeRow::Session {
            id,
            selected: same_profile(state.selected_profile, id),
            hovered: same_profile(state.hovered_profile, id),
        },
    );
    push_line(rows, lines.1);
    assert(rows@ =~= old(rows)@ + session_rows(state, id));
}

fn members_of(
    profiles: &Vec<ConnectionProfile>,
    order: &Vec<usize>,
    group: &str,
    needle: &str,
    all: bool,
) -> (r: (Vec<ProfileId>, usize))
    requires
        in_range(order@, profiles@.len() as int),
    ensures
        r.0@ == shown_members(picked(profiles@, order@), group@, needle@, all),
        r.1 == member_count(picked(profiles@, order@), group@),
{
    let mut members: Vec<ProfileId> = Vec::new();
    let mut count: usize = 0;
    let mut i: usize = 0;
    let ghost sorted = picked(profiles@, order@);
    while i < order.len()
        invariant
            i <= order.len(),
            in_range(order@, profiles@.len() as int),
            sorted == picked(profiles@, order@),
            members@ == shown_members(sorted.take(i as int), group@, needle@, all),
            count == member_count(sorted.take(i as int), group@),
            count <= i,
        decreases order.len() - i,
    {
        let profile: &ConnectionProfile = &profiles[order[i]];
        assert(sorted.take(i + 1).drop_last() =~= sorted.take(i as int));
        assert(sorted.take(i + 1).last() == *profile);
        if same(profile.group.as_str(), group) {
            count += 1;
            if all || profile_matches_filter(profile, needle) {
                members.push(profile.id);
            }
        }
        i += 1;
    }
    assert(sorted.take(i as int) =~= sorted);
    (members, count)
}

fn push_members(
    state: &TreeState,
    rows: &mut Vec<TreeRow>,
    members: &Vec<ProfileId>,
    collapsed: bool,
)
    ensures
        final(rows)@ == old(rows)@ + (if collapsed {
            Seq::empty()
        } else {
            sessions_rows(state, members@)
        }),
{
    let ghost headed = rows@;
    if !collapsed {
        let mut i: usize = 0;
        assert(rows@ =~= headed + sessions_rows(state, members@.take(0)));
        while i < members.len()
            invariant
                i <= members.len(),
                rows@ == headed + sessions_rows(state, members@.take(i as int)),
            decreases members.len() - i,
        {
            assert(members@.take(i + 1).drop_last() =~= members@.take(i as int));
            push_session(state, rows, members[i]);
            assert(rows@ =~= headed + sessions_rows(state, members@.take(i + 1)));
            i += 1;
        }
        assert(members@.take(i as int) =~= members@);
    } else {
        assert(rows@ =~= headed + Seq::empty());
    }
}

#[verifier::rlimit(40)]
fn push_folder(
    state: &TreeState,
    profiles: &Vec<ConnectionProfile>,
    order: &Vec<usize>,
    folders: &Vec<String>,
    at: usize,
    needle: &str,
    rows: &mut Vec<TreeRow>,
)
    requires
        in_range(order@, profiles@.len() as int),
        at < folders.len(),
        needle@ == state.needle(),
    ensures
        final(rows)@ == old(rows)@ + folder_rows(
            state,
            picked(profiles@, order@),
            texts(folders@),
            at as int,
        ),
{
    let ghost before = rows@;
    let ghost sorted = picked(profiles@, order@);
    let group: &str = folders[at].as_str();
    assert(texts(folders@)[at as int] == group@);
    let filtering: bool = !needle.is_empty();
    let named: bool = filtering && lowered_contains(group, needle);
    let (members, count): (Vec<ProfileId>, usize) = members_of(
        profiles,
        order,
        group,
        needle,
        !filtering || named,
    );
    if filtering && !named && members.len() == 0 {
        assert(rows@ =~= before + folder_rows(state, sorted, texts(folders@), at as int));
        return;
    }
    let collapsed: bool = holds(&state.collapsed_groups, group) && !filtering;
    let editing: bool = is_text(&state.editing_group, group);
    let lines: (bool, bool) = if editing {
        (false, false)
    } else {
        folder_reorder_lines(
            state.group_drag_active,
            &state.dragged_group,
            &state.group_drop,
            folders,
            group,
        )
    };
    push_line(rows, lines.0);
    rows.push(
        if editing {
            TreeRow::FolderEdit { folder: at, collapsed }
        } else {
            TreeRow::Folder {
                folder: at,
                collapsed,
                count,
                drop_target: is_text(&state.group_drop_target, group),
            }
        },
    );
    push_members(state, rows, &members, collapsed);
    push_line(rows, lines.1);
    assert(rows@ =~= before + folder_rows(state, sorted, texts(folders@), at as int));
}

fn shown_entries(
    profiles: &Vec<ConnectionProfile>,
    order: &Vec<usize>,
    folders: usize,
    needle: &str,
) -> (r: Vec<TopEntry>)
    requires
        in_range(order@, profiles@.len() as int),
        folders * TOP_LEVEL_STEP <= i32::MAX,
    ensures
        r@ == entries_sorted(
            loose_shown(picked(profiles@, order@), needle@) + folder_entries(folders as nat),
        ),
{
    let mut entries: Vec<TopEntry> = Vec::new();
    let mut i: usize = 0;
    let ghost sorted = picked(profiles@, order@);
    while i < order.len()
        invariant
            i <= order.len(),
            in_range(order@, profiles@.len() as int),
            sorted == picked(profiles@, order@),
            entries@ == loose_shown(sorted.take(i as int), needle@),
        decreases order.len() - i,
    {
        let profile: &ConnectionProfile = &profiles[order[i]];
        assert(sorted.take(i + 1).drop_last() =~= sorted.take(i as int));
        assert(sorted.take(i + 1).last() == *profile);
        if is_blank(profile.group.as_str()) && profile_matches_filter(profile, needle) {
            entries.push(TopEntry { key: profile.sort_order, kind: TopKind::Session(profile.id) });
        }
        i += 1;
    }
    assert(sorted.take(i as int) =~= sorted);
    let ghost loose = entries@;
    let mut k: usize = 0;
    assert(entries@ =~= loose + folder_entries(0));
    while k < folders
        invariant
            k <= folders,
            folders * TOP_LEVEL_STEP <= i32::MAX,
            entries@ == loose + folder_entries(k as nat),
        decreases folders - k,
    {
        assert((k + 1) * TOP_LEVEL_STEP <= folders * TOP_LEVEL_STEP) by (nonlinear_arith)
            requires
                k < folders,
                TOP_LEVEL_STEP == 100_000,
        ;
        entries.push(
            TopEntry { key: (k as i32 + 1) * TOP_LEVEL_STEP, kind: TopKind::Folder(k) },
        );
        assert(folder_entries((k + 1) as nat) =~= folder_entries(k as nat).push(
            folder_entries((k + 1) as nat)[k as int],
        ));
        assert(entries@ =~= loose + folder_entries((k + 1) as nat));
        k += 1;
    }
    sort_entries(entries)
}

/// Whether every folder among these entries is one of so many.
spec fn folders_below(entries: Seq<TopEntry>, count: nat) -> bool {
    forall|i: int|
        0 <= i < entries.len() ==> match (#[trigger] entries[i]).kind {
            TopKind::Folder(at) => at < count,
            TopKind::Session(_) => true,
        }
}

proof fn lemma_inserted_below(sorted: Seq<TopEntry>, entry: TopEntry, count: nat)
    requires
        folders_below(sorted, count),
        folders_below(seq![entry], count),
    ensures
        folders_below(entry_inserted(sorted, entry), count),
    decreases sorted.len(),
{
    assert(seq![entry][0] == entry);
    if sorted.len() > 0 && entry.key < sorted.last().key {
        assert(folders_below(sorted.drop_last(), count));
        lemma_inserted_below(sorted.drop_last(), entry, count);
    }
}

proof fn lemma_sorted_below(entries: Seq<TopEntry>, count: nat)
    requires
        folders_below(entries, count),
    ensures
        folders_below(entries_sorted(entries), count),
    decreases entries.len(),
{
    if entries.len() > 0 {
        assert(folders_below(entries.drop_last(), count));
        lemma_sorted_below(entries.drop_last(), count);
        assert(folders_below(seq![entries.last()], count));
        lemma_inserted_below(entries_sorted(entries.drop_last()), entries.last(), count);
    }
}

proof fn lemma_loose_are_sessions(sorted: Seq<ConnectionProfile>, needle: Seq<char>, count: nat)
    ensures
        folders_below(loose_shown(sorted, needle), count),
    decreases sorted.len(),
{
    if sorted.len() > 0 {
        lemma_loose_are_sessions(sorted.drop_last(), needle, count);
    }
}

fn folders_in_order(
    groups: &Vec<String>,
    profiles: &Vec<ConnectionProfile>,
    order: &Vec<usize>,
) -> (r: Vec<String>)
    requires
        in_range(order@, profiles@.len() as int),
    ensures
        texts(r@) == shown_folders(texts(groups@), picked(profiles@, order@)),
{
    let ghost sorted = picked(profiles@, order@);
    let mut names: Vec<String> = Vec::new();
    let mut i: usize = 0;
    while i < order.len()
        invariant
            i <= order.len(),
            in_range(order@, profiles@.len() as int),
            sorted == picked(profiles@, order@),
            names@.len() == i,
            forall|j: int| 0 <= j < i ==> (#[trigger] names@[j])@ == sorted[j].group@,
        decreases order.len() - i,
    {
        names.push(profiles[order[i]].group.clone());
        i += 1;
    }
    assert(texts(names@) =~= group_names(sorted));
    let none: Vec<ConnectionProfile> = Vec::new();
    assert(texts(names@) + group_names(none@) =~= group_names(sorted));
    let seen: Vec<String> = groups_from_catalog(names, &none);
    merge_folders(groups, &seen)
}

/// The tree.
pub struct SessionTree {
    pub folders: Vec<String>,
    pub rows: Vec<TreeRow>,
}

/// Whether the folders all have a key in the order of the tree.
pub fn tree_has_room(profiles: &Vec<ConnectionProfile>, groups: &Vec<String>) -> (r: bool)
    ensures
        r == (shown_folders(texts(groups@), tree_sorted(profiles@)).len() * TOP_LEVEL_STEP
            <= i32::MAX),
{
    let order: Vec<usize> = tree_order(profiles);
    let folders: Vec<String> = folders_in_order(groups, profiles, &order);
    assert(texts(folders@).len() == folders@.len());
    folders.len() <= (i32::MAX / TOP_LEVEL_STEP) as usize
}

/// The tree: ungrouped sessions and folders, interleaved by their positions. Its
/// folders are those that were arranged and those that only sessions name.
pub fn session_tree(
    state: &TreeState,
    profiles: &Vec<ConnectionProfile>,
    groups: &Vec<String>,
) -> (r: SessionTree)
    requires
        shown_folders(texts(groups@), tree_sorted(profiles@)).len() * TOP_LEVEL_STEP <= i32::MAX,
    ensures
        texts(r.folders@) == shown_folders(texts(groups@), tree_sorted(profiles@)),
        r.rows@ == tree_rows(state, profiles@, texts(r.folders@)),
{
    let order: Vec<usize> = tree_order(profiles);
    let folders: Vec<String> = folders_in_order(groups, profiles, &order);
    let typed: String = trim(state.filter.as_str());
    let needle_chars: Vec<char> = ascii_lowered_chars(typed.as_str());
    let needle: String = string_of(needle_chars.as_slice());
    assert(texts(folders@).len() == folders@.len());
    let entries: Vec<TopEntry> = shown_entries(profiles, &order, folders.len(), needle.as_str());
    let ghost sorted = tree_sorted(profiles@);
    let ghost names = texts(folders@);
    proof {
        let count = folders@.len();
        lemma_loose_are_sessions(sorted, needle@, count);
        let all = loose_shown(sorted, needle@) + folder_entries(count);
        assert(folders_below(all, count));
        lemma_sorted_below(all, count);
    }
    let mut rows: Vec<TreeRow> = Vec::new();
    let zones: bool = state.drag.active && !state.drag.from_grid;
    if zones {
        let targeted: bool = match &state.drag.drop {
            Some(ProfileDrop::TopLevel) => true,
            _ => false,
        };
        rows.push(TreeRow::TopZone { targeted });
    }
    assert(rows@ =~= top_zone(state));
    let ghost topped = rows@;
    let mut i: usize = 0;
    assert(rows@ =~= topped + entries_rows(state, sorted, names, entries@.take(0)));
    while i < entries.len()
        invariant
            i <= entries.len(),
            in_range(order@, profiles@.len() as int),
            sorted == picked(profiles@, order@),
            names == texts(folders@),
            needle@ == state.needle(),
            folders_below(entries@, folders@.len()),
            rows@ == topped + entries_rows(state, sorted, names, entries@.take(i as int)),
        decreases entries.len() - i,
    {
        assert(entries@.take(i + 1).drop_last() =~= entries@.take(i as int));
        let entry: TopEntry = entries[i];
        assert(entries@[i as int] == entry);
        match entry.kind {
            TopKind::Session(id) => push_session(state, &mut rows, id),
            TopKind::Folder(at) => push_folder(
                state,
                profiles,
                &order,
                &folders,
                at,
                needle.as_str(),
                &mut rows,
            ),
        }
        assert(rows@ =~= topped + entries_rows(state, sorted, names, entries@.take(i + 1)));
        i += 1;
    }
    assert(entries@.take(i as int) =~= entries@);
    if zones {
        let targeted: bool = match &state.drag.drop {
            Some(ProfileDrop::BottomLevel) => true,
            _ => false,
        };
        rows.push(TreeRow::BottomZone { targeted });
    }
    assert(rows@ =~= tree_rows(state, profiles@, names));
    SessionTree { folders, rows }
}

// Menus.

/// An item of a menu that opens at the pointer.
#[derive(Debug, Clone, Copy)]
pub struct MenuEntry {
    pub label: &'static str,
    pub action: ContextAction,
    pub destructive: bool,
    /// Whether a line is drawn above it.
    pub divided: bool,
}

/// What such an item does.
#[derive(Debug, Clone, Copy, PartialEq, Eq, Structural)]
pub enum ContextAction {
    Connect,
    Rename,
    Edit,
    Clone,
    Delete,
    NewSession,
    ToggleFold,
    DeleteFolder,
    Disconnect,
    Reconnect,
    CloneSession,
    Close,
}

/// What an item says and does.
pub open spec fn entry_view(entry: MenuEntry) -> (Seq<char>, ContextAction, bool, bool) {
    (entry.label@, entry.action, entry.destructive, entry.divided)
}

/// An item, with a line above it where it destroys something.
pub open spec fn item(label: Seq<char>, action: ContextAction, destructive: bool) -> (
    Seq<char>,
    ContextAction,
    bool,
    bool,
) {
    (label, action, destructive, destructive)
}

/// What the items of a menu say and do.
pub open spec fn menu_view(entries: Seq<MenuEntry>) -> Seq<
    (Seq<char>, ContextAction, bool, bool),
> {
    entries.map_values(|entry: MenuEntry| entry_view(entry))
}

fn menu_entry(label: &'static str, action: ContextAction, destructive: bool) -> (r: MenuEntry)
    ensures
        entry_view(r) == item(label@, action, destructive),
{
    MenuEntry { label, action, destructive, divided: destructive }
}

/// The menu of a session.
pub fn profile_context_menu() -> (r: Vec<MenuEntry>)
    ensures
        menu_view(r@) == seq![
            item("连接"@, ContextAction::Connect, false),
            item("重命名"@, ContextAction::Rename, false),
            item("编辑"@, ContextAction::Edit, false),
            item("克隆"@, ContextAction::Clone, false),
            item("删除"@, ContextAction::Delete, true),
        ],
{
    let entries: Vec<MenuEntry> = vec![
        menu_entry("连接", ContextAction::Connect, false),
        menu_entry("重命名", ContextAction::Rename, false),
        menu_entry("编辑", ContextAction::Edit, false),
        menu_entry("克隆", ContextAction::Clone, false),
        menu_entry("删除", ContextAction::Delete, true),
    ];
    assert(menu_view(entries@) =~= seq![
        item("连接"@, ContextAction::Connect, false),
        item("重命名"@, ContextAction::Rename, false),
        item("编辑"@, ContextAction::Edit, false),
        item("克隆"@, ContextAction::Clone, false),
        item("删除"@, ContextAction::Delete, true),
    ]);
    entries
}

/// What the menu of a folder says and does.
pub open spec fn group_menu(collapsed: bool) -> Seq<
    (Seq<char>, ContextAction, bool, bool),
> {
    seq![
        item("重命名"@, ContextAction::Rename, false),
        item("新会话"@, ContextAction::NewSession, false),
        item(
            if collapsed {
                "展开"@
            } else {
                "折叠"@
            },
            ContextAction::ToggleFold,
            false,
        ),
        item("删除分组"@, ContextAction::DeleteFolder, true),
    ]
}

/// The menu of a folder.
pub fn group_context_menu_card(collapsed: bool) -> (r: Vec<MenuEntry>)
    ensures
        menu_view(r@) == group_menu(collapsed),
{
    let entries: Vec<MenuEntry> = vec![
        menu_entry("重命名", ContextAction::Rename, false),
        menu_entry("新会话", ContextAction::NewSession, false),
        menu_entry(
            if collapsed {
                "展开"
            } else {
                "折叠"
            },
            ContextAction::ToggleFold,
            false,
        ),
        menu_entry("删除分组", ContextAction::DeleteFolder, true),
    ];
    assert(menu_view(entries@) =~= group_menu(collapsed));
    entries
}

/// What the menu of a tab says and does: a session that is up can be taken down,
/// and one that is not brought up again.
pub open spec fn tab_menu(status: Option<SessionStatus>) -> Seq<
    (Seq<char>, ContextAction, bool, bool),
> {
    seq![
        item("重命名"@, ContextAction::Rename, false),
        if status == Some(SessionStatus::Connected) || status == Some(SessionStatus::Connecting) {
            item("断开连接"@, ContextAction::Disconnect, false)
        } else {
            item("重新连接"@, ContextAction::Reconnect, false)
        },
        item("克隆会话"@, ContextAction::CloneSession, false),
        item("关闭"@, ContextAction::Close, true),
    ]
}

/// The menu of a tab, by the state of its session; none where there is no such
/// session any more.
pub fn tab_context_menu(status: Option<SessionStatus>) -> (r: Vec<MenuEntry>)
    ensures
        menu_view(r@) == tab_menu(status),
{
    let up: bool = match status {
        Some(status) => status == SessionStatus::Connected || status == SessionStatus::Connecting,
        None => false,
    };
    let connection: MenuEntry = if up {
        menu_entry("断开连接", ContextAction::Disconnect, false)
    } else {
        menu_entry("重新连接", ContextAction::Reconnect, false)
    };
    let entries: Vec<MenuEntry> = vec![
        menu_entry("重命名", ContextAction::Rename, false),
        connection,
        menu_entry("克隆会话", ContextAction::CloneSession, false),
        menu_entry("关闭", ContextAction::Close, true),
    ];
    assert(menu_view(entries@) =~= tab_menu(status));
    entries
}

// Laws.

/// Whether no row is a mark of a drag.
pub open spec fn unmarked(rows: Seq<TreeRow>) -> bool {
    forall|i: int|
        0 <= i < rows.len() ==> (#[trigger] rows[i]) !is DropLine && rows[i] !is TopZone && rows[i]
            !is BottomZone
}

proof fn lemma_unmarked_join(a: Seq<TreeRow>, b: Seq<TreeRow>)
    requires
        unmarked(a),
        unmarked(b),
    ensures
        unmarked(a + b),
{
}

proof fn lemma_sessions_unmarked(state: &TreeState, ids: Seq<ProfileId>)
    requires
        !state.zones(),
    ensures
        unmarked(sessions_rows(state, ids)),
    decreases ids.len(),
{
    if ids.len() > 0 {
        lemma_sessions_unmarked(state, ids.drop_last());
        assert(unmarked(session_rows(state, ids.last())));
        lemma_unmarked_join(
            sessions_rows(state, ids.drop_last()),
            session_rows(state, ids.last()),
        );
    }
}

proof fn lemma_entries_unmarked(
    state: &TreeState,
    sorted: Seq<ConnectionProfile>,
    folders: Seq<Seq<char>>,
    entries: Seq<TopEntry>,
)
    requires
        !state.zones(),
        !state.group_drag_active,
    ensures
        unmarked(entries_rows(state, sorted, folders, entries)),
    decreases entries.len(),
{
    if entries.len() > 0 {
        lemma_entries_unmarked(state, sorted, folders, entries.drop_last());
        match entries.last().kind {
            TopKind::Session(id) => {
                assert(unmarked(session_rows(state, id)));
            },
            TopKind::Folder(at) => {
                let group = folders[at as int];
                let needle = state.needle();
                let named = needle.len() > 0 && mentions(group, needle);
                lemma_sessions_unmarked(
                    state,
                    shown_members(sorted, group, needle, needle.len() == 0 || named),
                );
                assert(unmarked(folder_rows(state, sorted, folders, at as int)));
            },
        }
        lemma_unmarked_join(
            entries_rows(state, sorted, folders, entries.drop_last()),
            entry_rows(state, sorted, folders, entries.last()),
        );
    }
}

/// A drag that began on a card of the grid leaves no mark in the tree, and neither
/// does a press that has not become a drag.
pub proof fn law_a_grid_drag_leaves_no_mark_in_the_tree(
    state: &TreeState,
    profiles: Seq<ConnectionProfile>,
    folders: Seq<Seq<char>>,
)
    requires
        state.drag.from_grid || !state.drag.active,
        !state.group_drag_active,
    ensures
        unmarked(tree_rows(state, profiles, folders)),
{
    let sorted = tree_sorted(profiles);
    lemma_entries_unmarked(
        state,
        sorted,
        folders,
        entries_sorted(loose_shown(sorted, state.needle()) + folder_entries(folders.len())),
    );
}

proof fn lemma_starts_within(a: Seq<char>, b: Seq<char>, n: int)
    requires
        0 <= n <= a.len(),
    ensures
        run_starts(a + b, n) == run_starts(a, n),
    decreases n,
{
    if n > 0 {
        lemma_starts_within(a, b, n - 1);
        assert((a + b)[n - 1] == a[n - 1]);
        if n > 1 {
            assert((a + b)[n - 2] == a[n - 2]);
        }
    }
}

proof fn lemma_starts_beyond(a: Seq<char>, b: Seq<char>, n: int)
    requires
        0 <= n <= b.len(),
        a.len() > 0 && b.len() > 0 ==> !alphanumeric(a.last()) || !alphanumeric(b[0]),
    ensures
        run_starts(a + b, a.len() + n) == run_starts(a, a.len() as int) + run_starts(b, n),
    decreases n,
{
    if n == 0 {
        lemma_starts_within(a, b, a.len() as int);
        assert(run_starts(a, a.len() as int) + run_starts(b, 0) =~= run_starts(a, a.len() as int));
    } else {
        lemma_starts_beyond(a, b, n - 1);
        assert((a + b)[a.len() + n - 1] == b[n - 1]);
        if n > 1 {
            assert((a + b)[a.len() + n - 2] == b[n - 2]);
        } else if a.len() > 0 {
            assert((a + b)[a.len() - 1] == a.last());
        }
        assert(run_starts(a, a.len() as int) + run_starts(b, n - 1).push(b[n - 1]) =~= (run_starts(
            a,
            a.len() as int,
        ) + run_starts(b, n - 1)).push(b[n - 1]));
    }
}

/// The starts of a text that is cut between words are the starts of its pieces.
pub proof fn law_words_start_piece_by_piece(a: Seq<char>, b: Seq<char>)
    requires
        a.len() > 0 && b.len() > 0 ==> !alphanumeric(a.last()) || !alphanumeric(b[0]),
    ensures
        run_starts(a + b, (a + b).len() as int) == run_starts(a, a.len() as int) + run_starts(
            b,
            b.len() as int,
        ),
{
    lemma_starts_beyond(a, b, b.len() as int);
}

/// A run of letters and digits starts once, with its first character.
pub proof fn law_a_word_starts_with_its_first_character(word: Seq<char>, n: int)
    requires
        1 <= n <= word.len(),
        forall|i: int| 0 <= i < word.len() ==> alphanumeric(#[trigger] word[i]),
    ensures
        run_starts(word, n) == seq![word[0]],
    decreases n,
{
    if n == 1 {
        assert(run_starts(word, 0) =~= Seq::empty());
        assert(run_starts(word, 1) =~= seq![word[0]]);
    } else {
        law_a_word_starts_with_its_first_character(word, n - 1);
        assert(alphanumeric(word[n - 2]));
    }
}

/// Nothing starts where there are no letters and digits.
pub proof fn law_no_word_starts_between_words(between: Seq<char>, n: int)
    requires
        0 <= n <= between.len(),
        forall|i: int| 0 <= i < between.len() ==> !alphanumeric(#[trigger] between[i]),
    ensures
        run_starts(between, n) == Seq::<char>::empty(),
    decreases n,
{
    if n > 0 {
        law_no_word_starts_between_words(between, n - 1);
        assert(!alphanumeric(between[n - 1]));
    }
}

/// A name has the first characters of its first two words for its initials; one of a
/// single word has one, and one without words a question mark.
pub proof fn law_initials_are_those_of_the_first_two_words(
    before: Seq<char>,
    first: Seq<char>,
    between: Seq<char>,
    second: Seq<char>,
    rest: Seq<char>,
)
    requires
        forall|i: int| 0 <= i < before.len() ==> !alphanumeric(#[trigger] before[i]),
        first.len() > 0,
        forall|i: int| 0 <= i < first.len() ==> alphanumeric(#[trigger] first[i]),
        between.len() > 0,
        forall|i: int| 0 <= i < between.len() ==> !alphanumeric(#[trigger] between[i]),
        second.len() > 0,
        forall|i: int| 0 <= i < second.len() ==> alphanumeric(#[trigger] second[i]),
        rest.len() > 0 ==> !alphanumeric(rest[0]),
    ensures
        initials(before) == seq!['?'],
        initials(before + first) == seq![first[0]],
        initials(before + first + between) == seq![first[0]],
        initials(before + first + between + second + rest) == seq![first[0], second[0]],
{
    let none = Seq::<char>::empty();
    law_no_word_starts_between_words(before, before.len() as int);
    law_a_word_starts_with_its_first_character(first, first.len() as int);
    law_no_word_starts_between_words(between, between.len() as int);
    law_a_word_starts_with_its_first_character(second, second.len() as int);
    let one = before + first;
    law_words_start_piece_by_piece(before, first);
    assert(none + seq![first[0]] =~= seq![first[0]]);
    let two = one + between;
    assert(one.last() == first.last());
    law_words_start_piece_by_piece(one, between);
    assert(seq![first[0]] + none =~= seq![first[0]]);
    let three = two + second;
    assert(two.last() == between.last());
    law_words_start_piece_by_piece(two, second);
    assert(three.last() == second.last());
    law_words_start_piece_by_piece(three, rest);
    let starts = run_starts(three + rest, (three + rest).len() as int);
    assert(starts =~= seq![first[0], second[0]] + run_starts(rest, rest.len() as int));
    assert(starts.take(2) =~= seq![first[0], second[0]]);
    if starts.len() == 2 {
        assert(starts =~= seq![first[0], second[0]]);
    }
}

/// A folder shows the sessions that are in it and that are found, as they stand in the
/// tree, and counts all that are in it.
pub proof fn law_a_folder_shows_its_own(
    sorted: Seq<ConnectionProfile>,
    group: Seq<char>,
    needle: Seq<char>,
    all: bool,
)
    ensures
        shown_members(sorted, group, needle, all) == sorted.filter(
            |p: ConnectionProfile| p.group@ == group && (all || matches_filter(&p, needle)),
        ).map_values(|p: ConnectionProfile| p.id),
        member_count(sorted, group) == sorted.filter(
            |p: ConnectionProfile| p.group@ == group,
        ).len(),
    decreases sorted.len(),
{
    reveal(Seq::filter);
    let id = |p: ConnectionProfile| p.id;
    let kept = |p: ConnectionProfile| p.group@ == group && (all || matches_filter(&p, needle));
    if sorted.len() == 0 {
        assert(shown_members(sorted, group, needle, all) =~= sorted.filter(kept).map_values(id));
    } else {
        law_a_folder_shows_its_own(sorted.drop_last(), group, needle, all);
        assert(shown_members(sorted, group, needle, all) =~= sorted.filter(kept).map_values(id));
    }
}

/// Outside the folders stand the sessions in no folder that are found, as they stand in
/// the tree.
pub proof fn law_sessions_in_no_folder_stand_outside(
    sorted: Seq<ConnectionProfile>,
    needle: Seq<char>,
)
    ensures
        loose_shown(sorted, needle) == sorted.filter(
            |p: ConnectionProfile| blank(p.group@) && matches_filter(&p, needle),
        ).map_values(
            |p: ConnectionProfile| TopEntry { key: p.sort_order, kind: TopKind::Session(p.id) },
        ),
    decreases sorted.len(),
{
    reveal(Seq::filter);
    let entry = |p: ConnectionProfile|
        TopEntry { key: p.sort_order, kind: TopKind::Session(p.id) };
    let kept = |p: ConnectionProfile| blank(p.group@) && matches_filter(&p, needle);
    if sorted.len() == 0 {
        assert(loose_shown(sorted, needle) =~= sorted.filter(kept).map_values(entry));
    } else {
        law_sessions_in_no_folder_stand_outside(sorted.drop_last(), needle);
        assert(loose_shown(sorted, needle) =~= sorted.filter(kept).map_values(entry));
    }
}

/// The rows of lists put together are the rows of the lists.
pub proof fn law_rows_follow_list_by_list(
    state: &TreeState,
    sorted: Seq<ConnectionProfile>,
    folders: Seq<Seq<char>>,
    a: Seq<TopEntry>,
    b: Seq<TopEntry>,
)
    ensures
        entries_rows(state, sorted, folders, a + b) == entries_rows(state, sorted, folders, a)
            + entries_rows(state, sorted, folders, b),
    decreases b.len(),
{
    let first = entries_rows(state, sorted, folders, a);
    if b.len() == 0 {
        assert(a + b =~= a);
        assert(first + entries_rows(state, sorted, folders, b) =~= first);
    } else {
        law_rows_follow_list_by_list(state, sorted, folders, a, b.drop_last());
        assert((a + b).drop_last() =~= a + b.drop_last());
        assert((a + b).last() == b.last());
        let last = entry_rows(state, sorted, folders, b.last());
        assert(first + (entries_rows(state, sorted, folders, b.drop_last()) + last) =~= first
            + entries_rows(state, sorted, folders, b.drop_last()) + last);
    }
}

/// The rows of sessions put together are the rows of the sessions.
pub proof fn law_session_rows_follow_list_by_list(
    state: &TreeState,
    a: Seq<ProfileId>,
    b: Seq<ProfileId>,
)
    ensures
        sessions_rows(state, a + b) == sessions_rows(state, a) + sessions_rows(state, b),
    decreases b.len(),
{
    if b.len() == 0 {
        assert(a + b =~= a);
        assert(sessions_rows(state, a) + sessions_rows(state, b) =~= sessions_rows(state, a));
    } else {
        law_session_rows_follow_list_by_list(state, a, b.drop_last());
        assert((a + b).drop_last() =~= a + b.drop_last());
        assert((a + b).last() == b.last());
        assert(sessions_rows(state, a) + (sessions_rows(state, b.drop_last()) + session_rows(
            state,
            b.last(),
        )) =~= sessions_rows(state, a) + sessions_rows(state, b.drop_last()) + session_rows(
            state,
            b.last(),
        ));
    }
}

/// The row in which a session stands.
pub open spec fn row_of(state: &TreeState, id: ProfileId) -> TreeRow {
    if state.editing_profile == Some(id) {
        TreeRow::SessionEdit { id }
    } else {
        TreeRow::Session {
            id,
            selected: state.selected_profile == Some(id),
            hovered: state.hovered_profile == Some(id),
        }
    }
}

proof fn lemma_sessions_rows_hold(state: &TreeState, ids: Seq<ProfileId>, i: int)
    requires
        0 <= i < ids.len(),
    ensures
        sessions_rows(state, ids).contains(row_of(state, ids[i])),
    decreases ids.len(),
{
    let before = sessions_rows(state, ids.drop_last());
    let last = session_rows(state, ids.last());
    if i == ids.len() - 1 {
        lemma_session_row(state, ids.last());
        let k = choose|k: int| 0 <= k < last.len() && last[k] == row_of(state, ids.last());
        assert((before + last)[before.len() + k] == row_of(state, ids[i]));
    } else {
        lemma_sessions_rows_hold(state, ids.drop_last(), i);
        let k = choose|k: int| 0 <= k < before.len() && before[k] == row_of(state, ids[i]);
        assert((before + last)[k] == row_of(state, ids[i]));
    }
}

proof fn lemma_session_row(state: &TreeState, id: ProfileId)
    ensures
        session_rows(state, id).contains(row_of(state, id)),
{
    let rows = session_rows(state, id);
    if state.editing_profile == Some(id) {
        assert(rows[0] == row_of(state, id));
    } else {
        let k = line_if(row_lines(&state.drag, id).0).len() as int;
        assert(rows[k] == row_of(state, id));
    }
}

proof fn lemma_entries_rows_hold(
    state: &TreeState,
    sorted: Seq<ConnectionProfile>,
    folders: Seq<Seq<char>>,
    entries: Seq<TopEntry>,
    i: int,
    row: TreeRow,
)
    requires
        0 <= i < entries.len(),
        entry_rows(state, sorted, folders, entries[i]).contains(row),
    ensures
        entries_rows(state, sorted, folders, entries).contains(row),
    decreases entries.len(),
{
    let before = entries_rows(state, sorted, folders, entries.drop_last());
    let last = entry_rows(state, sorted, folders, entries.last());
    if i == entries.len() - 1 {
        let k = choose|k: int| 0 <= k < last.len() && last[k] == row;
        assert((before + last)[before.len() + k] == row);
    } else {
        lemma_entries_rows_hold(state, sorted, folders, entries.drop_last(), i, row);
        let k = choose|k: int| 0 <= k < before.len() && before[k] == row;
        assert((before + last)[k] == row);
    }
}

proof fn lemma_a_member_is_shown(
    sorted: Seq<ConnectionProfile>,
    group: Seq<char>,
    needle: Seq<char>,
    all: bool,
    i: int,
)
    requires
        0 <= i < sorted.len(),
        sorted[i].group@ == group,
        all || matches_filter(&sorted[i], needle),
    ensures
        shown_members(sorted, group, needle, all).contains(sorted[i].id),
    decreases sorted.len(),
{
    let before = shown_members(sorted.drop_last(), group, needle, all);
    let now = shown_members(sorted, group, needle, all);
    if i == sorted.len() - 1 {
        assert(now[now.len() - 1] == sorted[i].id);
    } else {
        lemma_a_member_is_shown(sorted.drop_last(), group, needle, all, i);
        let k = choose|k: int| 0 <= k < before.len() && before[k] == sorted[i].id;
        assert(now[k] == sorted[i].id);
    }
}

proof fn lemma_a_loose_session_is_shown(
    sorted: Seq<ConnectionProfile>,
    needle: Seq<char>,
    i: int,
)
    requires
        0 <= i < sorted.len(),
        blank(sorted[i].group@),
        matches_filter(&sorted[i], needle),
    ensures
        loose_shown(sorted, needle).contains(
            (TopEntry { key: sorted[i].sort_order, kind: TopKind::Session(sorted[i].id) }),
        ),
    decreases sorted.len(),
{
    let entry = TopEntry { key: sorted[i].sort_order, kind: TopKind::Session(sorted[i].id) };
    let before = loose_shown(sorted.drop_last(), needle);
    let now = loose_shown(sorted, needle);
    if i == sorted.len() - 1 {
        assert(now[now.len() - 1] == entry);
    } else {
        lemma_a_loose_session_is_shown(sorted.drop_last(), needle, i);
        let k = choose|k: int| 0 <= k < before.len() && before[k] == entry;
        assert(now[k] == entry);
    }
}

proof fn lemma_same_elements<A>(a: Seq<A>, b: Seq<A>, x: A)
    requires
        a.to_multiset() == b.to_multiset(),
        b.contains(x),
    ensures
        a.contains(x),
{
    a.to_multiset_ensures();
    b.to_multiset_ensures();
    assert(b.to_multiset().count(x) > 0);
    assert(a.to_multiset().count(x) > 0);
}

proof fn lemma_a_row_of_an_entry_is_a_row(
    state: &TreeState,
    profiles: Seq<ConnectionProfile>,
    folders: Seq<Seq<char>>,
    entry: TopEntry,
    row: TreeRow,
)
    requires
        ({
            let sorted = tree_sorted(profiles);
            (loose_shown(sorted, state.needle()) + folder_entries(folders.len())).contains(entry)
                && entry_rows(state, sorted, folders, entry).contains(row)
        }),
    ensures
        tree_rows(state, profiles, folders).contains(row),
{
    let sorted = tree_sorted(profiles);
    let entries = loose_shown(sorted, state.needle()) + folder_entries(folders.len());
    let placed = entries_sorted(entries);
    law_the_top_level_goes_by_its_keys(entries);
    lemma_same_elements(placed, entries, entry);
    let i = choose|i: int| 0 <= i < placed.len() && placed[i] == entry;
    lemma_entries_rows_hold(state, sorted, folders, placed, i, row);
    let rows = entries_rows(state, sorted, folders, placed);
    let k = choose|k: int| 0 <= k < rows.len() && rows[k] == row;
    assert(tree_rows(state, profiles, folders)[top_zone(state).len() + k] == row);
}

/// Every session in no folder that is found has a row.
pub proof fn law_every_session_outside_that_is_found_has_a_row(
    state: &TreeState,
    profiles: Seq<ConnectionProfile>,
    folders: Seq<Seq<char>>,
    i: int,
)
    requires
        0 <= i < profiles.len(),
        blank(profiles[i].group@),
        matches_filter(&profiles[i], state.needle()),
    ensures
        tree_rows(state, profiles, folders).contains(row_of(state, profiles[i].id)),
{
    let sorted = tree_sorted(profiles);
    let p = profiles[i];
    law_tree_shows_every_session_in_order(profiles);
    lemma_same_elements(sorted, profiles, p);
    let j = choose|j: int| 0 <= j < sorted.len() && sorted[j] == p;
    lemma_a_loose_session_is_shown(sorted, state.needle(), j);
    let entry = TopEntry { key: p.sort_order, kind: TopKind::Session(p.id) };
    let loose = loose_shown(sorted, state.needle());
    let k = choose|k: int| 0 <= k < loose.len() && loose[k] == entry;
    assert((loose + folder_entries(folders.len()))[k] == entry);
    lemma_session_row(state, p.id);
    lemma_a_row_of_an_entry_is_a_row(state, profiles, folders, entry, row_of(state, p.id));
}

/// Every session of a folder has a row: without a filter unless its folder is folded,
/// and with one where the filter finds it or the name of its folder.
pub proof fn law_every_session_of_an_open_folder_has_a_row(
    state: &TreeState,
    profiles: Seq<ConnectionProfile>,
    folders: Seq<Seq<char>>,
    i: int,
    at: int,
)
    requires
        0 <= i < profiles.len(),
        0 <= at < folders.len() <= usize::MAX,
        profiles[i].group@ == folders[at],
        if state.needle().len() == 0 {
            !texts(state.collapsed_groups@).contains(folders[at])
        } else {
            matches_filter(&profiles[i], state.needle()) || mentions(folders[at], state.needle())
        },
    ensures
        tree_rows(state, profiles, folders).contains(row_of(state, profiles[i].id)),
{
    let sorted = tree_sorted(profiles);
    let p = profiles[i];
    let needle = state.needle();
    let all = needle.len() == 0 || mentions(folders[at], needle);
    law_tree_shows_every_session_in_order(profiles);
    lemma_same_elements(sorted, profiles, p);
    let j = choose|j: int| 0 <= j < sorted.len() && sorted[j] == p;
    lemma_a_member_is_shown(sorted, folders[at], needle, all, j);
    let members = shown_members(sorted, folders[at], needle, all);
    let m = choose|m: int| 0 <= m < members.len() && members[m] == p.id;
    lemma_sessions_rows_hold(state, members, m);
    let below = sessions_rows(state, members);
    let k = choose|k: int| 0 <= k < below.len() && below[k] == row_of(state, p.id);
    let rows = folder_rows(state, sorted, folders, at);
    let lines = if maybe_text(state.editing_group) == Some(folders[at]) {
        (false, false)
    } else {
        reorder_lines(
            state.group_drag_active,
            maybe_text(state.dragged_group),
            maybe_text(state.group_drop),
            folders,
            folders[at],
        )
    };
    assert(rows[line_if(lines.0).len() + 1 + k] == row_of(state, p.id));
    let loose = loose_shown(sorted, needle);
    let entry = folder_entries(folders.len())[at];
    assert((loose + folder_entries(folders.len()))[loose.len() + at] == entry);
    lemma_a_row_of_an_entry_is_a_row(state, profiles, folders, entry, row_of(state, p.id));
}

/// Without a filter every folder has a heading; it says how many sessions the folder
/// has, and whether it is folded.
pub proof fn law_every_folder_has_a_heading(
    state: &TreeState,
    profiles: Seq<ConnectionProfile>,
    folders: Seq<Seq<char>>,
    at: int,
    group: Seq<char>,
)
    requires
        0 <= at < folders.len() <= usize::MAX,
        folders[at] == group,
        state.needle().len() == 0,
        maybe_text(state.editing_group) != Some(group),
    ensures
        tree_rows(state, profiles, folders).contains(
            (TreeRow::Folder {
                folder: at as usize,
                collapsed: texts(state.collapsed_groups@).contains(group),
                count: tree_sorted(profiles).filter(
                    |p: ConnectionProfile| p.group@ == group,
                ).len() as usize,
                drop_target: maybe_text(state.group_drop_target) == Some(group),
            }),
        ),
{
    let sorted = tree_sorted(profiles);
    law_a_folder_shows_its_own(sorted, group, state.needle(), true);
    let row = TreeRow::Folder {
        folder: at as usize,
        collapsed: texts(state.collapsed_groups@).contains(group),
        count: sorted.filter(|p: ConnectionProfile| p.group@ == group).len() as usize,
        drop_target: maybe_text(state.group_drop_target) == Some(group),
    };
    let lines = reorder_lines(
        state.group_drag_active,
        maybe_text(state.dragged_group),
        maybe_text(state.group_drop),
        folders,
        group,
    );
    let rows = folder_rows(state, sorted, folders, at);
    assert(rows[line_if(lines.0).len() as int] == row);
    let loose = loose_shown(sorted, state.needle());
    let entry = folder_entries(folders.len())[at];
    assert((loose + folder_entries(folders.len()))[loose.len() + at] == entry);
    lemma_a_row_of_an_entry_is_a_row(state, profiles, folders, entry, row);
}

} // verus!

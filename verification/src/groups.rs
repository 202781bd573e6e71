//! The folders of the session tree: which there are, in what order, and what
//! they and new sessions are called.

use vstd::prelude::*;
use vstd::string::*;

use crate::profile::ConnectionProfile;
use crate::text::{
    blank, decimal, decimal_of, holds, is_blank, is_digit, lemma_decimal_reads_back,
    lemma_trim_twice, parse_unsigned, same, texts, trim, trimmed, unsigned_value, without_plus,
};

verus! {

/// The group of each session, in order.
pub open spec fn group_names(profiles: Seq<ConnectionProfile>) -> Seq<Seq<char>> {
    Seq::new(profiles.len(), |i: int| profiles[i].group@)
}

/// A folder list with one more name: trimmed, at the end, and only if it is not
/// blank and not there yet.
pub open spec fn added(groups: Seq<Seq<char>>, name: Seq<char>) -> Seq<Seq<char>> {
    let name = trimmed(name);
    if name.len() > 0 && !groups.contains(name) {
        groups.push(name)
    } else {
        groups
    }
}

/// The folders that these names give: each trimmed, none blank, each once, in
/// the order in which they first occur.
pub open spec fn collected(names: Seq<Seq<char>>) -> Seq<Seq<char>>
    decreases names.len(),
{
    if names.len() == 0 {
        Seq::empty()
    } else {
        added(collected(names.drop_last()), names.last())
    }
}

/// A list without every occurrence of a name.
pub open spec fn without(names: Seq<Seq<char>>, name: Seq<char>) -> Seq<Seq<char>>
    decreases names.len(),
{
    if names.len() == 0 {
        Seq::empty()
    } else if names.last() == name {
        without(names.drop_last(), name)
    } else {
        without(names.drop_last(), name).push(names.last())
    }
}

/// Whether every folder is trimmed and not blank, and none occurs twice.
pub open spec fn tidy(groups: Seq<Seq<char>>) -> bool {
    &&& forall|i: int|
        0 <= i < groups.len() ==> trimmed(#[trigger] groups[i]) == groups[i] && groups[i].len() > 0
    &&& groups.no_duplicates()
}

/// Appends a folder to the list unless it is blank or there already. The others
/// stay where the user put them.
pub fn add_group(groups: &mut Vec<String>, name: &str)
    ensures
        texts(final(groups)@) == added(texts(old(groups)@), name@),
{
    let name: String = trim(name);
    if !name.as_str().is_empty() && !holds(groups, name.as_str()) {
        groups.push(name);
        assert(texts(groups@) =~= texts(old(groups)@).push(name@));
    }
}

/// Takes a folder out of the list and says whether it was there.
pub fn remove_group(groups: &mut Vec<String>, name: &str) -> (r: bool)
    ensures
        texts(final(groups)@) == without(texts(old(groups)@), name@),
        r == texts(old(groups)@).contains(name@),
{
    let ghost before = texts(groups@);
    let mut kept: Vec<String> = Vec::new();
    let mut found: bool = false;
    let mut i: usize = 0;
    while i < groups.len()
        invariant
            i <= groups.len(),
            before == texts(groups@),
            groups@ == old(groups)@,
            texts(kept@) == without(before.take(i as int), name@),
            found == before.take(i as int).contains(name@),
        decreases groups.len() - i,
    {
        let ghost head = before.take(i as int);
        let ghost next = before.take(i + 1);
        assert(next.drop_last() =~= head);
        assert(next.last() == groups@[i as int]@);
        let ghost kept_before = texts(kept@);
        if same(groups[i].as_str(), name) {
            found = true;
            assert(next[i as int] == name@);
        } else {
            kept.push(groups[i].clone());
            assert(texts(kept@) =~= kept_before.push(groups@[i as int]@));
            assert(next.contains(name@) == head.contains(name@)) by {
                if next.contains(name@) {
                    let k = choose|k: int| 0 <= k < next.len() && next[k] == name@;
                    assert(head[k] == name@);
                }
                if head.contains(name@) {
                    let k = choose|k: int| 0 <= k < head.len() && head[k] == name@;
                    assert(next[k] == name@);
                }
            }
        }
        i += 1;
    }
    assert(before.take(i as int) =~= before);
    *groups = kept;
    found
}

/// The folders in order: the arranged ones first, then those that only sessions
/// name.
pub fn groups_from_catalog(groups: Vec<String>, profiles: &Vec<ConnectionProfile>) -> (r: Vec<
    String,
>)
    ensures
        texts(r@) == collected(texts(groups@) + group_names(profiles@)),
{
    let ghost all = texts(groups@) + group_names(profiles@);
    let mut result: Vec<String> = Vec::new();
    let mut i: usize = 0;
    assert(texts(result@) =~= collected(all.take(0)));
    while i < groups.len()
        invariant
            i <= groups.len(),
            all == texts(groups@) + group_names(profiles@),
            texts(result@) == collected(all.take(i as int)),
        decreases groups.len() - i,
    {
        assert(all.take(i + 1).drop_last() =~= all.take(i as int));
        add_group(&mut result, groups[i].as_str());
        i += 1;
    }
    let mut k: usize = 0;
    while k < profiles.len()
        invariant
            k <= profiles.len(),
            all == texts(groups@) + group_names(profiles@),
            texts(result@) == collected(all.take(groups@.len() + k)),
        decreases profiles.len() - k,
    {
        let ghost at = groups@.len() + k;
        assert(all.take(at + 1).drop_last() =~= all.take(at));
        assert(all.take(at + 1).last() == profiles@[k as int].group@);
        add_group(&mut result, profiles[k].group.as_str());
        k += 1;
    }
    assert(all.take(groups@.len() + k) =~= all);
    result
}

/// The folders that only sessions name.
pub fn groups_from_profiles(profiles: &Vec<ConnectionProfile>) -> (r: Vec<String>)
    ensures
        texts(r@) == collected(group_names(profiles@)),
{
    let none: Vec<String> = Vec::new();
    assert(texts(none@) + group_names(profiles@) =~= group_names(profiles@));
    groups_from_catalog(none, profiles)
}

/// The names that are not blank.
pub open spec fn not_blank(names: Seq<Seq<char>>) -> Seq<Seq<char>>
    decreases names.len(),
{
    if names.len() == 0 {
        Seq::empty()
    } else if blank(names.last()) {
        not_blank(names.drop_last())
    } else {
        not_blank(names.drop_last()).push(names.last())
    }
}

/// A list with the first `count` of some names that it did not hold added.
pub open spec fn with_missing(groups: Seq<Seq<char>>, names: Seq<Seq<char>>) -> Seq<Seq<char>>
    decreases names.len(),
{
    if names.len() == 0 {
        groups
    } else {
        let before = with_missing(groups, names.drop_last());
        if before.contains(names.last()) {
            before
        } else {
            before.push(names.last())
        }
    }
}

/// The folders in the order in which the tree shows them: the arranged ones
/// that are not blank, then those that only sessions name.
pub open spec fn shown_folders(groups: Seq<Seq<char>>, profiles: Seq<ConnectionProfile>) -> Seq<
    Seq<char>,
> {
    with_missing(not_blank(groups), collected(group_names(profiles)))
}

/// The arranged folders that are not blank, then those of these names that are
/// not among them.
pub(crate) fn merge_folders(groups: &Vec<String>, seen: &Vec<String>) -> (r: Vec<String>)
    ensures
        texts(r@) == with_missing(not_blank(texts(groups@)), texts(seen@)),
{
    let ghost arranged = texts(groups@);
    let mut out: Vec<String> = Vec::new();
    let mut i: usize = 0;
    assert(texts(out@) =~= not_blank(arranged.take(0)));
    while i < groups.len()
        invariant
            i <= groups.len(),
            arranged == texts(groups@),
            texts(out@) == not_blank(arranged.take(i as int)),
        decreases groups.len() - i,
    {
        let ghost before = texts(out@);
        assert(arranged.take(i + 1).drop_last() =~= arranged.take(i as int));
        if !is_blank(groups[i].as_str()) {
            out.push(groups[i].clone());
            assert(texts(out@) =~= before.push(groups@[i as int]@));
        }
        i += 1;
    }
    assert(arranged.take(i as int) =~= arranged);
    let ghost base = texts(out@);
    let ghost extra = texts(seen@);
    let mut k: usize = 0;
    assert(with_missing(base, extra.take(0)) =~= base);
    while k < seen.len()
        invariant
            k <= seen.len(),
            extra == texts(seen@),
            texts(out@) == with_missing(base, extra.take(k as int)),
        decreases seen.len() - k,
    {
        let ghost before = texts(out@);
        assert(extra.take(k + 1).drop_last() =~= extra.take(k as int));
        if !holds(&out, seen[k].as_str()) {
            out.push(seen[k].clone());
            assert(texts(out@) =~= before.push(seen@[k as int]@));
        }
        k += 1;
    }
    assert(extra.take(k as int) =~= extra);
    out
}

/// The folders in the order in which the tree shows them.
pub fn sidebar_group_names(groups: &Vec<String>, profiles: &Vec<ConnectionProfile>) -> (r: Vec<
    String,
>)
    ensures
        texts(r@) == shown_folders(texts(groups@), profiles@),
{
    let seen: Vec<String> = groups_from_profiles(profiles);
    merge_folders(groups, &seen)
}

// Reordering folders.

/// The position of the first of these names that is `name`.
pub open spec fn name_at(names: Seq<Seq<char>>, name: Seq<char>) -> Option<int>
    decreases names.len(),
{
    if names.len() == 0 {
        None
    } else if names[0] == name {
        Some(0)
    } else {
        match name_at(names.drop_first(), name) {
            Some(k) => Some(k + 1),
            None => None,
        }
    }
}

pub(crate) proof fn lemma_name_at(names: Seq<Seq<char>>, name: Seq<char>, k: int)
    requires
        0 <= k <= names.len(),
        forall|i: int| 0 <= i < k ==> names[i] != name,
        k < names.len() ==> names[k] == name,
    ensures
        name_at(names, name) == if k < names.len() {
            Some(k)
        } else {
            None
        },
    decreases names.len(),
{
    if names.len() > 0 && k > 0 {
        assert forall|i: int| 0 <= i < k - 1 implies names.drop_first()[i] != name by {
            assert(names[i + 1] != name);
        }
        lemma_name_at(names.drop_first(), name, k - 1);
    }
}

pub(crate) proof fn lemma_name_found(names: Seq<Seq<char>>, name: Seq<char>)
    ensures
        name_at(names, name) matches Some(k) ==> 0 <= k < names.len() && names[k] == name,
        name_at(names, name) is Some <==> names.contains(name),
    decreases names.len(),
{
    if names.len() > 0 && names[0] != name {
        let rest = names.drop_first();
        lemma_name_found(rest, name);
        if names.contains(name) {
            let i = choose|i: int| 0 <= i < names.len() && names[i] == name;
            assert(rest[i - 1] == name);
        }
        if rest.contains(name) {
            let i = choose|i: int| 0 <= i < rest.len() && rest[i] == name;
            assert(names[i + 1] == name);
        }
    }
}

pub(crate) fn position_of_name(names: &Vec<String>, name: &str) -> (r: Option<usize>)
    ensures
        match r {
            Some(k) => name_at(texts(names@), name@) == Some(k as int) && k < names@.len(),
            None => name_at(texts(names@), name@) is None,
        },
{
    let mut i: usize = 0;
    while i < names.len()
        invariant
            i <= names.len(),
            forall|j: int| 0 <= j < i ==> texts(names@)[j] != name@,
        decreases names.len() - i,
    {
        if same(names[i].as_str(), name) {
            proof {
                lemma_name_at(texts(names@), name@, i as int);
            }
            return Some(i);
        }
        i += 1;
    }
    proof {
        lemma_name_at(texts(names@), name@, i as int);
    }
    None
}

/// The folders with `source` moved next to `target`: behind it when it comes
/// from above, in front of it when it comes from below. Nothing moves where
/// either is missing or they are the same.
pub open spec fn folders_moved(
    order: Seq<Seq<char>>,
    source: Seq<char>,
    target: Seq<char>,
) -> Seq<Seq<char>> {
    let from = name_at(order, source);
    let to = name_at(order, target);
    if source == target || from is None || to is None {
        order
    } else {
        let rest = without(order, source);
        let at = name_at(rest, target)->0;
        rest.insert(
            if from->0 < to->0 {
                at + 1
            } else {
                at
            },
            source,
        )
    }
}

/// The folders with `source` moved next to `target`.
pub fn reordered_folders(order: Vec<String>, source: &str, target: &str) -> (r: Vec<String>)
    ensures
        texts(r@) == folders_moved(texts(order@), source@, target@),
{
    let mut order = order;
    if same(source, target) {
        return order;
    }
    let from: usize = match position_of_name(&order, source) {
        Some(k) => k,
        None => {
            return order;
        },
    };
    let to: usize = match position_of_name(&order, target) {
        Some(k) => k,
        None => {
            return order;
        },
    };
    let ghost before = texts(order@);
    remove_group(&mut order, source);
    proof {
        lemma_name_found(before, target@);
        lemma_without(before, source@);
        assert(without(before, source@).contains(target@));
        lemma_name_found(texts(order@), target@);
    }
    let count: usize = order.len();
    let mut at: usize = match position_of_name(&order, target) {
        Some(k) => k,
        None => count,
    };
    if from < to {
        at += 1;
    }
    let ghost rest = texts(order@);
    order.insert(at, source.to_owned());
    assert(texts(order@) =~= rest.insert(at as int, source@));
    order
}

/// Taking a name out leaves exactly the other names.
proof fn lemma_without(names: Seq<Seq<char>>, name: Seq<char>)
    ensures
        !without(names, name).contains(name),
        without(names, name).len() <= names.len(),
        forall|other: Seq<char>|
            other != name ==> (#[trigger] without(names, name).contains(other) <==> names.contains(
                other,
            )),
    decreases names.len(),
{
    if names.len() > 0 {
        let front = names.drop_last();
        lemma_without(front, name);
        assert forall|other: Seq<char>| other != name implies (#[trigger] without(
            names,
            name,
        ).contains(other) <==> names.contains(other)) by {
            let kept = without(names, name);
            if kept.contains(other) {
                let k = choose|k: int| 0 <= k < kept.len() && kept[k] == other;
                if k < without(front, name).len() {
                    assert(without(front, name)[k] == other);
                    assert(without(front, name).contains(other));
                    assert(front.contains(other));
                    let m = choose|m: int| 0 <= m < front.len() && front[m] == other;
                    assert(names[m] == other);
                } else {
                    assert(names[names.len() - 1] == other);
                }
            }
            if names.contains(other) {
                let m = choose|m: int| 0 <= m < names.len() && names[m] == other;
                if m < front.len() {
                    assert(front[m] == other);
                    assert(without(front, name).contains(other));
                    let k = choose|k: int|
                        0 <= k < without(front, name).len() && without(front, name)[k] == other;
                    assert(kept[k] == other);
                } else {
                    assert(kept[kept.len() - 1] == other);
                }
            }
        }
    }
}

proof fn lemma_without_absent(names: Seq<Seq<char>>, name: Seq<char>)
    requires
        !names.contains(name),
    ensures
        without(names, name) == names,
    decreases names.len(),
{
    if names.len() > 0 {
        assert(names[names.len() - 1] != name);
        assert forall|k: int| 0 <= k < names.drop_last().len() implies names.drop_last()[k]
            != name by {
            assert(names[k] != name);
        }
        lemma_without_absent(names.drop_last(), name);
        assert(names.drop_last().push(names.last()) =~= names);
    } else {
        assert(without(names, name) =~= names);
    }
}

proof fn lemma_without_unique(names: Seq<Seq<char>>, name: Seq<char>)
    requires
        names.no_duplicates(),
    ensures
        without(names, name).no_duplicates(),
        names.contains(name) ==> without(names, name).len() == names.len() - 1,
    decreases names.len(),
{
    if names.len() > 0 {
        let front = names.drop_last();
        assert(front.no_duplicates());
        lemma_without_unique(front, name);
        lemma_without(front, name);
        if names.last() == name {
            if front.contains(name) {
                let k = choose|k: int| 0 <= k < front.len() && front[k] == name;
                assert(names[k] == names[names.len() - 1]);
            }
            lemma_without_absent(front, name);
        } else {
            if names.contains(name) {
                let k = choose|k: int| 0 <= k < names.len() && names[k] == name;
                assert(front[k] == name);
            }
            let kept = without(front, name);
            assert(!kept.contains(names.last())) by {
                if kept.contains(names.last()) {
                    assert(front.contains(names.last()));
                    let k = choose|k: int| 0 <= k < front.len() && front[k] == names.last();
                    assert(names[k] == names[names.len() - 1]);
                }
            }
            let all = kept.push(names.last());
            assert forall|i: int, j: int| 0 <= i < j < all.len() implies all[i] != all[j] by {
                if j == kept.len() {
                    assert(kept[i] != names.last());
                }
            }
        }
    }
}

proof fn lemma_without_insert(names: Seq<Seq<char>>, at: int, name: Seq<char>)
    requires
        0 <= at <= names.len(),
        !names.contains(name),
    ensures
        without(names.insert(at, name), name) == names,
    decreases names.len() - at,
{
    let all = names.insert(at, name);
    if at == names.len() {
        assert(all.drop_last() =~= names);
        lemma_without_absent(names, name);
    } else {
        let front = names.drop_last();
        assert(all.drop_last() =~= front.insert(at, name));
        assert(all.last() == names.last());
        assert(names[names.len() - 1] != name);
        assert forall|k: int| 0 <= k < front.len() implies front[k] != name by {
            assert(names[k] != name);
        }
        lemma_without_insert(front, at, name);
        assert(front.push(names.last()) =~= names);
    }
}

/// Moving a folder loses none and invents none, leaves the others in their
/// order, and puts it right behind the target when it came from above and right
/// in front of it when it came from below.
pub proof fn law_moving_a_folder_keeps_the_others(
    order: Seq<Seq<char>>,
    source: Seq<char>,
    target: Seq<char>,
)
    requires
        order.no_duplicates(),
    ensures
        ({
            let moved = folders_moved(order, source, target);
            &&& moved.len() == order.len()
            &&& moved.no_duplicates()
            &&& without(moved, source) == without(order, source)
            &&& forall|name: Seq<char>| #[trigger] moved.contains(name) <==> order.contains(name)
            &&& (source != target && order.contains(source) && order.contains(target)) ==> {
                let down = name_at(order, source)->0 < name_at(order, target)->0;
                exists|k: int|
                    0 <= k < moved.len() - 1 && if down {
                        #[trigger] moved[k] == target && moved[k + 1] == source
                    } else {
                        moved[k] == source && moved[k + 1] == target
                    }
            }
        }),
{
    let moved = folders_moved(order, source, target);
    lemma_name_found(order, source);
    lemma_name_found(order, target);
    if source != target && order.contains(source) && order.contains(target) {
        let rest = without(order, source);
        lemma_without(order, source);
        lemma_without_unique(order, source);
        lemma_name_found(rest, target);
        let at = name_at(rest, target)->0;
        let down = name_at(order, source)->0 < name_at(order, target)->0;
        let k = if down {
            at + 1
        } else {
            at
        };
        assert(moved =~= rest.insert(k, source));
        lemma_without_insert(rest, k, source);
        assert(moved[k] == source);
        assert forall|name: Seq<char>| #[trigger] moved.contains(name) <==> order.contains(
            name,
        ) by {
            if moved.contains(name) {
                let i = choose|i: int| 0 <= i < moved.len() && moved[i] == name;
                if i < k {
                    assert(rest[i] == name);
                } else if i > k {
                    assert(rest[i - 1] == name);
                }
                if i != k {
                    assert(rest.contains(name));
                }
            }
            if order.contains(name) && name != source {
                assert(rest.contains(name));
                let i = choose|i: int| 0 <= i < rest.len() && rest[i] == name;
                if i < k {
                    assert(moved[i] == name);
                } else {
                    assert(moved[i + 1] == name);
                }
            }
        }
        assert forall|i: int, j: int| 0 <= i < j < moved.len() implies moved[i] != moved[j] by {
            let ui = if i < k {
                i
            } else {
                i - 1
            };
            let uj = if j < k {
                j
            } else {
                j - 1
            };
            if i == k {
                assert(rest[uj] == moved[j]);
                assert(rest.contains(moved[j]));
            } else if j == k {
                assert(rest[ui] == moved[i]);
                assert(rest.contains(moved[i]));
            } else {
                assert(rest[ui] == moved[i] && rest[uj] == moved[j]);
            }
        }
        if down {
            assert(moved[at] == target && moved[at + 1] == source);
        } else {
            assert(moved[at] == source && moved[at + 1] == target);
        }
    }
}

/// Which insertion line a folder shows while another is dragged over it: above
/// or below. The side follows the direction of the drag.
pub open spec fn reorder_lines(
    active: bool,
    dragged: Option<Seq<char>>,
    over: Option<Seq<char>>,
    folders: Seq<Seq<char>>,
    group: Seq<char>,
) -> (bool, bool) {
    if !active || over != Some(group) || dragged == Some(group) {
        (false, false)
    } else {
        let from = match dragged {
            Some(source) => name_at(folders, source),
            None => None,
        };
        let to = name_at(folders, group);
        if from is Some && to is Some && from->0 < to->0 {
            (false, true)
        } else {
            (true, false)
        }
    }
}

/// The characters of an optional string.
pub open spec fn maybe_text(s: Option<String>) -> Option<Seq<char>> {
    match s {
        Some(s) => Some(s@),
        None => None,
    }
}

/// Whether an optional string is this one.
pub fn is_text(s: &Option<String>, wanted: &str) -> (r: bool)
    ensures
        r == (maybe_text(*s) == Some(wanted@)),
{
    match s {
        Some(s) => same(s.as_str(), wanted),
        None => false,
    }
}

/// Which insertion line a folder shows while another is dragged over it.
pub fn folder_reorder_lines(
    active: bool,
    dragged: &Option<String>,
    over: &Option<String>,
    folders: &Vec<String>,
    group: &str,
) -> (r: (bool, bool))
    ensures
        r == reorder_lines(
            active,
            maybe_text(*dragged),
            maybe_text(*over),
            texts(folders@),
            group@,
        ),
{
    if !active || !is_text(over, group) || is_text(dragged, group) {
        return (false, false);
    }
    let from: Option<usize> = match dragged {
        Some(source) => position_of_name(folders, source.as_str()),
        None => None,
    };
    let to: Option<usize> = position_of_name(folders, group);
    match (from, to) {
        (Some(s), Some(t)) => if s < t {
            (false, true)
        } else {
            (true, false)
        },
        _ => (true, false),
    }
}

/// The line that is shown is where the folder lands: below the target means
/// right behind it, above it means right in front of it.
pub proof fn law_the_line_shows_where_the_folder_lands(
    folders: Seq<Seq<char>>,
    source: Seq<char>,
    target: Seq<char>,
)
    requires
        folders.no_duplicates(),
        folders.contains(source),
        folders.contains(target),
        source != target,
    ensures
        ({
            let (above, below) = reorder_lines(true, Some(source), Some(target), folders, target);
            let moved = folders_moved(folders, source, target);
            &&& above != below
            &&& exists|k: int|
                0 <= k < moved.len() - 1 && if below {
                    #[trigger] moved[k] == target && moved[k + 1] == source
                } else {
                    moved[k] == source && moved[k + 1] == target
                }
        }),
{
    law_moving_a_folder_keeps_the_others(folders, source, target);
    lemma_name_found(folders, source);
    lemma_name_found(folders, target);
}

// Collapsing.

/// The collapsed folders after one was toggled.
pub open spec fn collapse_toggled(collapsed: Seq<Seq<char>>, group: Seq<char>) -> Seq<Seq<char>> {
    if collapsed.contains(group) {
        without(collapsed, group)
    } else {
        collapsed.push(group)
    }
}

/// Collapses a folder, or opens it again.
pub fn toggle_group_collapsed(collapsed: &mut Vec<String>, group: &str)
    ensures
        texts(final(collapsed)@) == collapse_toggled(texts(old(collapsed)@), group@),
{
    let ghost before = texts(collapsed@);
    if !remove_group(collapsed, group) {
        proof {
            lemma_without_absent(before, group@);
        }
        collapsed.push(group.to_owned());
        assert(texts(collapsed@) =~= before.push(group@));
    }
}

/// Toggling a folder twice leaves it, and every other, as it was.
pub proof fn law_collapsing_twice_is_nothing(
    collapsed: Seq<Seq<char>>,
    group: Seq<char>,
    other: Seq<char>,
)
    ensures
        collapse_toggled(collapse_toggled(collapsed, group), group).contains(other)
            <==> collapsed.contains(other),
        collapse_toggled(collapsed, group).contains(group) <==> !collapsed.contains(group),
{
    lemma_without(collapsed, group);
    let once = collapse_toggled(collapsed, group);
    if collapsed.contains(group) {
        let kept = without(collapsed, group);
        let again = kept.push(group);
        assert(collapse_toggled(once, group) == again);
        if again.contains(other) && other != group {
            let k = choose|k: int| 0 <= k < again.len() && again[k] == other;
            assert(kept[k] == other);
            assert(kept.contains(other));
        }
        if collapsed.contains(other) {
            if other == group {
                assert(again[again.len() - 1] == group);
            } else {
                assert(kept.contains(other));
                let k = choose|k: int| 0 <= k < kept.len() && kept[k] == other;
                assert(again[k] == other);
            }
        }
    } else {
        assert(once[once.len() - 1] == group);
        lemma_without_insert(collapsed, collapsed.len() as int, group);
        assert(collapsed.insert(collapsed.len() as int, group) =~= once);
    }
}

// The folder list as a whole.

proof fn lemma_added_tidy(groups: Seq<Seq<char>>, name: Seq<char>)
    requires
        tidy(groups),
    ensures
        tidy(added(groups, name)),
{
    lemma_trim_twice(name);
    let all = added(groups, name);
    assert forall|i: int, j: int| 0 <= i < j < all.len() implies all[i] != all[j] by {
        if j == groups.len() {
            assert(groups[i] != trimmed(name));
        }
    }
}

/// Whatever names it is made from, a folder list is tidy, and so it stays when
/// folders are added and taken out.
pub proof fn law_folder_lists_are_tidy(names: Seq<Seq<char>>, groups: Seq<Seq<char>>, name: Seq<char>)
    requires
        tidy(groups),
    ensures
        tidy(collected(names)),
        tidy(added(groups, name)),
        tidy(without(groups, name)),
    decreases names.len(),
{
    lemma_added_tidy(groups, name);
    if names.len() > 0 {
        law_folder_lists_are_tidy(names.drop_last(), groups, name);
        lemma_added_tidy(collected(names.drop_last()), names.last());
    }
    lemma_without_unique(groups, name);
    lemma_without_members(groups, name);
}

proof fn lemma_without_members(groups: Seq<Seq<char>>, name: Seq<char>)
    requires
        tidy(groups),
    ensures
        forall|i: int|
            0 <= i < without(groups, name).len() ==> trimmed(#[trigger] without(groups, name)[i])
                == without(groups, name)[i] && without(groups, name)[i].len() > 0,
{
    let kept = without(groups, name);
    lemma_without(groups, name);
    assert forall|i: int| 0 <= i < kept.len() implies trimmed(#[trigger] kept[i]) == kept[i]
        && kept[i].len() > 0 by {
        assert(kept.contains(kept[i]));
        assert(kept[i] != name);
        assert(groups.contains(kept[i]));
        let k = choose|k: int| 0 <= k < groups.len() && groups[k] == kept[i];
        assert(trimmed(groups[k]) == groups[k]);
    }
}

/// Adding a folder that was not there and taking it out again changes nothing.
pub proof fn law_adding_then_removing_is_nothing(groups: Seq<Seq<char>>, name: Seq<char>)
    requires
        !groups.contains(trimmed(name)),
    ensures
        without(added(groups, name), trimmed(name)) == groups,
{
    let n = trimmed(name);
    if n.len() > 0 {
        lemma_without_insert(groups, groups.len() as int, n);
        assert(groups.insert(groups.len() as int, n) =~= groups.push(n));
    } else {
        lemma_without_absent(groups, n);
    }
}

/// Every session that is in a folder is in one that the tree shows, as long as
/// its group is written trimmed.
pub proof fn law_every_group_has_a_folder(
    groups: Seq<Seq<char>>,
    profiles: Seq<ConnectionProfile>,
    i: int,
)
    requires
        0 <= i < profiles.len(),
        trimmed(profiles[i].group@) == profiles[i].group@,
        profiles[i].group@.len() > 0,
    ensures
        shown_folders(groups, profiles).contains(profiles[i].group@),
{
    let names = group_names(profiles);
    assert(names[i] == profiles[i].group@);
    lemma_collected_holds(names, i);
    lemma_with_missing_holds(not_blank(groups), collected(names), profiles[i].group@);
}

proof fn lemma_collected_holds(names: Seq<Seq<char>>, i: int)
    requires
        0 <= i < names.len(),
        trimmed(names[i]).len() > 0,
    ensures
        collected(names).contains(trimmed(names[i])),
    decreases names.len(),
{
    let before = collected(names.drop_last());
    let n = trimmed(names[i]);
    if i < names.len() - 1 {
        lemma_collected_holds(names.drop_last(), i);
        let k = choose|k: int| 0 <= k < before.len() && before[k] == n;
        assert(collected(names)[k] == n);
    } else if before.contains(n) {
        let k = choose|k: int| 0 <= k < before.len() && before[k] == n;
        assert(collected(names)[k] == n);
    } else {
        assert(collected(names)[before.len() as int] == n);
    }
}

proof fn lemma_with_missing_holds(
    groups: Seq<Seq<char>>,
    names: Seq<Seq<char>>,
    wanted: Seq<char>,
)
    requires
        names.contains(wanted),
    ensures
        with_missing(groups, names).contains(wanted),
    decreases names.len(),
{
    let before = with_missing(groups, names.drop_last());
    let i = choose|i: int| 0 <= i < names.len() && names[i] == wanted;
    if i < names.len() - 1 {
        assert(names.drop_last()[i] == wanted);
        lemma_with_missing_holds(groups, names.drop_last(), wanted);
        let k = choose|k: int| 0 <= k < before.len() && before[k] == wanted;
        assert(with_missing(groups, names)[k] == wanted);
    } else if !before.contains(wanted) {
        assert(with_missing(groups, names)[before.len() as int] == wanted);
    }
}

// Names for what is new.

/// A numbered name.
pub open spec fn numbered(stem: Seq<char>, n: nat) -> Seq<char> {
    stem + decimal(n)
}

/// Whether `name` is the first numbered name, counting up from one more than
/// the number of names taken, that is not taken yet.
pub open spec fn first_free(stem: Seq<char>, taken: Seq<Seq<char>>, name: Seq<char>) -> bool {
    exists|n: nat|
        {
            &&& n > taken.len()
            &&& name == #[trigger] numbered(stem, n)
            &&& !taken.contains(name)
            &&& forall|k: nat| taken.len() < k < n ==> taken.contains(#[trigger] numbered(stem, k))
        }
}

proof fn lemma_numbered_injective(stem: Seq<char>, a: nat, b: nat)
    requires
        numbered(stem, a) == numbered(stem, b),
    ensures
        a == b,
{
    let x = numbered(stem, a);
    assert(x.skip(stem.len() as int) =~= decimal(a));
    assert(x.skip(stem.len() as int) =~= decimal(b));
    lemma_decimal_reads_back(a);
    lemma_decimal_reads_back(b);
}

proof fn lemma_some_name_is_free(stem: Seq<char>, taken: Seq<Seq<char>>)
    ensures
        exists|k: nat|
            taken.len() < k <= 2 * taken.len() + 1 && !taken.contains(#[trigger] numbered(stem, k)),
{
    let n = taken.len();
    let names = Seq::new((n + 1) as nat, |i: int| numbered(stem, (n + 1 + i) as nat));
    assert forall|i: int, j: int| 0 <= i < j < names.len() implies names[i] != names[j] by {
        if names[i] == names[j] {
            lemma_numbered_injective(stem, (n + 1 + i) as nat, (n + 1 + j) as nat);
        }
    }
    assert(names.no_duplicates());
    names.unique_seq_to_set();
    taken.lemma_cardinality_of_set();
    if forall|k: nat|
        n < k <= 2 * n + 1 ==> taken.contains(#[trigger] numbered(stem, k)) {
        assert forall|x: Seq<char>| names.to_set().contains(x) implies taken.to_set().contains(
            x,
        ) by {
            let i = choose|i: int| 0 <= i < names.len() && names[i] == x;
            assert(taken.contains(numbered(stem, (n + 1 + i) as nat)));
        }
        vstd::set_lib::lemma_len_subset(names.to_set(), taken.to_set());
    }
}

fn first_free_name(stem: &str, taken: &Vec<String>) -> (r: String)
    requires
        taken@.len() <= (usize::MAX - 1) / 2,
    ensures
        first_free(stem@, texts(taken@), r@),
{
    let ghost names = texts(taken@);
    let mut index: usize = taken.len() + 1;
    loop
        invariant
            names == texts(taken@),
            taken@.len() <= (usize::MAX - 1) / 2,
            taken.len() < index <= 2 * taken.len() + 2,
            forall|k: nat|
                names.len() < k < index ==> names.contains(#[trigger] numbered(stem@, k)),
        decreases 2 * taken.len() + 2 - index,
    {
        proof {
            lemma_some_name_is_free(stem@, names);
        }
        let mut name: String = stem.to_owned();
        let number: String = decimal_of(index as u64);
        name.append(number.as_str());
        assert(name@ == numbered(stem@, index as nat));
        if !holds(taken, name.as_str()) {
            return name;
        }
        index += 1;
    }
}

/// The name of a new folder.
pub fn next_group_name(groups: &Vec<String>) -> (r: String)
    requires
        groups@.len() <= (usize::MAX - 1) / 2,
    ensures
        first_free("group-"@, texts(groups@), r@),
{
    first_free_name("group-", groups)
}

/// The name of each session, in order.
pub open spec fn profile_names(profiles: Seq<ConnectionProfile>) -> Seq<Seq<char>> {
    Seq::new(profiles.len(), |i: int| profiles[i].name@)
}

/// The name of a new session.
pub fn next_profile_name(profiles: &Vec<ConnectionProfile>) -> (r: String)
    requires
        profiles@.len() <= (usize::MAX - 1) / 2,
    ensures
        first_free("new-session-"@, profile_names(profiles@), r@),
{
    let mut names: Vec<String> = Vec::new();
    let mut i: usize = 0;
    while i < profiles.len()
        invariant
            i <= profiles.len(),
            names.len() == i,
            forall|j: int| 0 <= j < i ==> (#[trigger] names@[j])@ == profiles@[j].name@,
        decreases profiles.len() - i,
    {
        names.push(profiles[i].name.clone());
        i += 1;
    }
    assert(texts(names@) =~= profile_names(profiles@));
    first_free_name("new-session-", &names)
}

// Ports.

/// The port that a field holds: a number from 1 to 65535, blanks around it
/// aside.
pub open spec fn port_value(field: Seq<char>) -> Option<nat> {
    match unsigned_value(trimmed(field), 65535) {
        Some(port) => if port > 0 {
            Some(port)
        } else {
            None
        },
        None => None,
    }
}

/// The port that a field holds.
pub fn parse_port(value: &str) -> (r: Option<u16>)
    ensures
        match r {
            Some(port) => port_value(value@) == Some(port as nat),
            None => port_value(value@) is None,
        },
{
    let field: String = trim(value);
    match parse_unsigned(field.as_str(), 65535) {
        Some(port) => if port > 0 {
            Some(port as u16)
        } else {
            None
        },
        None => None,
    }
}

/// Taking a name out keeps every other name, in its order and as often.
pub proof fn law_taking_out_a_name_keeps_the_others(names: Seq<Seq<char>>, name: Seq<char>)
    ensures
        without(names, name) == names.filter(|other: Seq<char>| other != name),
    decreases names.len(),
{
    reveal(Seq::filter);
    if names.len() > 0 {
        law_taking_out_a_name_keeps_the_others(names.drop_last(), name);
    }
}

/// The folders that names give are those names, without the blanks around them, that are
/// not blank; and the folders of some names come before those that only later ones give.
pub proof fn law_folders_are_collected_from_all_names(
    names: Seq<Seq<char>>,
    more: Seq<Seq<char>>,
    folder: Seq<char>,
)
    ensures
        collected(names).contains(folder) <==> folder.len() > 0 && exists|i: int|
            0 <= i < names.len() && trimmed(#[trigger] names[i]) == folder,
        collected(names).len() <= collected(names + more).len(),
        collected(names + more).take(collected(names).len() as int) == collected(names),
    decreases more.len(), names.len(),
{
    let all = collected(names);
    if collected(names).contains(folder) {
        lemma_collected_from(names, folder);
    }
    if folder.len() > 0 && exists|i: int|
        0 <= i < names.len() && trimmed(#[trigger] names[i]) == folder {
        let i = choose|i: int| 0 <= i < names.len() && trimmed(#[trigger] names[i]) == folder;
        lemma_collected_holds(names, i);
    }
    if more.len() == 0 {
        assert(names + more =~= names);
        assert(all.take(all.len() as int) =~= all);
    } else {
        let head = more.drop_last();
        law_folders_are_collected_from_all_names(names, head, folder);
        let before = collected(names + head);
        assert((names + more).drop_last() =~= names + head);
        assert((names + more).last() == more.last());
        assert(collected(names + more).take(all.len() as int) =~= before.take(all.len() as int));
    }
}

proof fn lemma_collected_from(names: Seq<Seq<char>>, folder: Seq<char>)
    requires
        collected(names).contains(folder),
    ensures
        folder.len() > 0,
        exists|i: int| 0 <= i < names.len() && trimmed(#[trigger] names[i]) == folder,
    decreases names.len(),
{
    if names.len() > 0 {
        let head = names.drop_last();
        if collected(head).contains(folder) {
            lemma_collected_from(head, folder);
            let i = choose|i: int| 0 <= i < head.len() && trimmed(#[trigger] head[i]) == folder;
            assert(names[i] == head[i]);
        } else {
            let k = choose|k: int| 0 <= k < collected(names).len() && collected(names)[k] == folder;
            if k < collected(head).len() {
                assert(collected(head)[k] == folder);
            }
            assert(trimmed(names[names.len() - 1]) == folder);
        }
    }
}

proof fn lemma_with_missing_prefix(groups: Seq<Seq<char>>, names: Seq<Seq<char>>)
    ensures
        groups.len() <= with_missing(groups, names).len(),
        with_missing(groups, names).take(groups.len() as int) == groups,
        forall|x: Seq<char>| #[trigger]
            with_missing(groups, names).contains(x) ==> groups.contains(x) || names.contains(x),
    decreases names.len(),
{
    if names.len() == 0 {
        assert(groups.take(groups.len() as int) =~= groups);
    } else {
        let head = names.drop_last();
        lemma_with_missing_prefix(groups, head);
        let before = with_missing(groups, head);
        let after = with_missing(groups, names);
        assert(after.take(groups.len() as int) =~= before.take(groups.len() as int));
        assert forall|x: Seq<char>| #[trigger] after.contains(x) implies groups.contains(x)
            || names.contains(x) by {
            let k = choose|k: int| 0 <= k < after.len() && after[k] == x;
            if k < before.len() {
                assert(before[k] == x);
                assert(before.contains(x));
                if head.contains(x) {
                    let m = choose|m: int| 0 <= m < head.len() && head[m] == x;
                    assert(names[m] == x);
                }
            } else {
                assert(names[names.len() - 1] == x);
            }
        }
    }
}

/// The tree shows the arranged folders first, in their order and without the blank ones,
/// and then every folder that only a session names; and no others.
pub proof fn law_the_tree_shows_the_arranged_folders_first(
    groups: Seq<Seq<char>>,
    profiles: Seq<ConnectionProfile>,
    folder: Seq<char>,
)
    ensures
        ({
            let shown = shown_folders(groups, profiles);
            let arranged = groups.filter(|name: Seq<char>| !blank(name));
            &&& arranged.len() <= shown.len()
            &&& shown.take(arranged.len() as int) == arranged
            &&& shown.contains(folder) ==> arranged.contains(folder) || exists|i: int|
                0 <= i < profiles.len() && trimmed((#[trigger] profiles[i]).group@) == folder
        }),
{
    let names = group_names(profiles);
    lemma_not_blank_filter(groups);
    lemma_with_missing_prefix(not_blank(groups), collected(names));
    if collected(names).contains(folder) {
        lemma_collected_from(names, folder);
        let i = choose|i: int| 0 <= i < names.len() && trimmed(#[trigger] names[i]) == folder;
        assert(trimmed(profiles[i].group@) == folder);
    }
}

proof fn lemma_not_blank_filter(names: Seq<Seq<char>>)
    ensures
        not_blank(names) == names.filter(|name: Seq<char>| !blank(name)),
    decreases names.len(),
{
    reveal(Seq::filter);
    if names.len() > 0 {
        lemma_not_blank_filter(names.drop_last());
    }
}

/// Folding turns one folder over and leaves every other as it is.
pub proof fn law_folding_turns_one_folder_over(
    collapsed: Seq<Seq<char>>,
    group: Seq<char>,
    other: Seq<char>,
)
    requires
        other != group,
    ensures
        collapse_toggled(collapsed, group).contains(group) <==> !collapsed.contains(group),
        collapse_toggled(collapsed, group).contains(other) <==> collapsed.contains(other),
{
    if collapsed.contains(group) {
        lemma_without(collapsed, group);
    } else {
        let after = collapsed.push(group);
        assert(after[after.len() - 1] == group);
        if collapsed.contains(other) {
            let k = choose|k: int| 0 <= k < collapsed.len() && collapsed[k] == other;
            assert(after[k] == other);
        }
        if after.contains(other) {
            let k = choose|k: int| 0 <= k < after.len() && after[k] == other;
            assert(collapsed[k] == other);
        }
    }
}

/// The line that shows where a folder lands is drawn at the folder under the pointer alone,
/// below it where the dragged one comes from above and above it otherwise.
pub proof fn law_the_line_follows_the_direction(
    dragged: Seq<char>,
    folders: Seq<Seq<char>>,
    group: Seq<char>,
    from: int,
    to: int,
)
    requires
        0 <= from < folders.len(),
        0 <= to < folders.len(),
        folders[from] == dragged,
        folders[to] == group,
        dragged != group,
        folders.no_duplicates(),
    ensures
        reorder_lines(true, Some(dragged), Some(group), folders, group) == (from > to, from < to),
        reorder_lines(false, Some(dragged), Some(group), folders, group) == (false, false),
        reorder_lines(true, Some(dragged), Some(dragged), folders, group) == (false, false),
        reorder_lines(true, Some(dragged), None, folders, group) == (false, false),
{
    lemma_name_at(folders, dragged, from);
    lemma_name_at(folders, group, to);
}

/// A port is a number from 1 to 65535, with or without blanks around it.
pub proof fn law_a_port_is_a_number_from_1_to_65535(field: Seq<char>, port: nat)
    ensures
        port_value(field) matches Some(read) ==> 1 <= read <= 65535,
        port_value(field) matches Some(read) ==> unsigned_value(trimmed(field), 65535) == Some(read),
        1 <= port <= 65535 && trimmed(field) == decimal(port) ==> port_value(field) == Some(port),
        port > 65535 && trimmed(field) == decimal(port) ==> port_value(field) is None,
        trimmed(field).len() == 0 ==> port_value(field) is None,
{
    lemma_decimal_reads_back(port);
    let s = decimal(port);
    assert(is_digit(s[0]));
    assert(without_plus(s) == s);
}

/// A new name is the stem with a number behind it, above the number of the names that are
/// taken, and none of those.
pub proof fn law_a_new_name_is_free(stem: Seq<char>, taken: Seq<Seq<char>>, name: Seq<char>)
    requires
        first_free(stem, taken, name),
    ensures
        !taken.contains(name),
        stem.is_prefix_of(name),
        !taken.contains(stem + decimal(taken.len() + 1)) ==> name == stem + decimal(
            taken.len() + 1,
        ),
{
    let n = choose|n: nat|
        {
            &&& n > taken.len()
            &&& name == #[trigger] numbered(stem, n)
            &&& !taken.contains(name)
            &&& forall|k: nat| taken.len() < k < n ==> taken.contains(#[trigger] numbered(stem, k))
        };
    assert(name.take(stem.len() as int) =~= stem);
    if n > taken.len() + 1 {
        assert(taken.contains(numbered(stem, taken.len() + 1)));
    }
}

} // verus!

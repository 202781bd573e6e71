//! The two file lists side by side, one local and one remote: what they show, in
//! which order, and what their transfers say of themselves.

use std::cmp::Ordering;
use vstd::prelude::*;
use vstd::string::*;

use crate::text::{
    comes_before, lemma_precedes_total, lemma_precedes_transitive, lowercase, lowercase_of, precedes,
};

verus! {

/// The two lists.
#[derive(Debug, Clone, Copy, PartialEq, Eq, Structural)]
pub enum SftpPane {
    Local,
    Remote,
}

/// What a list is ordered by.
#[derive(Debug, Clone, Copy, PartialEq, Eq, Structural)]
pub enum SftpSortKey {
    Name,
    Size,
    Modified,
}

/// Whether one entry comes before another in a column, from the smallest up:
/// names without regard to case, an unknown time as the earliest.
pub open spec fn column_before(
    key: SftpSortKey,
    a: (Seq<char>, u64, Option<u64>),
    b: (Seq<char>, u64, Option<u64>),
) -> bool {
    match key {
        SftpSortKey::Name => precedes(lowercase_of(a.0), lowercase_of(b.0)),
        SftpSortKey::Size => a.1 < b.1,
        SftpSortKey::Modified => time_or_zero(a.2) < time_or_zero(b.2),
    }
}

/// A time, or the earliest where there is none.
pub open spec fn time_or_zero(time: Option<u64>) -> u64 {
    match time {
        Some(secs) => secs,
        None => 0,
    }
}

fn known_time(time: Option<u64>) -> (r: u64)
    ensures
        r == time_or_zero(time),
{
    match time {
        Some(secs) => secs,
        None => 0,
    }
}

fn column_precedes(
    key: SftpSortKey,
    a: (&str, u64, Option<u64>),
    b: (&str, u64, Option<u64>),
) -> (r: bool)
    ensures
        r == column_before(key, (a.0@, a.1, a.2), (b.0@, b.1, b.2)),
{
    match key {
        SftpSortKey::Name => comes_before(lowercase(a.0).as_str(), lowercase(b.0).as_str()),
        SftpSortKey::Size => a.1 < b.1,
        SftpSortKey::Modified => known_time(a.2) < known_time(b.2),
    }
}

/// How two entries compare in a column, in a direction. Folders are put first by
/// the caller, so this orders only within a group.
pub fn sftp_cmp(
    key: SftpSortKey,
    ascending: bool,
    a: (&str, u64, Option<u64>),
    b: (&str, u64, Option<u64>),
) -> (r: Ordering)
    ensures
        r == if column_before(key, (a.0@, a.1, a.2), (b.0@, b.1, b.2)) {
            if ascending {
                Ordering::Less
            } else {
                Ordering::Greater
            }
        } else if column_before(key, (b.0@, b.1, b.2), (a.0@, a.1, a.2)) {
            if ascending {
                Ordering::Greater
            } else {
                Ordering::Less
            }
        } else {
            Ordering::Equal
        },
{
    if column_precedes(key, a, b) {
        if ascending {
            Ordering::Less
        } else {
            Ordering::Greater
        }
    } else if column_precedes(key, b, a) {
        if ascending {
            Ordering::Greater
        } else {
            Ordering::Less
        }
    } else {
        Ordering::Equal
    }
}

/// An entry of a file list.
#[derive(Debug, Clone)]
pub struct SftpEntry {
    pub name: String,
    pub is_dir: bool,
    pub size: u64,
    pub mtime: Option<u64>,
}

/// What a column sees of an entry.
pub open spec fn columns(entry: &SftpEntry) -> (Seq<char>, u64, Option<u64>) {
    (entry.name@, entry.size, entry.mtime)
}

/// Whether one entry stands strictly above another: folders above files, and
/// within each the column decides, one way or the other.
pub open spec fn entry_before(
    key: SftpSortKey,
    ascending: bool,
    a: &SftpEntry,
    b: &SftpEntry,
) -> bool {
    if a.is_dir != b.is_dir {
        a.is_dir
    } else if ascending {
        column_before(key, columns(a), columns(b))
    } else {
        column_before(key, columns(b), columns(a))
    }
}

fn entry_precedes(key: SftpSortKey, ascending: bool, a: &SftpEntry, b: &SftpEntry) -> (r: bool)
    ensures
        r == entry_before(key, ascending, a, b),
{
    let left: (&str, u64, Option<u64>) = (a.name.as_str(), a.size, a.mtime);
    let right: (&str, u64, Option<u64>) = (b.name.as_str(), b.size, b.mtime);
    if a.is_dir != b.is_dir {
        a.is_dir
    } else {
        proof {
            lemma_columns(key, columns(a), columns(b), columns(a));
        }
        match sftp_cmp(key, ascending, left, right) {
            Ordering::Less => true,
            Ordering::Equal => false,
            Ordering::Greater => false,
        }
    }
}

proof fn lemma_columns(
    key: SftpSortKey,
    a: (Seq<char>, u64, Option<u64>),
    b: (Seq<char>, u64, Option<u64>),
    c: (Seq<char>, u64, Option<u64>),
)
    ensures
        !column_before(key, a, a),
        !(column_before(key, a, b) && column_before(key, b, a)),
        column_before(key, a, b) && column_before(key, b, c) ==> column_before(key, a, c),
        !column_before(key, a, b) && !column_before(key, b, c) ==> !column_before(key, a, c),
{
    if key == SftpSortKey::Name {
        let (x, y, z) = (lowercase_of(a.0), lowercase_of(b.0), lowercase_of(c.0));
        lemma_precedes_total(x, x);
        lemma_precedes_total(x, y);
        lemma_precedes_total(y, z);
        lemma_precedes_total(x, z);
        if precedes(x, y) && precedes(y, z) {
            lemma_precedes_transitive(x, y, z);
        }
        if precedes(z, y) && precedes(y, x) {
            lemma_precedes_transitive(z, y, x);
        }
    }
}

/// The order of a file list is a strict one in which entries of equal rank are
/// interchangeable, whatever the column and the direction.
pub proof fn law_the_order_of_a_list_is_strict(
    key: SftpSortKey,
    ascending: bool,
    a: &SftpEntry,
    b: &SftpEntry,
    c: &SftpEntry,
)
    ensures
        !entry_before(key, ascending, a, a),
        !(entry_before(key, ascending, a, b) && entry_before(key, ascending, b, a)),
        entry_before(key, ascending, a, b) && entry_before(key, ascending, b, c) ==> entry_before(
            key,
            ascending,
            a,
            c,
        ),
        !entry_before(key, ascending, a, b) && !entry_before(key, ascending, b, c)
            ==> !entry_before(key, ascending, a, c),
{
    lemma_columns(key, columns(a), columns(b), columns(c));
    lemma_columns(key, columns(c), columns(b), columns(a));
}

/// Turning the direction of a column round turns every comparison round.
pub proof fn law_the_other_direction_is_the_reverse(
    key: SftpSortKey,
    a: &SftpEntry,
    b: &SftpEntry,
)
    requires
        a.is_dir == b.is_dir,
    ensures
        entry_before(key, true, a, b) == entry_before(key, false, b, a),
{
}

/// An entry put into an ordered list, after those that it does not precede.
pub open spec fn entry_inserted(
    key: SftpSortKey,
    ascending: bool,
    sorted: Seq<SftpEntry>,
    x: SftpEntry,
) -> Seq<SftpEntry>
    decreases sorted.len(),
{
    if sorted.len() > 0 && entry_before(key, ascending, &x, &sorted.last()) {
        entry_inserted(key, ascending, sorted.drop_last(), x).push(sorted.last())
    } else {
        sorted.push(x)
    }
}

/// The entries of a list in its order; those of equal rank keep theirs.
pub open spec fn entries_sorted(
    key: SftpSortKey,
    ascending: bool,
    entries: Seq<SftpEntry>,
) -> Seq<SftpEntry>
    decreases entries.len(),
{
    if entries.len() == 0 {
        Seq::empty()
    } else {
        entry_inserted(
            key,
            ascending,
            entries_sorted(key, ascending, entries.drop_last()),
            entries.last(),
        )
    }
}

/// The entries at these positions.
pub open spec fn entries_at(entries: Seq<SftpEntry>, order: Seq<usize>) -> Seq<SftpEntry> {
    order.map_values(|i: usize| entries[i as int])
}

fn insert_entry(
    key: SftpSortKey,
    ascending: bool,
    entries: &Vec<SftpEntry>,
    order: &mut Vec<usize>,
    i: usize,
)
    requires
        i < entries.len(),
        forall|k: int| 0 <= k < old(order)@.len() ==> old(order)@[k] < entries.len(),
    ensures
        forall|k: int| 0 <= k < final(order)@.len() ==> final(order)@[k] < entries.len(),
        final(order)@.len() == old(order)@.len() + 1,
        entries_at(entries@, final(order)@) == entry_inserted(
            key,
            ascending,
            entries_at(entries@, old(order)@),
            entries@[i as int],
        ),
{
    let ghost all = entries_at(entries@, order@);
    let ghost x = entries@[i as int];
    let mut at: usize = order.len();
    assert(all.take(at as int) =~= all);
    assert(entry_inserted(key, ascending, all, x) =~= entry_inserted(key, ascending, all, x)
        + all.skip(at as int));
    while at > 0 && entry_precedes(key, ascending, &entries[i], &entries[order[at - 1]])
        invariant
            at <= order.len(),
            order@ == old(order)@,
            i < entries.len(),
            x == entries@[i as int],
            all == entries_at(entries@, order@),
            forall|k: int| 0 <= k < order@.len() ==> order@[k] < entries.len(),
            entry_inserted(key, ascending, all, x) == entry_inserted(
                key,
                ascending,
                all.take(at as int),
                x,
            ) + all.skip(at as int),
        decreases at,
    {
        proof {
            let head = all.take(at as int);
            let shorter = all.take(at - 1);
            assert(head.drop_last() =~= shorter);
            assert(head.last() == all[at - 1]);
            assert(entry_inserted(key, ascending, head, x) + all.skip(at as int)
                =~= entry_inserted(key, ascending, shorter, x) + all.skip(at - 1));
        }
        at -= 1;
    }
    proof {
        let head = all.take(at as int);
        if at > 0 {
            assert(head.last() == all[at - 1]);
        }
        assert(entry_inserted(key, ascending, head, x) == head.push(x));
    }
    order.insert(at, i);
    assert(entries_at(entries@, order@) =~= all.take(at as int).push(x) + all.skip(at as int));
}

/// The positions of a list's entries in its order.
pub fn entry_order(entries: &Vec<SftpEntry>, key: SftpSortKey, ascending: bool) -> (r: Vec<usize>)
    ensures
        r@.len() == entries@.len(),
        forall|k: int| 0 <= k < r@.len() ==> r@[k] < entries.len(),
        entries_at(entries@, r@) == entries_sorted(key, ascending, entries@),
{
    let mut order: Vec<usize> = Vec::new();
    let mut i: usize = 0;
    assert(entries_at(entries@, order@) =~= entries_sorted(key, ascending, entries@.take(0)));
    while i < entries.len()
        invariant
            i <= entries.len(),
            order@.len() == i,
            forall|k: int| 0 <= k < order@.len() ==> order@[k] < entries.len(),
            entries_at(entries@, order@) == entries_sorted(
                key,
                ascending,
                entries@.take(i as int),
            ),
        decreases entries.len() - i,
    {
        assert(entries@.take(i + 1).drop_last() =~= entries@.take(i as int));
        insert_entry(key, ascending, entries, &mut order, i);
        i += 1;
    }
    assert(entries@.take(i as int) =~= entries@);
    order
}

/// Whether no entry stands below one that it should stand above.
pub open spec fn is_sorted(key: SftpSortKey, ascending: bool, list: Seq<SftpEntry>) -> bool {
    forall|i: int, j: int|
        0 <= i < j < list.len() ==> !entry_before(
            key,
            ascending,
            &(#[trigger] list[j]),
            &(#[trigger] list[i]),
        )
}

proof fn lemma_entry_inserted(
    key: SftpSortKey,
    ascending: bool,
    sorted: Seq<SftpEntry>,
    x: SftpEntry,
)
    requires
        is_sorted(key, ascending, sorted),
    ensures
        entry_inserted(key, ascending, sorted, x).to_multiset() == sorted.to_multiset().insert(x),
        entry_inserted(key, ascending, sorted, x).len() == sorted.len() + 1,
        is_sorted(key, ascending, entry_inserted(key, ascending, sorted, x)),
        forall|i: int|
            0 <= i < sorted.len() + 1 ==> (#[trigger] entry_inserted(
                key,
                ascending,
                sorted,
                x,
            )[i]) == x || sorted.contains(entry_inserted(key, ascending, sorted, x)[i]),
    decreases sorted.len(),
{
    let all = entry_inserted(key, ascending, sorted, x);
    sorted.to_multiset_ensures();
    if sorted.len() > 0 && entry_before(key, ascending, &x, &sorted.last()) {
        let front = sorted.drop_last();
        let rest = entry_inserted(key, ascending, front, x);
        lemma_entry_inserted(key, ascending, front, x);
        assert(sorted =~= front.push(sorted.last()));
        front.to_multiset_ensures();
        rest.to_multiset_ensures();
        assert(all.to_multiset() =~= sorted.to_multiset().insert(x));
        assert forall|i: int, j: int| 0 <= i < j < all.len() implies !entry_before(
            key,
            ascending,
            &(#[trigger] all[j]),
            &(#[trigger] all[i]),
        ) by {
            if j == all.len() - 1 {
                if rest[i] == x {
                    law_the_order_of_a_list_is_strict(key, ascending, &x, &sorted.last(), &x);
                } else {
                    assert(front.contains(rest[i]));
                    let k = choose|k: int| 0 <= k < front.len() && front[k] == rest[i];
                    assert(sorted[k] == rest[i]);
                    assert(!entry_before(key, ascending, &sorted[sorted.len() - 1], &sorted[k]));
                }
            } else {
                assert(all[i] == rest[i] && all[j] == rest[j]);
            }
        }
        assert forall|i: int| 0 <= i < all.len() implies (#[trigger] all[i]) == x
            || sorted.contains(all[i]) by {
            if i < all.len() - 1 {
                assert(all[i] == rest[i]);
                if rest[i] != x {
                    let k = choose|k: int| 0 <= k < front.len() && front[k] == rest[i];
                    assert(sorted[k] == all[i]);
                }
            } else {
                assert(sorted[sorted.len() - 1] == all[i]);
            }
        }
    } else {
        assert forall|i: int, j: int| 0 <= i < j < all.len() implies !entry_before(
            key,
            ascending,
            &(#[trigger] all[j]),
            &(#[trigger] all[i]),
        ) by {
            if j == all.len() - 1 {
                assert(all[j] == x && all[i] == sorted[i]);
                let l = sorted.last();
                if i < sorted.len() - 1 {
                    assert(!entry_before(key, ascending, &sorted[sorted.len() - 1], &sorted[i]));
                    law_the_order_of_a_list_is_strict(key, ascending, &x, &l, &sorted[i]);
                }
            } else {
                assert(all[i] == sorted[i] && all[j] == sorted[j]);
            }
        }
        assert forall|i: int| 0 <= i < all.len() implies (#[trigger] all[i]) == x
            || sorted.contains(all[i]) by {
            if i < sorted.len() {
                assert(sorted[i] == all[i]);
            }
        }
    }
}

/// A list shows every entry once, and none below one that it should stand above.
pub proof fn law_a_list_shows_every_entry_in_order(
    key: SftpSortKey,
    ascending: bool,
    entries: Seq<SftpEntry>,
)
    ensures
        entries_sorted(key, ascending, entries).to_multiset() == entries.to_multiset(),
        is_sorted(key, ascending, entries_sorted(key, ascending, entries)),
    decreases entries.len(),
{
    if entries.len() == 0 {
        assert(entries =~= Seq::empty());
    } else {
        let front = entries.drop_last();
        law_a_list_shows_every_entry_in_order(key, ascending, front);
        lemma_entry_inserted(
            key,
            ascending,
            entries_sorted(key, ascending, front),
            entries.last(),
        );
        assert(entries =~= front.push(entries.last()));
        front.to_multiset_ensures();
    }
}

/// In a list the folders stand above the files, whichever way it is ordered. Among the
/// folders and among the files the sizes, the times or the names go up, or down where the
/// list is turned over; a time that is not known counts as the earliest, and names are
/// compared without regard to case.
pub proof fn law_a_list_is_ordered_by_its_column(
    key: SftpSortKey,
    ascending: bool,
    entries: Seq<SftpEntry>,
    i: int,
    j: int,
)
    requires
        0 <= i < j < entries_sorted(key, ascending, entries).len(),
    ensures
        ({
            let list = entries_sorted(key, ascending, entries);
            let (above, below) = (list[i], list[j]);
            let (first, second) = if ascending {
                (above, below)
            } else {
                (below, above)
            };
            let early = match first.mtime {
                Some(secs) => secs,
                None => 0,
            };
            let late = match second.mtime {
                Some(secs) => secs,
                None => 0,
            };
            &&& below.is_dir ==> above.is_dir
            &&& above.is_dir == below.is_dir ==> match key {
                SftpSortKey::Name => !precedes(
                    lowercase_of(second.name@),
                    lowercase_of(first.name@),
                ),
                SftpSortKey::Size => first.size <= second.size,
                SftpSortKey::Modified => early <= late,
            }
        }),
{
    law_a_list_shows_every_entry_in_order(key, ascending, entries);
    let list = entries_sorted(key, ascending, entries);
    assert(!entry_before(key, ascending, &list[j], &list[i]));
}

/// Whether neither of two entries stands above the other.
pub open spec fn same_rank(
    key: SftpSortKey,
    ascending: bool,
    a: &SftpEntry,
    b: &SftpEntry,
) -> bool {
    !entry_before(key, ascending, a, b) && !entry_before(key, ascending, b, a)
}

proof fn lemma_insert_keeps_ties(
    key: SftpSortKey,
    ascending: bool,
    sorted: Seq<SftpEntry>,
    x: SftpEntry,
    y: SftpEntry,
)
    ensures
        ({
            let tied = |e: SftpEntry| same_rank(key, ascending, &e, &y);
            entry_inserted(key, ascending, sorted, x).filter(tied) == if tied(x) {
                sorted.filter(tied).push(x)
            } else {
                sorted.filter(tied)
            }
        }),
    decreases sorted.len(),
{
    reveal(Seq::filter);
    let tied = |e: SftpEntry| same_rank(key, ascending, &e, &y);
    if sorted.len() > 0 && entry_before(key, ascending, &x, &sorted.last()) {
        let head = sorted.drop_last();
        let l = sorted.last();
        lemma_insert_keeps_ties(key, ascending, head, x, y);
        let inner = entry_inserted(key, ascending, head, x);
        assert(inner.push(l).drop_last() =~= inner);
        if tied(x) && tied(l) {
            law_the_order_of_a_list_is_strict(key, ascending, &x, &y, &l);
            law_the_order_of_a_list_is_strict(key, ascending, &l, &y, &x);
            law_the_order_of_a_list_is_strict(key, ascending, &x, &l, &y);
        }
    } else {
        assert(sorted.push(x).drop_last() =~= sorted);
    }
}

/// Entries of equal rank keep the order in which they came.
pub proof fn law_entries_of_equal_rank_keep_their_order(
    key: SftpSortKey,
    ascending: bool,
    entries: Seq<SftpEntry>,
    y: SftpEntry,
)
    ensures
        ({
            let tied = |e: SftpEntry| same_rank(key, ascending, &e, &y);
            entries_sorted(key, ascending, entries).filter(tied) == entries.filter(tied)
        }),
    decreases entries.len(),
{
    reveal(Seq::filter);
    if entries.len() > 0 {
        let head = entries.drop_last();
        law_entries_of_equal_rank_keep_their_order(key, ascending, head, y);
        lemma_insert_keeps_ties(
            key,
            ascending,
            entries_sorted(key, ascending, head),
            entries.last(),
            y,
        );
    }
}

} // verus!

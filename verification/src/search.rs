//! Searching the scrollback.

use vstd::prelude::*;
use vstd::string::*;

use crate::terminal::{SearchMatch, TerminalLine, TerminalSnapshot};
use crate::terminal_text::{max_scroll, raw_line_text};
use crate::text::{
    ascii_lowered, ascii_lowered_chars, law_a_lowered_query_stands_where_it_reads, matches_at,
    reads_at, stands_at,
};
use crate::viewport::{lesser, top_row};

verus! {

/// The hits of a needle in one row from column `from` on: the first one, and
/// then those after its end.
pub open spec fn row_hits(hay: Seq<char>, needle: Seq<char>, row: int, from: int) -> Seq<
    SearchMatch,
>
    decreases hay.len() - from,
{
    if needle.len() == 0 || from < 0 || from + needle.len() > hay.len() {
        Seq::empty()
    } else if stands_at(hay, needle, from) {
        seq![
            SearchMatch { row: row as usize, col: from as usize, len: needle.len() as usize },
        ] + row_hits(hay, needle, row, from + needle.len())
    } else {
        row_hits(hay, needle, row, from + 1)
    }
}

/// The hits in the first `count` rows, in reading order. ASCII case makes no
/// difference.
pub open spec fn hits(lines: Seq<TerminalLine>, query: Seq<char>, count: int) -> Seq<SearchMatch>
    decreases count,
{
    if count <= 0 {
        Seq::empty()
    } else {
        hits(lines, query, count - 1) + row_hits(
            ascii_lowered(lines[count - 1].text()),
            ascii_lowered(query),
            count - 1,
            0,
        )
    }
}

/// A scrollback search: what is looked for, where it was found, and which hit
/// is the current one.
pub struct Search {
    pub query: String,
    pub matches: Vec<SearchMatch>,
    pub index: Option<usize>,
}

fn search_row(hay: &Vec<char>, needle: &Vec<char>, row: usize, out: &mut Vec<SearchMatch>)
    requires
        needle.len() > 0,
    ensures
        hay@.len() <= usize::MAX,
        final(out)@ == old(out)@ + row_hits(hay@, needle@, row as int, 0),
{
    let mut i: usize = 0;
    while needle.len() <= hay.len() && i <= hay.len() - needle.len()
        invariant
            needle.len() > 0,
            i <= hay.len(),
            out@ + row_hits(hay@, needle@, row as int, i as int) == old(out)@ + row_hits(
                hay@,
                needle@,
                row as int,
                0,
            ),
        decreases hay.len() - i,
    {
        let ghost before = out@;
        let ghost from = i as int;
        if matches_at(hay, needle, i) {
            out.push(SearchMatch { row, col: i, len: needle.len() });
            i += needle.len();
            assert(before + row_hits(hay@, needle@, row as int, from) =~= out@ + row_hits(
                hay@,
                needle@,
                row as int,
                i as int,
            ));
        } else {
            i += 1;
        }
    }
    assert(out@ + row_hits(hay@, needle@, row as int, i as int) =~= out@);
}

impl Search {
    /// Whether the current hit is one of the hits.
    pub open spec fn wf(&self) -> bool {
        self.index matches Some(i) ==> i < self.matches@.len()
    }

    /// Looks for the query in the whole scrollback and makes the last hit the
    /// current one.
    pub fn recompute_search(&mut self, full: &TerminalSnapshot)
        ensures
            final(self).wf(),
            final(self).query == old(self).query,
            final(self).matches@ == hits(full.lines@, old(self).query@, full.lines@.len() as int),
            finds_everything(final(self).matches@, full.lines@, old(self).query@),
            final(self).index == if final(self).matches@.len() == 0 {
                None
            } else {
                Some((final(self).matches@.len() - 1) as usize)
            },
    {
        self.matches = Vec::new();
        self.index = None;
        let needle: Vec<char> = ascii_lowered_chars(self.query.as_str());
        if needle.len() == 0 {
            proof {
                lemma_nothing_hits_nothing(full.lines@, self.query@, full.lines@.len() as int);
                lemma_nothing_is_found_of_nothing(full.lines@, self.query@);
            }
            return;
        }
        let mut row: usize = 0;
        while row < full.lines.len()
            invariant
                row <= full.lines.len(),
                needle.len() > 0,
                needle@ == ascii_lowered(self.query@),
                self.query == old(self).query,
                self.index is None,
                self.matches@ == hits(full.lines@, self.query@, row as int),
                forall|k: int|
                    0 <= k < row ==> (#[trigger] full.lines@[k]).text().len() <= usize::MAX,
            decreases full.lines.len() - row,
        {
            let text: String = raw_line_text(&full.lines[row]);
            let hay: Vec<char> = ascii_lowered_chars(text.as_str());
            search_row(&hay, &needle, row, &mut self.matches);
            row += 1;
        }
        proof {
            law_search_finds_everything(full.lines@, self.query@);
        }
        if self.matches.len() > 0 {
            self.index = Some(self.matches.len() - 1);
        }
    }

    /// Moves to another hit, from the last on to the first and back.
    pub fn step_search(&mut self, delta: i32)
        requires
            old(self).wf(),
        ensures
            final(self).wf(),
            final(self).query == old(self).query,
            final(self).matches == old(self).matches,
            final(self).index == if old(self).matches@.len() == 0 {
                old(self).index
            } else {
                let current = match old(self).index {
                    Some(i) => i as int,
                    None => 0,
                };
                Some(stepped(current, delta as int, old(self).matches@.len() as int) as usize)
            },
    {
        let count: usize = self.matches.len();
        if count == 0 {
            return;
        }
        let current: usize = match self.index {
            Some(i) => i,
            None => 0,
        };
        let moved: i128 = current as i128 + delta as i128;
        let next: usize = match moved.checked_rem_euclid(count as i128) {
            Some(next) => next as usize,
            None => 0,
        };
        self.index = Some(next);
    }

    /// How far from the bottom the window has to be for the current hit to
    /// stand about a third from its top, if there is one.
    pub fn scroll_to_current_match(&self, rows_visible: usize, total_rows: usize) -> (r: Option<
        usize,
    >)
        requires
            self.wf(),
        ensures
            r is Some == self.index is Some,
            r matches Some(offset) ==> offset == scroll_for_hit(
                self.matches@[self.index->0 as int],
                rows_visible as int,
                total_rows as int,
            ),
    {
        match self.index {
            None => None,
            Some(index) => {
                let hit: SearchMatch = self.matches[index];
                let first_visible: usize = hit.row.saturating_sub(rows_visible / 3);
                let offset: usize = total_rows.saturating_sub(rows_visible).saturating_sub(
                    first_visible,
                );
                let max: usize = total_rows.saturating_sub(
                    if rows_visible < 1 {
                        1
                    } else {
                        rows_visible
                    },
                );
                if offset < max {
                    Some(offset)
                } else {
                    Some(max)
                }
            },
        }
    }

    /// For each shown line the spans to highlight, and whether each is the
    /// current hit; nothing at all where there are no hits.
    pub fn search_highlights_for(&self, snapshot: &TerminalSnapshot) -> (r: Vec<
        Vec<(usize, usize, bool)>,
    >)
        requires
            snapshot.first_row + snapshot.lines@.len() <= usize::MAX,
            forall|i: int|
                0 <= i < self.matches@.len() ==> (#[trigger] self.matches@[i]).col
                    + self.matches@[i].len <= usize::MAX,
        ensures
            r@.len() == if self.matches@.len() == 0 {
                0
            } else {
                snapshot.lines@.len()
            },
            forall|i: int|
                0 <= i < r@.len() ==> (#[trigger] r@[i])@ == line_highlights(
                    self.matches@,
                    self.current(),
                    snapshot.first_row + i,
                    self.matches@.len() as int,
                ),
    {
        let mut out: Vec<Vec<(usize, usize, bool)>> = Vec::new();
        if self.matches.len() == 0 {
            return out;
        }
        let current: Option<SearchMatch> = match self.index {
            Some(i) => if i < self.matches.len() {
                Some(self.matches[i])
            } else {
                None
            },
            None => None,
        };
        let mut i: usize = 0;
        while i < snapshot.lines.len()
            invariant
                i <= snapshot.lines.len(),
                out.len() == i,
                self.matches.len() > 0,
                current == self.current(),
                snapshot.first_row + snapshot.lines@.len() <= usize::MAX,
                forall|k: int|
                    0 <= k < self.matches@.len() ==> (#[trigger] self.matches@[k]).col
                        + self.matches@[k].len <= usize::MAX,
                forall|k: int|
                    0 <= k < i ==> (#[trigger] out@[k])@ == line_highlights(
                        self.matches@,
                        current,
                        snapshot.first_row + k,
                        self.matches@.len() as int,
                    ),
            decreases snapshot.lines.len() - i,
        {
            let row: usize = snapshot.first_row + i;
            let mut spans: Vec<(usize, usize, bool)> = Vec::new();
            let mut k: usize = 0;
            while k < self.matches.len()
                invariant
                    k <= self.matches.len(),
                    forall|j: int|
                        0 <= j < self.matches@.len() ==> (#[trigger] self.matches@[j]).col
                            + self.matches@[j].len <= usize::MAX,
                    spans@ == line_highlights(self.matches@, current, row as int, k as int),
                decreases self.matches.len() - k,
            {
                let hit: SearchMatch = self.matches[k];
                if hit.row == row {
                    let is_current: bool = match current {
                        Some(c) => c == hit,
                        None => false,
                    };
                    spans.push((hit.col, hit.col + hit.len, is_current));
                }
                k += 1;
            }
            out.push(spans);
            i += 1;
        }
        out
    }

    /// The current hit.
    pub open spec fn current(&self) -> Option<SearchMatch> {
        match self.index {
            Some(i) => if i < self.matches@.len() {
                Some(self.matches@[i as int])
            } else {
                None
            },
            None => None,
        }
    }
}

/// The hit that is `delta` further on, from the last on to the first and back.
pub open spec fn stepped(current: int, delta: int, count: int) -> int {
    (current + delta) % count
}

/// The offset from the bottom at which a hit stands about a third from the top.
pub open spec fn scroll_for_hit(hit: SearchMatch, rows_visible: int, total_rows: int) -> int {
    let first_visible = if hit.row > rows_visible / 3 {
        hit.row - rows_visible / 3
    } else {
        0
    };
    let below = if total_rows > rows_visible {
        total_rows - rows_visible
    } else {
        0
    };
    lesser(
        if below > first_visible {
            below - first_visible
        } else {
            0
        },
        max_scroll(total_rows, rows_visible),
    )
}

/// The spans of a row among the first `count` hits, in order.
pub open spec fn line_highlights(
    matches: Seq<SearchMatch>,
    current: Option<SearchMatch>,
    row: int,
    count: int,
) -> Seq<(usize, usize, bool)>
    decreases count,
{
    if count <= 0 {
        Seq::empty()
    } else {
        let before = line_highlights(matches, current, row, count - 1);
        let hit = matches[count - 1];
        if hit.row == row {
            before.push((hit.col, (hit.col + hit.len) as usize, current == Some(hit)))
        } else {
            before
        }
    }
}

proof fn lemma_nothing_hits_nothing(lines: Seq<TerminalLine>, query: Seq<char>, count: int)
    requires
        query.len() == 0,
    ensures
        hits(lines, query, count) == Seq::<SearchMatch>::empty(),
    decreases count,
{
    if count > 0 {
        lemma_nothing_hits_nothing(lines, query, count - 1);
        assert(hits(lines, query, count) =~= Seq::empty());
    }
}

proof fn lemma_row_hits(hay: Seq<char>, needle: Seq<char>, row: int, from: int)
    requires
        needle.len() > 0,
        0 <= from,
        0 <= row <= usize::MAX,
        hay.len() <= usize::MAX,
    ensures
        forall|i: int|
            0 <= i < row_hits(hay, needle, row, from).len() ==> {
                let hit = #[trigger] row_hits(hay, needle, row, from)[i];
                &&& hit.row == row
                &&& hit.len == needle.len()
                &&& from <= hit.col
                &&& stands_at(hay, needle, hit.col as int)
            },
        forall|i: int, j: int|
            0 <= i < j < row_hits(hay, needle, row, from).len() ==> (#[trigger] row_hits(
                hay,
                needle,
                row,
                from,
            )[i]).col + needle.len() <= (#[trigger] row_hits(hay, needle, row, from)[j]).col,
        forall|at: int|
            from <= at && #[trigger] stands_at(hay, needle, at) ==> exists|i: int|
                0 <= i < row_hits(hay, needle, row, from).len() && {
                    let hit = #[trigger] row_hits(hay, needle, row, from)[i];
                    hit.col <= at < hit.col + needle.len()
                },
    decreases hay.len() - from,
{
    let all = row_hits(hay, needle, row, from);
    if from + needle.len() > hay.len() {
        assert(all == Seq::<SearchMatch>::empty());
    } else if stands_at(hay, needle, from) {
        let next = from + needle.len();
        let rest = row_hits(hay, needle, row, next);
        lemma_row_hits(hay, needle, row, next);
        assert(all.len() == rest.len() + 1);
        assert(all[0].col == from);
        assert forall|i: int| 0 <= i < all.len() implies {
            let hit = #[trigger] all[i];
            &&& hit.row == row
            &&& hit.len == needle.len()
            &&& from <= hit.col
            &&& stands_at(hay, needle, hit.col as int)
        } by {
            if i > 0 {
                assert(all[i] == rest[i - 1]);
            }
        }
        assert forall|i: int, j: int| 0 <= i < j < all.len() implies (#[trigger] all[i]).col
            + needle.len() <= (#[trigger] all[j]).col by {
            assert(all[j] == rest[j - 1]);
            if i > 0 {
                assert(all[i] == rest[i - 1]);
            }
        }
        assert forall|at: int| from <= at && #[trigger] stands_at(hay, needle, at) implies exists|
            i: int,
        |
            0 <= i < all.len() && {
                let hit = #[trigger] all[i];
                hit.col <= at < hit.col + needle.len()
            } by {
            if at < next {
                assert(all[0].col <= at);
            } else {
                let k = choose|k: int|
                    0 <= k < rest.len() && {
                        let hit = #[trigger] rest[k];
                        hit.col <= at < hit.col + needle.len()
                    };
                assert(all[k + 1] == rest[k]);
            }
        }
    } else {
        lemma_row_hits(hay, needle, row, from + 1);
        assert(all == row_hits(hay, needle, row, from + 1));
    }
}

/// In each row, every hit is an occurrence of the query, no two hits overlap,
/// and no occurrence is missed: each one is a hit or overlaps one that starts
/// no later.
pub proof fn law_search_finds_every_occurrence(line: Seq<char>, query: Seq<char>, row: int)
    requires
        query.len() > 0,
        0 <= row <= usize::MAX,
        line.len() <= usize::MAX,
    ensures
        ({
            let hay = ascii_lowered(line);
            let needle = ascii_lowered(query);
            let found = row_hits(hay, needle, row, 0);
            &&& forall|i: int|
                0 <= i < found.len() ==> (#[trigger] found[i]).row == row && stands_at(
                    hay,
                    needle,
                    found[i].col as int,
                )
            &&& forall|i: int, j: int|
                0 <= i < j < found.len() ==> (#[trigger] found[i]).col + found[i].len <= (
                #[trigger] found[j]).col
            &&& forall|at: int| #[trigger]
                stands_at(hay, needle, at) ==> exists|i: int|
                    0 <= i < found.len() && (#[trigger] found[i]).col <= at < found[i].col
                        + found[i].len
        }),
{
    lemma_row_hits(ascii_lowered(line), ascii_lowered(query), row, 0);
    let hay = ascii_lowered(line);
    let needle = ascii_lowered(query);
    let found = row_hits(hay, needle, row, 0);
    assert forall|at: int| #[trigger] stands_at(hay, needle, at) implies exists|i: int|
        0 <= i < found.len() && (#[trigger] found[i]).col <= at < found[i].col + found[i].len by {
        let k = choose|k: int|
            0 <= k < found.len() && {
                let hit = #[trigger] found[k];
                hit.col <= at < hit.col + needle.len()
            };
        assert(found[k].len == needle.len());
    }
}

/// Stepping through all the hits one by one returns to where it began.
pub proof fn law_stepping_forth_and_back(count: int, current: int, delta: int)
    requires
        0 <= current < count,
    ensures
        stepped(stepped(current, delta, count), -delta, count) == current,
{
    vstd::arithmetic::div_mod::lemma_sub_mod_noop_right(-delta, -(current + delta), count);
    vstd::arithmetic::div_mod::lemma_fundamental_div_mod(current + delta, count);
    let q = (current + delta) / count;
    assert((current + delta) % count - delta == current + count * (-q)) by (nonlinear_arith)
        requires
            (current + delta) == count * q + (current + delta) % count,
    ;
    vstd::arithmetic::div_mod::lemma_mod_multiples_vanish(-q, current, count);
    vstd::arithmetic::div_mod::lemma_small_mod(current as nat, count as nat);
    assert(count * (-q) + current == current + count * (-q));
}

/// Whether these hits are all that a query has in the lines: each is a place where the
/// query can be read, they come in reading order without overlapping, and every place in
/// every line where the query can be read is one of them or begins inside one.
pub open spec fn finds_everything(
    matches: Seq<SearchMatch>,
    lines: Seq<TerminalLine>,
    query: Seq<char>,
) -> bool {
    &&& query.len() == 0 ==> matches.len() == 0
    &&& forall|i: int|
        0 <= i < matches.len() ==> {
            let hit = #[trigger] matches[i];
            &&& hit.row < lines.len()
            &&& hit.len == query.len()
            &&& reads_at(lines[hit.row as int].text(), query, hit.col as int)
        }
    &&& forall|i: int, j: int|
        0 <= i < j < matches.len() ==> {
            ||| (#[trigger] matches[i]).row < (#[trigger] matches[j]).row
            ||| matches[i].row == matches[j].row && matches[i].col + matches[i].len
                <= matches[j].col
        }
    &&& forall|row: int, at: int|
        0 <= row < lines.len() && query.len() > 0 && #[trigger] reads_at(
            lines[row].text(),
            query,
            at,
        ) ==> has_hit(matches, row, at)
}

/// Whether one of the hits covers a place of a row.
pub open spec fn has_hit(matches: Seq<SearchMatch>, row: int, at: int) -> bool {
    exists|i: int|
        0 <= i < matches.len() && (#[trigger] matches[i]).row == row && matches[i].col <= at
            < matches[i].col + matches[i].len
}

proof fn lemma_nothing_is_found_of_nothing(lines: Seq<TerminalLine>, query: Seq<char>)
    requires
        query.len() == 0,
    ensures
        finds_everything(Seq::empty(), lines, query),
{
}

proof fn lemma_rows_found(lines: Seq<TerminalLine>, query: Seq<char>, count: int)
    requires
        query.len() > 0,
        0 <= count <= lines.len() <= usize::MAX,
        forall|k: int| 0 <= k < lines.len() ==> (#[trigger] lines[k]).text().len() <= usize::MAX,
    ensures
        finds_everything(hits(lines, query, count), lines.take(count), query),
    decreases count,
{
    let found = hits(lines, query, count);
    let shown = lines.take(count);
    if count > 0 {
        lemma_rows_found(lines, query, count - 1);
        let row = count - 1;
        let before = hits(lines, query, row);
        let earlier = lines.take(row);
        let hay = ascii_lowered(lines[row].text());
        let needle = ascii_lowered(query);
        let here = row_hits(hay, needle, row, 0);
        lemma_row_hits(hay, needle, row, 0);
        assert(lines[row].text().len() <= usize::MAX);
        assert(found == before + here);
        assert forall|i: int| 0 <= i < found.len() implies {
            let hit = #[trigger] found[i];
            &&& hit.row < shown.len()
            &&& hit.len == query.len()
            &&& reads_at(shown[hit.row as int].text(), query, hit.col as int)
        } by {
            if i < before.len() {
                assert(found[i] == before[i]);
                assert(earlier[found[i].row as int] == shown[found[i].row as int]);
            } else {
                let hit = here[i - before.len()];
                assert(found[i] == hit);
                law_a_lowered_query_stands_where_it_reads(
                    lines[row].text(),
                    query,
                    hit.col as int,
                );
            }
        }
        assert forall|i: int, j: int| 0 <= i < j < found.len() implies {
            ||| (#[trigger] found[i]).row < (#[trigger] found[j]).row
            ||| found[i].row == found[j].row && found[i].col + found[i].len <= found[j].col
        } by {
            if j < before.len() {
                assert(found[i] == before[i] && found[j] == before[j]);
            } else {
                assert(found[j] == here[j - before.len()]);
                if i < before.len() {
                    assert(found[i] == before[i]);
                } else {
                    assert(found[i] == here[i - before.len()]);
                }
            }
        }
        assert forall|r: int, at: int|
            0 <= r < shown.len() && query.len() > 0 && #[trigger] reads_at(
                shown[r].text(),
                query,
                at,
            ) implies has_hit(found, r, at) by {
            if r < row {
                assert(earlier[r] == shown[r]);
                assert(has_hit(before, r, at));
                let k = choose|k: int|
                    0 <= k < before.len() && (#[trigger] before[k]).row == r && before[k].col <= at
                        < before[k].col + before[k].len;
                assert(found[k] == before[k]);
            } else {
                law_a_lowered_query_stands_where_it_reads(lines[row].text(), query, at);
                let k = choose|k: int|
                    0 <= k < here.len() && {
                        let hit = #[trigger] here[k];
                        hit.col <= at < hit.col + needle.len()
                    };
                assert(here[k].len == needle.len() && here[k].row == row);
                assert(found[before.len() + k] == here[k]);
            }
        }
    }
}

/// The whole scrollback is searched: every place in every line where the query can be
/// read, without regard to ASCII case, is a hit or begins inside one, and every hit is
/// such a place. The hits come in reading order and do not overlap.
pub proof fn law_search_finds_everything(lines: Seq<TerminalLine>, query: Seq<char>)
    requires
        lines.len() <= usize::MAX,
        forall|k: int| 0 <= k < lines.len() ==> (#[trigger] lines[k]).text().len() <= usize::MAX,
    ensures
        finds_everything(hits(lines, query, lines.len() as int), lines, query),
{
    if query.len() == 0 {
        lemma_nothing_hits_nothing(lines, query, lines.len() as int);
    } else {
        assert(lines.take(lines.len() as int) =~= lines);
        lemma_rows_found(lines, query, lines.len() as int);
    }
}

/// One step goes to the next hit and from the last to the first; one step back goes to the
/// hit before and from the first to the last. Steps add up.
pub proof fn law_a_step_goes_to_the_neighbour(current: int, count: int, one: int, more: int)
    requires
        0 <= current < count,
    ensures
        stepped(current, 0, count) == current,
        stepped(current, 1, count) == if current == count - 1 {
            0
        } else {
            current + 1
        },
        stepped(current, -1, count) == if current == 0 {
            count - 1
        } else {
            current - 1
        },
        stepped(stepped(current, one, count), more, count) == stepped(current, one + more, count),
        0 <= stepped(current, one, count) < count,
{
    vstd::arithmetic::div_mod::lemma_mod_bound(current + one, count);
    vstd::arithmetic::div_mod::lemma_small_mod(current as nat, count as nat);
    if current == count - 1 {
        vstd::arithmetic::div_mod::lemma_mod_self_0(count);
    } else {
        vstd::arithmetic::div_mod::lemma_small_mod((current + 1) as nat, count as nat);
    }
    if current == 0 {
        vstd::arithmetic::div_mod::lemma_mod_multiples_vanish(1, -1, count);
        vstd::arithmetic::div_mod::lemma_small_mod((count - 1) as nat, count as nat);
    } else {
        vstd::arithmetic::div_mod::lemma_small_mod((current - 1) as nat, count as nat);
    }
    vstd::arithmetic::div_mod::lemma_add_mod_noop_right(more, current + one, count);
}

/// The window that is scrolled for a hit shows it, and has a third of its rows above it
/// where the scrollback reaches that far both ways.
pub proof fn law_the_current_hit_is_shown(hit: SearchMatch, rows: u16, total_rows: int)
    requires
        rows > 0,
        hit.row < total_rows,
    ensures
        ({
            let offset = scroll_for_hit(hit, rows as int, total_rows);
            let first = top_row(total_rows, rows, offset);
            &&& 0 <= offset
            &&& first <= hit.row < first + rows
            &&& rows / 3 <= hit.row && hit.row - rows / 3 + rows <= total_rows ==> first == hit.row
                - rows / 3
            &&& hit.row < rows / 3 ==> first == 0
        }),
{
}

/// A row is marked at exactly the hits that lie in it, in their order, and the current hit
/// is told apart from the others.
pub proof fn law_a_row_is_marked_at_its_hits(
    matches: Seq<SearchMatch>,
    current: Option<SearchMatch>,
    row: int,
)
    ensures
        ({
            let here = matches.filter(|hit: SearchMatch| hit.row == row);
            let marks = line_highlights(matches, current, row, matches.len() as int);
            &&& marks.len() == here.len()
            &&& forall|k: int|
                0 <= k < marks.len() ==> {
                    &&& (#[trigger] marks[k]).0 == here[k].col
                    &&& here[k].col + here[k].len <= usize::MAX ==> marks[k].1 == here[k].col
                        + here[k].len
                    &&& marks[k].2 <==> current == Some(here[k])
                }
        }),
{
    assert(matches.take(matches.len() as int) =~= matches);
    lemma_marks(matches, current, row, matches.len() as int);
}

proof fn lemma_marks(
    matches: Seq<SearchMatch>,
    current: Option<SearchMatch>,
    row: int,
    n: int,
)
    requires
        0 <= n <= matches.len(),
    ensures
        ({
            let here = matches.take(n).filter(|hit: SearchMatch| hit.row == row);
            let marks = line_highlights(matches, current, row, n);
            &&& marks.len() == here.len()
            &&& forall|k: int|
                0 <= k < marks.len() ==> {
                    &&& (#[trigger] marks[k]).0 == here[k].col
                    &&& here[k].col + here[k].len <= usize::MAX ==> marks[k].1 == here[k].col
                        + here[k].len
                    &&& marks[k].2 <==> current == Some(here[k])
                }
        }),
    decreases n,
{
    reveal(Seq::filter);
    let head = matches.take(n);
    if n > 0 {
        lemma_marks(matches, current, row, n - 1);
        assert(head.drop_last() =~= matches.take(n - 1));
        assert(head.last() == matches[n - 1]);
    }
}

} // verus!

//! Reading text and selections out of a terminal snapshot.
//!
//! Selections are anchored in absolute scrollback rows, which is what lets one
//! survive scrolling; mapping into the viewport happens at the point of use.

use vstd::prelude::*;
use vstd::string::*;

use crate::terminal::{
    cells_text, TerminalLine, TerminalPoint, TerminalSelection, TerminalSnapshot,
};
use crate::text::{
    alphanumeric, chars_of, is_alphanumeric, join, joined,
    law_trimming_the_end_cuts_the_blanks_alone, string_between, texts, trim_back, trim_end, white,
};

verus! {

/// How far back the viewport can be scrolled.
pub open spec fn max_scroll(total_rows: int, rows: int) -> int {
    let shown = if rows < 1 {
        1
    } else {
        rows
    };
    if total_rows > shown {
        total_rows - shown
    } else {
        0
    }
}

/// How far back a viewport of `rows` rows can be scrolled: a viewport always
/// shows at least one row.
pub fn max_scroll_offset_for(snapshot: &TerminalSnapshot, rows: usize) -> (r: usize)
    ensures
        r == max_scroll(snapshot.total_rows as int, rows as int),
{
    let shown: usize = if rows < 1 {
        1
    } else {
        rows
    };
    snapshot.total_rows.saturating_sub(shown)
}

/// The characters of a line as they stand.
pub fn raw_line_text(line: &TerminalLine) -> (r: String)
    ensures
        r@ == line.text(),
{
    let mut out: String = String::new();
    let mut i: usize = 0;
    while i < line.cells.len()
        invariant
            i <= line.cells.len(),
            out@ == cells_text(line.cells@.take(i as int)),
        decreases line.cells.len() - i,
    {
        out.append(line.cells[i].text.as_str());
        i += 1;
        assert(line.cells@.take(i as int).drop_last() =~= line.cells@.take(i - 1));
    }
    assert(line.cells@.take(i as int) =~= line.cells@);
    out
}

/// The characters of a line without the whitespace it ends with.
pub fn line_to_text(line: &TerminalLine) -> (r: String)
    ensures
        r@ == trim_back(line.text()),
{
    let raw: String = raw_line_text(line);
    trim_end(raw.as_str())
}

/// The lines of a snapshot, each without its trailing whitespace.
pub open spec fn snapshot_lines(lines: Seq<TerminalLine>) -> Seq<Seq<char>> {
    Seq::new(lines.len(), |i: int| trim_back(lines[i].text()))
}

/// The text of the whole window: its lines, each without trailing whitespace,
/// joined by line feeds, and nothing blank at the very end.
pub fn snapshot_to_text(snapshot: &TerminalSnapshot) -> (r: String)
    ensures
        r@ == trim_back(joined(snapshot_lines(snapshot.lines@), seq!['\n'])),
{
    let mut parts: Vec<String> = Vec::new();
    let mut i: usize = 0;
    while i < snapshot.lines.len()
        invariant
            i <= snapshot.lines.len(),
            parts.len() == i,
            forall|j: int|
                0 <= j < i ==> #[trigger] parts@[j]@ == trim_back(snapshot.lines@[j].text()),
        decreases snapshot.lines.len() - i,
    {
        parts.push(line_to_text(&snapshot.lines[i]));
        i += 1;
    }
    proof {
        assert(texts(parts@) =~= snapshot_lines(snapshot.lines@));
        reveal_strlit("\n");
        assert("\n"@ =~= seq!['\n']);
    }
    let all: String = join(&parts, "\n");
    trim_end(all.as_str())
}

/// Whether one position stands before another or at it, in reading order.
pub open spec fn not_after(a: TerminalPoint, b: TerminalPoint) -> bool {
    a.row < b.row || (a.row == b.row && a.col <= b.col)
}

/// A selection in reading order, or none where it is empty.
pub open spec fn in_reading_order(selection: TerminalSelection) -> Option<
    (TerminalPoint, TerminalPoint),
> {
    if selection.start == selection.end {
        None
    } else if not_after(selection.start, selection.end) {
        Some((selection.start, selection.end))
    } else {
        Some((selection.end, selection.start))
    }
}

/// A selection in reading order, or none where it is empty.
pub fn normalized_selection(selection: TerminalSelection) -> (r: Option<
    (TerminalPoint, TerminalPoint),
>)
    ensures
        r == in_reading_order(selection),
{
    let forward: bool = selection.start.row < selection.end.row || (selection.start.row
        == selection.end.row && selection.start.col <= selection.end.col);
    let (start, end) = if forward {
        (selection.start, selection.end)
    } else {
        (selection.end, selection.start)
    };
    if start == end {
        None
    } else {
        Some((start, end))
    }
}

/// What a selection from `start` to `end` takes of the line in row `row`.
pub open spec fn selected_part(
    line: Seq<char>,
    start: TerminalPoint,
    end: TerminalPoint,
    row: int,
) -> Seq<char> {
    let from = if row == start.row {
        start.col as int
    } else {
        0
    };
    let to = if row == end.row {
        end.col as int
    } else {
        line.len() as int
    };
    if from >= to || from >= line.len() {
        Seq::empty()
    } else {
        line.subrange(
            from,
            if to < line.len() {
                to
            } else {
                line.len() as int
            },
        )
    }
}

/// The first shown row that the selection reaches.
pub open spec fn first_selected(snapshot: &TerminalSnapshot, start: TerminalPoint) -> int {
    if start.row < snapshot.first_row {
        snapshot.first_row as int
    } else {
        start.row as int
    }
}

/// One past the last shown row that the selection reaches.
pub open spec fn past_selected(snapshot: &TerminalSnapshot, end: TerminalPoint) -> int {
    if end.row < snapshot.first_row + snapshot.lines@.len() {
        end.row + 1
    } else {
        snapshot.first_row + snapshot.lines@.len()
    }
}

/// What a selection takes of each of the shown rows that it reaches.
pub open spec fn selected_lines(
    snapshot: &TerminalSnapshot,
    start: TerminalPoint,
    end: TerminalPoint,
) -> Seq<Seq<char>> {
    let lo = first_selected(snapshot, start);
    let hi = past_selected(snapshot, end);
    Seq::new(
        if hi > lo {
            (hi - lo) as nat
        } else {
            0
        },
        |k: int| selected_part(snapshot.row_text(lo + k), start, end, lo + k),
    )
}

/// The text of a selection.
pub open spec fn selection_text(
    snapshot: &TerminalSnapshot,
    selection: TerminalSelection,
) -> Seq<char> {
    match in_reading_order(selection) {
        None => Seq::empty(),
        Some((start, end)) => trim_back(joined(selected_lines(snapshot, start, end), seq!['\n'])),
    }
}

/// What a selection takes of one line.
fn part_of_line(line: &TerminalLine, start: TerminalPoint, end: TerminalPoint, row: usize) -> (r:
    String)
    ensures
        r@ == selected_part(line.text(), start, end, row as int),
{
    let text: String = raw_line_text(line);
    let chars: Vec<char> = chars_of(text.as_str());
    let start_col: usize = if row == start.row {
        start.col
    } else {
        0
    };
    let end_col: usize = if row == end.row {
        end.col
    } else {
        chars.len()
    };
    if start_col >= end_col || start_col >= chars.len() {
        String::new()
    } else {
        let end_col: usize = if end_col < chars.len() {
            end_col
        } else {
            chars.len()
        };
        string_between(&chars, start_col, end_col)
    }
}

/// The selected text: what the selection takes of each row the window shows,
/// joined by line feeds, without trailing whitespace.
pub fn selection_to_text(snapshot: &TerminalSnapshot, selection: TerminalSelection) -> (r: String)
    ensures
        r@ == selection_text(snapshot, selection),
{
    let (start, end) = match normalized_selection(selection) {
        None => {
            return String::new();
        },
        Some(points) => points,
    };
    let ghost lo = first_selected(snapshot, start);
    let ghost hi = past_selected(snapshot, end);
    let ghost wanted = selected_lines(snapshot, start, end);
    let mut parts: Vec<String> = Vec::new();
    let mut i: usize = if start.row > snapshot.first_row {
        start.row - snapshot.first_row
    } else {
        0
    };
    assert(snapshot.first_row + i == lo);
    while i < snapshot.lines.len()
        invariant
            lo == first_selected(snapshot, start),
            hi == past_selected(snapshot, end),
            wanted == selected_lines(snapshot, start, end),
            snapshot.first_row + i >= lo,
            snapshot.first_row + i <= hi || parts.len() == 0,
            parts.len() == snapshot.first_row + i - lo,
            parts.len() <= wanted.len(),
            forall|j: int| 0 <= j < parts.len() ==> #[trigger] parts@[j]@ == wanted[j],
        ensures
            parts.len() == wanted.len(),
            forall|j: int| 0 <= j < parts.len() ==> #[trigger] parts@[j]@ == wanted[j],
        decreases snapshot.lines.len() - i,
    {
        if i > usize::MAX - snapshot.first_row {
            break;
        }
        let row: usize = snapshot.first_row + i;
        if row > end.row {
            break;
        }
        assert(snapshot.shows(row as int));
        parts.push(part_of_line(&snapshot.lines[i], start, end, row));
        assert(wanted[parts.len() - 1] == selected_part(
            snapshot.row_text(row as int),
            start,
            end,
            row as int,
        ));
        i += 1;
    }
    proof {
        assert(texts(parts@) =~= wanted);
        reveal_strlit("\n");
        assert("\n"@ =~= seq!['\n']);
    }
    let all: String = join(&parts, "\n");
    trim_end(all.as_str())
}

/// The text of an absolute scrollback row, or nothing where the window does
/// not show it.
pub fn snapshot_line_text(snapshot: &TerminalSnapshot, row: usize) -> (r: String)
    ensures
        r@ == snapshot.row_text(row as int),
{
    if row < snapshot.first_row || row - snapshot.first_row >= snapshot.lines.len() {
        String::new()
    } else {
        raw_line_text(&snapshot.lines[row - snapshot.first_row])
    }
}

/// Whether a character belongs to a word: a letter, a digit, or punctuation
/// that is common inside paths, addresses and host names.
pub open spec fn word_char(c: char) -> bool {
    alphanumeric(c) || c == '_' || c == '-' || c == '.' || c == '/' || c == '~' || c == ':' || c
        == '@' || c == '+'
}

fn is_word_char(c: char) -> (r: bool)
    ensures
        r == word_char(c),
{
    is_alphanumeric(c) || c == '_' || c == '-' || c == '.' || c == '/' || c == '~' || c == ':' || c
        == '@' || c == '+'
}

/// Whether `from..to` is the longest run of word characters around `col`.
pub open spec fn word_around(line: Seq<char>, col: int, from: int, to: int) -> bool {
    &&& 0 <= from <= col < to <= line.len()
    &&& forall|i: int| from <= i < to ==> word_char(#[trigger] line[i])
    &&& from > 0 ==> !word_char(line[from - 1])
    &&& to < line.len() ==> !word_char(line[to])
}

/// The span a double click at `col` selects: the word there, or the single
/// cell where there is no word, or nothing past the end of the line.
pub fn word_bounds(line: &str, col: usize) -> (r: Option<(usize, usize)>)
    ensures
        r is None <==> col >= line@.len(),
        r matches Some((from, to)) ==> if word_char(line@[col as int]) {
            word_around(line@, col as int, from as int, to as int)
        } else {
            from == col && to == col + 1
        },
{
    let chars: Vec<char> = chars_of(line);
    if col >= chars.len() {
        return None;
    }
    if !is_word_char(chars[col]) {
        return Some((col, col + 1));
    }
    let mut start: usize = col;
    while start > 0 && is_word_char(chars[start - 1])
        invariant
            start <= col < chars.len(),
            chars@ == line@,
            forall|i: int| start <= i <= col ==> word_char(#[trigger] line@[i]),
        decreases start,
    {
        start -= 1;
    }
    let mut end: usize = col + 1;
    while end < chars.len() && is_word_char(chars[end])
        invariant
            start <= col < end <= chars.len(),
            chars@ == line@,
            forall|i: int| start <= i < end ==> word_char(#[trigger] line@[i]),
        decreases chars.len() - end,
    {
        end += 1;
    }
    Some((start, end))
}

/// The columns of a row that a selection covers, up to the last column that
/// can be named where it runs on into the next row.
pub open spec fn row_span(selection: TerminalSelection, row: int) -> Option<(usize, usize)> {
    match in_reading_order(selection) {
        None => None,
        Some((start, end)) => if row < start.row || row > end.row {
            None
        } else {
            let from: usize = if row == start.row {
                start.col
            } else {
                0
            };
            let to: usize = if row == end.row {
                end.col
            } else {
                usize::MAX
            };
            if from < to {
                Some((from, to))
            } else {
                None
            }
        },
    }
}

/// The columns of a row that a selection covers.
pub fn selection_range_for_row(selection: TerminalSelection, row: usize) -> (r: Option<
    (usize, usize),
>)
    ensures
        r == row_span(selection, row as int),
{
    match normalized_selection(selection) {
        None => None,
        Some((start, end)) => {
            if row < start.row || row > end.row {
                return None;
            }
            let start_col: usize = if row == start.row {
                start.col
            } else {
                0
            };
            let end_col: usize = if row == end.row {
                end.col
            } else {
                usize::MAX
            };
            if start_col < end_col {
                Some((start_col, end_col))
            } else {
                None
            }
        },
    }
}

/// The last row of a window.
pub open spec fn last_shown(first_row: int, rows: int) -> int {
    if rows > 0 {
        first_row + rows - 1
    } else {
        first_row
    }
}

/// A selection in the rows of a window, clipped to it.
pub open spec fn clipped(selection: TerminalSelection, first_row: usize, rows: usize) -> Option<
    TerminalSelection,
> {
    let last = last_shown(first_row as int, rows as int);
    match in_reading_order(selection) {
        None => None,
        Some((start, end)) => if end.row < first_row || start.row > last {
            None
        } else {
            Some(
                TerminalSelection {
                    start: if start.row < first_row {
                        TerminalPoint { row: 0, col: 0 }
                    } else {
                        TerminalPoint { row: (start.row - first_row) as usize, col: start.col }
                    },
                    end: if end.row > last {
                        TerminalPoint { row: (last - first_row) as usize, col: usize::MAX }
                    } else {
                        TerminalPoint { row: (end.row - first_row) as usize, col: end.col }
                    },
                },
            )
        },
    }
}

/// A selection in the rows of the window that shows `rows` rows from
/// `first_row` on. What stands above it starts at its first cell, what stands
/// below it runs to the end of its last row, and a selection that is entirely
/// outside is none.
pub fn selection_for_viewport(
    selection: TerminalSelection,
    first_row: usize,
    rows: usize,
) -> (r: Option<TerminalSelection>)
    requires
        last_shown(first_row as int, rows as int) <= usize::MAX,
    ensures
        r == clipped(selection, first_row, rows),
{
    match normalized_selection(selection) {
        None => None,
        Some((start, end)) => {
            let last_row: usize = first_row + rows.saturating_sub(1);
            if end.row < first_row || start.row > last_row {
                return None;
            }
            let start: TerminalPoint = if start.row < first_row {
                TerminalPoint { row: 0, col: 0 }
            } else {
                TerminalPoint { row: start.row - first_row, col: start.col }
            };
            let end: TerminalPoint = if end.row > last_row {
                TerminalPoint { row: rows.saturating_sub(1), col: usize::MAX }
            } else {
                TerminalPoint { row: end.row - first_row, col: end.col }
            };
            Some(TerminalSelection { start, end })
        },
    }
}

// What holds of every selection.

/// Dragging the other way round selects the same.
pub proof fn law_reversed_drag_selects_the_same(
    snapshot: &TerminalSnapshot,
    selection: TerminalSelection,
)
    ensures
        ({
            let reversed = TerminalSelection { start: selection.end, end: selection.start };
            &&& in_reading_order(reversed) == in_reading_order(selection)
            &&& selection_text(snapshot, reversed) == selection_text(snapshot, selection)
            &&& forall|row: int| row_span(reversed, row) == row_span(selection, row)
        }),
{
}

/// A selection clipped to a window covers, in each row of the window, the same
/// columns as the selection covers in that row of the scrollback.
pub proof fn law_clipping_keeps_what_is_shown(
    selection: TerminalSelection,
    first_row: usize,
    rows: usize,
    row: int,
)
    requires
        last_shown(first_row as int, rows as int) <= usize::MAX,
        0 <= row <= last_shown(first_row as int, rows as int) - first_row,
    ensures
        match clipped(selection, first_row, rows) {
            None => row_span(selection, first_row + row) is None,
            Some(shown) => row_span(shown, row) == row_span(selection, first_row + row),
        },
{
}

/// A clipped selection stays inside its window.
pub proof fn law_clipped_selection_stays_in_the_window(
    selection: TerminalSelection,
    first_row: usize,
    rows: usize,
)
    requires
        last_shown(first_row as int, rows as int) <= usize::MAX,
    ensures
        clipped(selection, first_row, rows) matches Some(shown) ==> {
            &&& shown.start.row <= last_shown(first_row as int, rows as int) - first_row
            &&& shown.end.row <= last_shown(first_row as int, rows as int) - first_row
            &&& not_after(shown.start, shown.end)
        },
{
}

/// Scrolling does not change what a selection copies, as long as the rows it
/// covers stay in the window.
pub proof fn law_selection_survives_scrolling(
    before: &TerminalSnapshot,
    after: &TerminalSnapshot,
    selection: TerminalSelection,
)
    requires
        forall|row: int| before.shows(row) && after.shows(row) ==> before.row_text(row)
            == after.row_text(row),
        before.shows(selection.start.row as int),
        before.shows(selection.end.row as int),
        after.shows(selection.start.row as int),
        after.shows(selection.end.row as int),
    ensures
        selection_text(before, selection) == selection_text(after, selection),
{
    if let Some((start, end)) = in_reading_order(selection) {
        let a = selected_lines(before, start, end);
        let b = selected_lines(after, start, end);
        assert(a.len() == b.len());
        assert forall|k: int| 0 <= k < a.len() implies a[k] == b[k] by {
            let row = start.row + k;
            assert(before.shows(row) && after.shows(row));
            assert(before.row_text(row) == after.row_text(row));
        }
        assert(a =~= b);
    }
}

/// Whether a cell of the scrollback lies between the two ends of a selection, at the first
/// of them or after it and before the second, whichever way it was dragged.
pub open spec fn between_the_ends(selection: TerminalSelection, row: int, col: int) -> bool {
    let (a, b) = (selection.start, selection.end);
    ||| {
        &&& a.row < row || (a.row == row && a.col <= col)
        &&& row < b.row || (row == b.row && col < b.col)
    }
    ||| {
        &&& b.row < row || (b.row == row && b.col <= col)
        &&& row < a.row || (row == a.row && col < a.col)
    }
}

/// A cell is marked exactly where it lies between the two ends of the selection.
pub proof fn law_a_cell_is_marked_between_the_ends(
    selection: TerminalSelection,
    row: int,
    col: int,
)
    requires
        0 <= col < usize::MAX,
    ensures
        between_the_ends(selection, row, col) <==> (row_span(selection, row) matches Some(
            (from, to),
        ) && from <= col < to),
        row_span(selection, row) matches Some((from, to)) ==> from < to,
{
}

/// Whether this is what a selection marks of a row: the characters between its ends, from
/// the first to the last, and no others.
pub open spec fn is_marked_part(
    part: Seq<char>,
    line: Seq<char>,
    selection: TerminalSelection,
    row: int,
    from: int,
) -> bool {
    &&& 0 <= from <= from + part.len() <= line.len()
    &&& part == line.subrange(from, from + part.len())
    &&& forall|col: int|
        0 <= col < line.len() ==> (#[trigger] between_the_ends(selection, row, col) <==> from <= col
            < from + part.len())
}

/// What a selection copies of a row is what it marks of it: the characters of the row in
/// the columns that are marked, and nothing where none is.
pub proof fn law_what_is_copied_is_what_is_marked(
    line: Seq<char>,
    selection: TerminalSelection,
    row: int,
)
    requires
        line.len() < usize::MAX,
        in_reading_order(selection) matches Some((start, end)) && start.row <= row <= end.row,
    ensures
        ({
            let (start, end) = in_reading_order(selection)->0;
            let part = selected_part(line, start, end, row);
            &&& exists|from: int| #[trigger] is_marked_part(part, line, selection, row, from)
            &&& match row_span(selection, row) {
                Some((from, to)) => part == line.subrange(
                    cut_at(from as int, line.len() as int),
                    cut_at(to as int, line.len() as int),
                ),
                None => part.len() == 0,
            }
        }),
{
    let (start, end) = in_reading_order(selection)->0;
    let part = selected_part(line, start, end, row);
    match row_span(selection, row) {
        Some((from, to)) => {
            let (a, b) = (
                cut_at(from as int, line.len() as int),
                cut_at(to as int, line.len() as int),
            );
            assert(part =~= line.subrange(a, b));
            assert forall|col: int| 0 <= col < line.len() implies (#[trigger] between_the_ends(
                selection,
                row,
                col,
            ) <==> a <= col < a + part.len()) by {
                law_a_cell_is_marked_between_the_ends(selection, row, col);
            }
            assert(is_marked_part(part, line, selection, row, a));
        },
        None => {
            assert(part =~= line.subrange(0, 0));
            assert forall|col: int| 0 <= col < line.len() implies !(#[trigger] between_the_ends(
                selection,
                row,
                col,
            )) by {
                law_a_cell_is_marked_between_the_ends(selection, row, col);
            }
            assert(is_marked_part(part, line, selection, row, 0));
        },
    }
}

/// A column, cut at the end of a row.
pub open spec fn cut_at(col: int, len: int) -> int {
    if col < len {
        col
    } else {
        len
    }
}

/// A selection copies its part of every row that is shown, from the row of its first end
/// to the row of its second, one to a line, and nothing of any other row.
pub proof fn law_a_selection_copies_each_row_it_reaches(
    snapshot: &TerminalSnapshot,
    start: TerminalPoint,
    end: TerminalPoint,
)
    requires
        not_after(start, end),
        start != end,
        snapshot.shows(start.row as int),
        snapshot.shows(end.row as int),
    ensures
        ({
            let selection = TerminalSelection { start, end };
            let parts = Seq::new(
                (end.row - start.row + 1) as nat,
                |k: int|
                    selected_part(snapshot.row_text(start.row + k), start, end, start.row + k),
            );
            &&& selection_text(snapshot, selection) == trim_back(joined(parts, seq!['\n']))
            &&& start.row < end.row ==> {
                &&& start.col <= snapshot.row_text(start.row as int).len() ==> parts[0]
                    == snapshot.row_text(start.row as int).skip(start.col as int)
                &&& end.col <= snapshot.row_text(end.row as int).len() ==> parts.last()
                    == snapshot.row_text(end.row as int).take(end.col as int)
                &&& forall|row: int|
                    start.row < row < end.row ==> parts[row - start.row] == #[trigger]
                        snapshot.row_text(row)
            }
        }),
{
    let parts = Seq::new(
        (end.row - start.row + 1) as nat,
        |k: int| selected_part(snapshot.row_text(start.row + k), start, end, start.row + k),
    );
    assert(selected_lines(snapshot, start, end) =~= parts);
    if start.row < end.row {
        let first = snapshot.row_text(start.row as int);
        let last = snapshot.row_text(end.row as int);
        if start.col <= first.len() {
            assert(parts[0] =~= first.skip(start.col as int));
        }
        if end.col <= last.len() {
            assert(parts.last() =~= last.take(end.col as int));
        }
        assert forall|row: int| start.row < row < end.row implies parts[row - start.row]
            == #[trigger] snapshot.row_text(row) by {
            assert(parts[row - start.row] =~= snapshot.row_text(row));
        }
    }
}

/// A selection inside one row that is shown copies the characters of the row between its
/// two columns, without the blanks that they end with.
pub proof fn law_a_selection_in_one_row_copies_its_columns(
    snapshot: &TerminalSnapshot,
    row: usize,
    a: usize,
    b: usize,
)
    requires
        snapshot.shows(row as int),
        a < b <= snapshot.row_text(row as int).len(),
    ensures
        ({
            let selection = TerminalSelection {
                start: TerminalPoint { row, col: a },
                end: TerminalPoint { row, col: b },
            };
            selection_text(snapshot, selection) == trim_back(
                snapshot.row_text(row as int).subrange(a as int, b as int),
            )
        }),
{
    let start = TerminalPoint { row, col: a };
    let end = TerminalPoint { row, col: b };
    let part = snapshot.row_text(row as int).subrange(a as int, b as int);
    assert(selected_lines(snapshot, start, end) =~= seq![part]);
}

/// Nothing is copied of a selection that is empty, nor of one that no row shown reaches.
pub proof fn law_nothing_is_copied_of_nothing(
    snapshot: &TerminalSnapshot,
    selection: TerminalSelection,
)
    requires
        selection.start == selection.end || (forall|row: int|
            snapshot.shows(row) ==> (row < selection.start.row && row < selection.end.row) || (row
                > selection.start.row && row > selection.end.row)),
    ensures
        selection_text(snapshot, selection).len() == 0,
{
    if selection.start != selection.end {
        let (start, end) = in_reading_order(selection)->0;
        let all = selected_lines(snapshot, start, end);
        if all.len() > 0 {
            assert(snapshot.shows(first_selected(snapshot, start)));
        }
        assert(joined(all, seq!['\n']) =~= Seq::empty());
    }
}

/// The characters that belong to a word are the letters and digits and these eight marks.
pub proof fn law_these_characters_make_words(c: char)
    ensures
        word_char(c) <==> alphanumeric(c) || "_-./~:@+"@.contains(c),
{
    reveal_strlit("_-./~:@+");
    let marks = "_-./~:@+"@;
    if c == '_' {
        assert(marks[0] == c);
    } else if c == '-' {
        assert(marks[1] == c);
    } else if c == '.' {
        assert(marks[2] == c);
    } else if c == '/' {
        assert(marks[3] == c);
    } else if c == '~' {
        assert(marks[4] == c);
    } else if c == ':' {
        assert(marks[5] == c);
    } else if c == '@' {
        assert(marks[6] == c);
    } else if c == '+' {
        assert(marks[7] == c);
    }
}

/// A word is all of the word characters around a place: a place belongs to it exactly where
/// nothing but word characters lies from the one to the other.
pub proof fn law_a_word_is_all_of_it(line: Seq<char>, col: int, from: int, to: int, i: int)
    requires
        word_around(line, col, from, to),
        0 <= i < line.len(),
    ensures
        from <= i < to <==> (forall|k: int|
            (i <= k <= col || col <= k <= i) ==> word_char(#[trigger] line[k])),
{
    if i < from {
        assert(!word_char(line[from - 1]));
    } else if i >= to {
        assert(!word_char(line[to]));
    }
}

/// A window can be scrolled back as far as there are rows above its first one; a window
/// shows at least one row.
pub proof fn law_the_window_scrolls_as_far_as_there_are_rows(total_rows: int, rows: int)
    requires
        0 <= total_rows,
        0 <= rows,
    ensures
        rows > 0 && total_rows >= rows ==> max_scroll(total_rows, rows) + rows == total_rows,
        rows > 0 && total_rows < rows ==> max_scroll(total_rows, rows) == 0,
        max_scroll(total_rows, 0) == max_scroll(total_rows, 1),
{
}

/// The text of the whole window is its lines in their order, each without the blanks at
/// its end, and no others.
pub proof fn law_the_whole_window_is_copied_line_by_line(lines: Seq<TerminalLine>, k: int)
    requires
        0 <= k < lines.len(),
    ensures
        ({
            let line = lines[k].text();
            let part = snapshot_lines(lines)[k];
            &&& snapshot_lines(lines).len() == lines.len()
            &&& part.len() <= line.len()
            &&& part == line.take(part.len() as int)
            &&& forall|i: int| part.len() <= i < line.len() ==> white(#[trigger] line[i])
            &&& part.len() > 0 ==> !white(part.last())
        }),
{
    law_trimming_the_end_cuts_the_blanks_alone(lines[k].text());
}

} // verus!

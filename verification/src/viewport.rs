//! The window onto a terminal's scrollback: scrolling, and selecting with the
//! mouse.

use vstd::prelude::*;
use vstd::string::*;

use crate::terminal::{TerminalPoint, TerminalScrollAction, TerminalSelection, TerminalSnapshot};
use crate::terminal_text::{
    law_a_selection_in_one_row_copies_its_columns, max_scroll, selection_text, selection_to_text, snapshot_line_text, snapshot_lines,
    snapshot_to_text, word_around, word_bounds, word_char,
};
use crate::text::{
    chars_of, joined, law_trimming_the_end_cuts_the_blanks_alone, trim_back, trim_end,
};

verus! {

/// The last click on the terminal: where, when, and the how manieth in a row.
#[derive(Debug, Clone, Copy, PartialEq, Eq, Structural)]
pub struct Click {
    pub point: TerminalPoint,
    pub at_millis: u64,
    pub count: u8,
}

/// What to tell the user after a scroll.
#[derive(Debug, Clone, Copy, PartialEq, Eq, Structural)]
pub enum ScrollNotice {
    AtBottom,
    RowsFromBottom(usize),
}

/// The state of the terminal that has the keyboard.
#[derive(Debug, Clone, Copy, PartialEq, Eq, Structural)]
pub struct TerminalView {
    /// How many rows the terminal shows.
    pub rows: u16,
    /// How many rows of the scrollback lie below the window.
    pub scroll_offset: usize,
    pub selection: Option<TerminalSelection>,
    /// A drag is extending the selection.
    pub selecting: bool,
    /// The pointer's cell in the window.
    pub pointer: Option<TerminalPoint>,
    pub click: Option<Click>,
    /// Rows to scroll at each step while a drag is past an edge.
    pub autoscroll: i32,
    pub context_menu: bool,
    pub notice: Option<ScrollNotice>,
}

/// How many rows a window shows: at least one.
pub open spec fn shown_rows(rows: u16) -> int {
    if rows == 0 {
        1
    } else {
        rows as int
    }
}

/// The lesser of two numbers.
pub open spec fn lesser(a: int, b: int) -> int {
    if a < b {
        a
    } else {
        b
    }
}

/// The scrollback row at the top of a window that is `offset` rows from the
/// bottom.
pub open spec fn top_row(total_rows: int, rows: u16, offset: int) -> int {
    max_scroll(total_rows, shown_rows(rows)) - lesser(
        offset,
        max_scroll(total_rows, shown_rows(rows)),
    )
}

/// Where a scroll leads from `offset` rows above the bottom.
pub open spec fn scrolled(offset: int, max: int, action: TerminalScrollAction) -> int {
    let from = lesser(offset, max);
    match action {
        TerminalScrollAction::Lines(lines) => if from + lines < 0 {
            0
        } else {
            lesser(from + lines, max)
        },
        TerminalScrollAction::Top => max,
        TerminalScrollAction::Bottom => 0,
    }
}

/// The rows to scroll at each step for a pointer that is `overshoot` rows past
/// an edge: as many, but at most five.
pub open spec fn autoscroll_speed(overshoot: int) -> int {
    if overshoot > 5 {
        5
    } else if overshoot < -5 {
        -5
    } else {
        overshoot
    }
}

/// The how manieth click in a row this is: a click on the same cell within
/// four tenths of a second goes on counting, from three back to one.
pub open spec fn click_count(last: Option<Click>, point: TerminalPoint, now: u64) -> int {
    match last {
        Some(click) => if click.point == point && now < click.at_millis + 400 {
            (click.count % 3) + 1
        } else {
            1
        },
        None => 1,
    }
}

/// Whether this is the selection of the word at a position.
pub open spec fn selects_word(
    snapshot: &TerminalSnapshot,
    point: TerminalPoint,
    selection: Option<TerminalSelection>,
) -> bool {
    let line = snapshot.row_text(point.row as int);
    if point.col >= line.len() {
        selection is None
    } else {
        &&& selection matches Some(s)
        &&& s.start.row == point.row
        &&& s.end.row == point.row
        &&& if word_char(line[point.col as int]) {
            word_around(line, point.col as int, s.start.col as int, s.end.col as int)
        } else {
            s.start.col == point.col && s.end.col == point.col + 1
        }
    }
}

/// Whether this is the selection of a whole line, without the blanks it ends
/// with.
pub open spec fn selects_line(
    snapshot: &TerminalSnapshot,
    point: TerminalPoint,
    selection: Option<TerminalSelection>,
) -> bool {
    &&& selection matches Some(s)
    &&& s.start == TerminalPoint { row: point.row, col: 0 }
    &&& s.end.row == point.row
    &&& s.end.col == trim_back(snapshot.row_text(point.row as int)).len()
}

/// The scrollback position of a cell of the window.
pub open spec fn absolute(first_row: int, cell: TerminalPoint) -> TerminalPoint {
    TerminalPoint {
        row: (if first_row + cell.row > usize::MAX {
            usize::MAX as int
        } else {
            first_row + cell.row
        }) as usize,
        col: cell.col,
    }
}

/// The scrollback position of the pointer, or of the first cell where there is
/// none.
pub open spec fn pointed(first_row: int, pointer: Option<TerminalPoint>) -> TerminalPoint {
    absolute(
        first_row,
        match pointer {
            Some(cell) => cell,
            None => TerminalPoint { row: 0, col: 0 },
        },
    )
}

/// Selects the word at a position, or nothing past the end of the line.
pub fn select_word_at(snapshot: &TerminalSnapshot, point: TerminalPoint) -> (r: Option<
    TerminalSelection,
>)
    ensures
        selects_word(snapshot, point, r),
{
    let line: String = snapshot_line_text(snapshot, point.row);
    match word_bounds(line.as_str(), point.col) {
        Some((from, to)) => Some(
            TerminalSelection {
                start: TerminalPoint { row: point.row, col: from },
                end: TerminalPoint { row: point.row, col: to },
            },
        ),
        None => None,
    }
}

/// Selects a whole line, without the blanks it ends with.
pub fn select_line_at(snapshot: &TerminalSnapshot, point: TerminalPoint) -> (r: Option<
    TerminalSelection,
>)
    ensures
        selects_line(snapshot, point, r),
{
    let line: String = snapshot_line_text(snapshot, point.row);
    let text: String = trim_end(line.as_str());
    let chars: Vec<char> = chars_of(text.as_str());
    Some(
        TerminalSelection {
            start: TerminalPoint { row: point.row, col: 0 },
            end: TerminalPoint { row: point.row, col: chars.len() },
        },
    )
}

/// The scrollback position of a cell of the window that starts at `first_row`.
pub fn terminal_selection_point(first_row: usize, cell: TerminalPoint) -> (r: TerminalPoint)
    ensures
        r == absolute(first_row as int, cell),
{
    TerminalPoint { row: first_row.saturating_add(cell.row), col: cell.col }
}

/// The text to copy: the selection, or the whole window where nothing is
/// selected.
pub open spec fn copied_text(
    snapshot: &TerminalSnapshot,
    selection: Option<TerminalSelection>,
) -> Seq<char> {
    if selection is Some && selection_text(snapshot, selection->0).len() > 0 {
        selection_text(snapshot, selection->0)
    } else {
        trim_back(joined(snapshot_lines(snapshot.lines@), seq!['\n']))
    }
}

/// The text to copy: the selection, or the whole window where nothing is
/// selected.
pub fn selected_terminal_text(
    snapshot: &TerminalSnapshot,
    selection: Option<TerminalSelection>,
) -> (r: String)
    ensures
        r@ == copied_text(snapshot, selection),
{
    if let Some(selection) = selection {
        let selected: String = selection_to_text(snapshot, selection);
        if !selected.as_str().is_empty() {
            return selected;
        }
    }
    snapshot_to_text(snapshot)
}

impl TerminalView {
    /// How many rows the window shows: at least one.
    pub fn terminal_view_rows(&self) -> (r: usize)
        ensures
            r == shown_rows(self.rows),
    {
        if self.rows == 0 {
            1
        } else {
            self.rows as usize
        }
    }

    /// How far back the window can be scrolled.
    pub fn max_terminal_scroll_offset(&self, total_rows: usize) -> (r: usize)
        ensures
            r == max_scroll(total_rows as int, shown_rows(self.rows)),
    {
        total_rows.saturating_sub(self.terminal_view_rows())
    }

    /// The scrollback row at the top of the window.
    pub fn viewport_first_row(&self, total_rows: usize) -> (r: usize)
        ensures
            r == top_row(total_rows as int, self.rows, self.scroll_offset as int),
    {
        let max: usize = self.max_terminal_scroll_offset(total_rows);
        let offset: usize = if self.scroll_offset < max {
            self.scroll_offset
        } else {
            max
        };
        max - offset
    }

    /// Keeps the window inside the scrollback.
    pub fn clamp_terminal_scroll(&mut self, total_rows: usize)
        ensures
            *final(self) == (TerminalView {
                scroll_offset: lesser(
                    old(self).scroll_offset as int,
                    max_scroll(total_rows as int, shown_rows(old(self).rows)),
                ) as usize,
                ..*old(self)
            }),
    {
        let max: usize = self.max_terminal_scroll_offset(total_rows);
        if self.scroll_offset > max {
            self.scroll_offset = max;
        }
    }

    /// Scrolls the window. The selection stays, since it is anchored in the
    /// scrollback, and a scroll that moved says where the window now is.
    pub fn apply_terminal_scroll(&mut self, total_rows: usize, action: TerminalScrollAction)
        ensures
            ({
                let max = max_scroll(total_rows as int, shown_rows(old(self).rows));
                let from = lesser(old(self).scroll_offset as int, max);
                let to = scrolled(old(self).scroll_offset as int, max, action);
                *final(self) == (TerminalView {
                    scroll_offset: to as usize,
                    context_menu: false,
                    notice: if to == from {
                        old(self).notice
                    } else if to == 0 {
                        Some(ScrollNotice::AtBottom)
                    } else {
                        Some(ScrollNotice::RowsFromBottom(to as usize))
                    },
                    ..*old(self)
                })
            }),
    {
        let max: usize = self.max_terminal_scroll_offset(total_rows);
        let previous: usize = if self.scroll_offset < max {
            self.scroll_offset
        } else {
            max
        };
        let next: usize = match action {
            TerminalScrollAction::Lines(lines) => {
                let moved: i128 = previous as i128 + lines as i128;
                if moved < 0 {
                    0
                } else if moved < max as i128 {
                    moved as usize
                } else {
                    max
                }
            },
            TerminalScrollAction::Top => max,
            TerminalScrollAction::Bottom => 0,
        };
        self.scroll_offset = next;
        self.context_menu = false;
        if next != previous {
            self.notice = if next == 0 {
                Some(ScrollNotice::AtBottom)
            } else {
                Some(ScrollNotice::RowsFromBottom(next))
            };
        }
    }

    /// Handles a press on the terminal at the pointer. The first click starts a
    /// drag there, a second soon after on the same cell selects the word, and a
    /// third the line. A fresh press never inherits a running autoscroll.
    pub fn begin_terminal_click(&mut self, snapshot: &TerminalSnapshot, first_row: usize, now: u64)
        requires
            now + 400 <= u64::MAX,
            old(self).click matches Some(click) ==> click.at_millis <= now,
        ensures
            ({
                let point = pointed(first_row as int, old(self).pointer);
                let count = click_count(old(self).click, point, now);
                let click = Click { point, at_millis: now, count: count as u8 };
                &&& *final(self) == (TerminalView {
                    autoscroll: 0,
                    click: Some(click),
                    selecting: count == 1,
                    selection: final(self).selection,
                    ..*old(self)
                })
                &&& if count == 2 {
                    selects_word(snapshot, point, final(self).selection)
                } else if count == 3 {
                    selects_line(snapshot, point, final(self).selection)
                } else {
                    final(self).selection == Some(TerminalSelection { start: point, end: point })
                }
            }),
    {
        self.autoscroll = 0;
        let cell: TerminalPoint = match self.pointer {
            Some(cell) => cell,
            None => TerminalPoint { row: 0, col: 0 },
        };
        let point: TerminalPoint = terminal_selection_point(first_row, cell);
        let count: u8 = match self.click {
            Some(click) => if click.point == point && now < click.at_millis + 400 {
                (click.count % 3) + 1
            } else {
                1
            },
            None => 1,
        };
        self.click = Some(Click { point, at_millis: now, count });
        if count == 2 {
            self.selection = select_word_at(snapshot, point);
            self.selecting = false;
        } else if count == 3 {
            self.selection = select_line_at(snapshot, point);
            self.selecting = false;
        } else {
            self.selection = Some(TerminalSelection { start: point, end: point });
            self.selecting = true;
        }
    }

    /// Extends a drag to the pointer and sets the autoscroll for a pointer that
    /// is past an edge.
    pub fn extend_terminal_selection(
        &mut self,
        first_row: usize,
        cell: TerminalPoint,
        overshoot: i32,
    )
        ensures
            *final(self) == (TerminalView {
                selection: match old(self).selection {
                    Some(selection) => Some(
                        TerminalSelection {
                            start: selection.start,
                            end: absolute(first_row as int, cell),
                        },
                    ),
                    None => None,
                },
                autoscroll: autoscroll_speed(overshoot as int) as i32,
                ..*old(self)
            }),
    {
        let end: TerminalPoint = terminal_selection_point(first_row, cell);
        if let Some(selection) = self.selection {
            self.selection = Some(TerminalSelection { start: selection.start, end });
        }
        self.autoscroll = if overshoot > 5 {
            5
        } else if overshoot < -5 {
            -5
        } else {
            overshoot
        };
    }

    /// One step of the autoscroll while a drag is past an edge: scrolls, and
    /// moves the end of the selection to the row at that edge. At the end of the
    /// scrollback nothing is left to reveal and the selection stays.
    pub fn selection_autoscroll_tick(&mut self, total_rows: usize)
        requires
            i32::MIN < old(self).autoscroll,
        ensures
            ({
                let lines = old(self).autoscroll;
                let max = max_scroll(total_rows as int, shown_rows(old(self).rows));
                let from = lesser(old(self).scroll_offset as int, max);
                let to = scrolled(
                    old(self).scroll_offset as int,
                    max,
                    TerminalScrollAction::Lines((-lines) as i32),
                );
                let top = top_row(total_rows as int, old(self).rows, to);
                let edge = if lines > 0 {
                    top + shown_rows(old(self).rows) - 1
                } else {
                    top
                };
                if lines == 0 || !old(self).selecting {
                    *final(self) == *old(self)
                } else {
                    *final(self) == (TerminalView {
                        scroll_offset: to as usize,
                        context_menu: false,
                        notice: if to == from {
                            old(self).notice
                        } else if to == 0 {
                            Some(ScrollNotice::AtBottom)
                        } else {
                            Some(ScrollNotice::RowsFromBottom(to as usize))
                        },
                        selection: match old(self).selection {
                            Some(selection) => if to == old(self).scroll_offset {
                                Some(selection)
                            } else {
                                Some(
                                    TerminalSelection {
                                        start: selection.start,
                                        end: TerminalPoint {
                                            row: edge as usize,
                                            col: selection.end.col,
                                        },
                                    },
                                )
                            },
                            None => None,
                        },
                        ..*old(self)
                    })
                }
            }),
    {
        let lines: i32 = self.autoscroll;
        if lines == 0 || !self.selecting {
            return;
        }
        let before: usize = self.scroll_offset;
        self.apply_terminal_scroll(total_rows, TerminalScrollAction::Lines(-lines));
        if self.scroll_offset == before {
            return;
        }
        let rows: usize = self.terminal_view_rows();
        let first_row: usize = self.viewport_first_row(total_rows);
        let edge_row: usize = if lines > 0 {
            first_row + (rows - 1)
        } else {
            first_row
        };
        if let Some(selection) = self.selection {
            self.selection = Some(
                TerminalSelection {
                    start: selection.start,
                    end: TerminalPoint { row: edge_row, col: selection.end.col },
                },
            );
        }
    }
}

/// Whatever is scrolled, the window stays inside the scrollback, and the row at
/// its top is one that exists.
pub proof fn law_scrolling_stays_in_the_scrollback(
    total_rows: int,
    rows: u16,
    offset: int,
    action: TerminalScrollAction,
)
    requires
        0 <= total_rows,
        0 <= offset,
    ensures
        ({
            let max = max_scroll(total_rows, shown_rows(rows));
            let to = scrolled(offset, max, action);
            &&& 0 <= to <= max
            &&& 0 <= top_row(total_rows, rows, to)
            &&& total_rows > 0 ==> top_row(total_rows, rows, to) < total_rows
        }),
{
}

/// A scroll by some rows and back ends where it began, as long as neither end of
/// the scrollback is reached.
pub proof fn law_scrolling_back_returns(offset: int, max: int, lines: i32)
    requires
        0 <= offset <= max,
        0 <= offset + lines <= max,
        i32::MIN < lines,
    ensures
        scrolled(
            scrolled(offset, max, TerminalScrollAction::Lines(lines)),
            max,
            TerminalScrollAction::Lines((-lines) as i32),
        ) == offset,
{
}

/// Clicking on and on in one place goes through single, double and triple
/// clicks and begins again.
pub proof fn law_clicks_cycle(click: Click, now: u64)
    requires
        1 <= click.count <= 3,
        now < click.at_millis + 400,
    ensures
        click_count(Some(click), click.point, now) == if click.count == 3 {
            1
        } else {
            click.count + 1
        },
{
}

/// At the bottom the window ends with the newest row, and each row that it is scrolled back
/// moves its first row one up, as far as the oldest.
pub proof fn law_scrolling_back_shows_older_rows(total_rows: int, rows: u16, offset: int)
    requires
        rows > 0,
        total_rows >= rows,
        0 <= offset,
    ensures
        top_row(total_rows, rows, 0) + rows == total_rows,
        offset <= total_rows - rows ==> top_row(total_rows, rows, offset) == top_row(
            total_rows,
            rows,
            0,
        ) - offset,
        offset >= total_rows - rows ==> top_row(total_rows, rows, offset) == 0,
{
}

/// Scrolling by a number of lines goes that far back, and by a negative one that far
/// forth, but not past either end; the two ends are reached at once.
pub proof fn law_a_scroll_goes_as_far_as_asked(offset: int, max: int, lines: i32)
    requires
        0 <= offset <= max,
    ensures
        0 <= offset + lines <= max ==> scrolled(offset, max, TerminalScrollAction::Lines(lines))
            == offset + lines,
        offset + lines > max ==> scrolled(offset, max, TerminalScrollAction::Lines(lines)) == max,
        offset + lines < 0 ==> scrolled(offset, max, TerminalScrollAction::Lines(lines)) == 0,
        scrolled(offset, max, TerminalScrollAction::Top) == max,
        scrolled(offset, max, TerminalScrollAction::Bottom) == 0,
{
}

/// The autoscroll is as fast as the pointer is far past the edge and in its direction,
/// and never faster than five rows at a step.
pub proof fn law_the_autoscroll_follows_the_pointer(overshoot: int)
    ensures
        -5 <= overshoot <= 5 ==> autoscroll_speed(overshoot) == overshoot,
        overshoot > 5 ==> autoscroll_speed(overshoot) == 5,
        overshoot < -5 ==> autoscroll_speed(overshoot) == -5,
{
}

/// A click on another cell, or one that comes four tenths of a second later or more, is a
/// first click again.
pub proof fn law_a_click_elsewhere_or_later_is_a_first_one(
    click: Click,
    point: TerminalPoint,
    now: u64,
)
    requires
        click.point != point || now >= click.at_millis + 400,
    ensures
        click_count(Some(click), point, now) == 1,
        click_count(None, point, now) == 1,
{
}

/// A triple click copies the whole line, without the blanks at its end.
pub proof fn law_a_triple_click_copies_the_line(
    snapshot: &TerminalSnapshot,
    point: TerminalPoint,
    selection: Option<TerminalSelection>,
)
    requires
        selects_line(snapshot, point, selection),
        snapshot.shows(point.row as int),
        trim_back(snapshot.row_text(point.row as int)).len() > 0,
    ensures
        selection_text(snapshot, selection->0) == trim_back(
            snapshot.row_text(point.row as int),
        ),
{
    let line = snapshot.row_text(point.row as int);
    let kept = trim_back(line);
    law_trimming_the_end_cuts_the_blanks_alone(line);
    law_a_selection_in_one_row_copies_its_columns(
        snapshot,
        point.row,
        0,
        selection->0.end.col,
    );
    assert(line.subrange(0, kept.len() as int) =~= kept);
    assert(trim_back(kept) == kept);
}

/// A double click copies the word that was clicked on, whole.
pub proof fn law_a_double_click_copies_the_word(
    snapshot: &TerminalSnapshot,
    point: TerminalPoint,
    selection: Option<TerminalSelection>,
)
    requires
        selects_word(snapshot, point, selection),
        snapshot.shows(point.row as int),
        point.col < snapshot.row_text(point.row as int).len(),
    ensures
        ({
            let line = snapshot.row_text(point.row as int);
            let (from, to) = (selection->0.start.col as int, selection->0.end.col as int);
            &&& from <= point.col < to <= line.len()
            &&& selection_text(snapshot, selection->0) == trim_back(line.subrange(from, to))
            &&& from > 0 && word_char(line[point.col as int]) ==> !word_char(line[from - 1])
            &&& to < line.len() && word_char(line[point.col as int]) ==> !word_char(line[to])
        }),
{
    let s = selection->0;
    law_a_selection_in_one_row_copies_its_columns(
        snapshot,
        point.row,
        s.start.col,
        s.end.col,
    );
}

/// A cell of the window is so many rows below its first row, and in the same column.
pub proof fn law_a_cell_is_counted_from_the_first_row(first_row: usize, cell: TerminalPoint)
    requires
        first_row + cell.row <= usize::MAX,
    ensures
        absolute(first_row as int, cell).row == first_row + cell.row,
        absolute(first_row as int, cell).col == cell.col,
        pointed(first_row as int, Some(cell)) == absolute(first_row as int, cell),
{
}

/// What is copied is the selection, where it holds any text, and otherwise everything that
/// the window shows.
pub proof fn law_the_selection_is_copied_or_else_the_window(
    snapshot: &TerminalSnapshot,
    selection: TerminalSelection,
)
    ensures
        selection_text(snapshot, selection).len() > 0 ==> copied_text(snapshot, Some(selection))
            == selection_text(snapshot, selection),
        selection_text(snapshot, selection).len() == 0 ==> copied_text(snapshot, Some(selection))
            == copied_text(snapshot, None),
        copied_text(snapshot, None) == trim_back(
            joined(snapshot_lines(snapshot.lines@), seq!['\n']),
        ),
{
}

/// A window shows its rows, and one row where it has none.
pub proof fn law_a_window_shows_a_row_at_least(rows: u16)
    ensures
        rows > 0 ==> shown_rows(rows) == rows,
        rows == 0 ==> shown_rows(rows) == 1,
{
}

/// A pointer in the window points at the row of the scrollback that stands there, and one
/// that is not known at the first cell.
pub proof fn law_the_pointer_points_into_the_scrollback(first_row: int, cell: TerminalPoint)
    requires
        0 <= first_row,
        first_row + cell.row <= usize::MAX,
    ensures
        pointed(first_row, Some(cell)).row == first_row + cell.row,
        pointed(first_row, Some(cell)).col == cell.col,
        pointed(first_row, None).row == first_row,
        pointed(first_row, None).col == 0,
{
}

} // verus!

//! Sizes: of the terminal grid, of a remote desktop, and what a change of size
//! does to what is selected and where the window stands.

use vstd::prelude::*;

use crate::panes::SessionId;
use crate::terminal::{TerminalPoint, TerminalSelection, TerminalSize};

verus! {

/// A number kept in a range.
pub open spec fn clamped(n: int, low: int, high: int) -> int {
    if n < low {
        low
    } else if n > high {
        high
    } else {
        n
    }
}

fn clamp(n: i64, low: i64, high: i64) -> (r: i64)
    requires
        low <= high,
    ensures
        r == clamped(n as int, low as int, high as int),
        low <= r <= high,
{
    if n < low {
        low
    } else if n > high {
        high
    } else {
        n
    }
}

// The terminal grid.

/// The grid for an area that so many whole cells fit in, across and down: never
/// too small to use, and never absurdly large.
pub fn terminal_size_for_cells(cols: i64, rows: i64) -> (r: TerminalSize)
    ensures
        r.cols == clamped(cols as int, 20, 220),
        r.rows == clamped(rows as int, 6, 80),
{
    TerminalSize::new(clamp(cols, 20, 220) as u16, clamp(rows, 6, 80) as u16)
}

/// The cell under the pointer, where it is so many whole cells from the corner of
/// the grid; one outside the grid is taken for the nearest. A column may be the one
/// past the last, so that a selection can reach the end of a line.
pub fn terminal_point_from_cells(col: i64, row: i64, size: TerminalSize) -> (r: TerminalPoint)
    ensures
        r.col == clamped(col as int, 0, size.cols as int),
        r.row == clamped(
            row as int,
            0,
            if size.rows > 0 {
                size.rows - 1
            } else {
                0
            },
        ),
{
    let last: i64 = if size.rows > 0 {
        size.rows as i64 - 1
    } else {
        0
    };
    TerminalPoint {
        row: clamp(row, 0, last) as usize,
        col: clamp(col, 0, size.cols as i64) as usize,
    }
}

/// How many rows the pointer is past an edge of the grid: negative above the top,
/// positive below the bottom, and at most forty.
pub fn terminal_row_overshoot(row: i64, size: TerminalSize) -> (r: i32)
    ensures
        ({
            let last = if size.rows > 0 {
                size.rows - 1
            } else {
                0
            };
            r == clamped(
                if row < 0 {
                    row as int
                } else if row > last {
                    row - last
                } else {
                    0
                },
                -40,
                40,
            )
        }),
{
    let last: i64 = if size.rows > 0 {
        size.rows as i64 - 1
    } else {
        0
    };
    if row < 0 {
        clamp(row, -40, 40) as i32
    } else if row > last {
        clamp(row - last, -40, 40) as i32
    } else {
        0
    }
}

/// The column and the row of a pane in a grid of panes.
pub fn pane_cell(index: usize, cols: usize) -> (r: (usize, usize))
    requires
        cols > 0,
    ensures
        r.0 == index % cols,
        r.1 == index / cols,
        r.0 < cols,
{
    (index % cols, index / cols)
}

/// No two panes stand in one cell.
pub proof fn law_panes_stand_apart(a: int, b: int, cols: int)
    requires
        cols > 0,
        0 <= a,
        0 <= b,
        a % cols == b % cols,
        a / cols == b / cols,
    ensures
        a == b,
{
    assert(a == a / cols * cols + a % cols) by (nonlinear_arith)
        requires
            cols > 0,
    ;
    assert(b == b / cols * cols + b % cols) by (nonlinear_arith)
        requires
            cols > 0,
    ;
}

// A remote desktop.

/// A length of a remote desktop, from a length of the window in whole pixels: a
/// multiple of four, and no more than eight thousand.
pub open spec fn aligned(pixels: int) -> int {
    clamped(pixels, 0, 8192) / 4 * 4
}

/// The size to ask of a remote desktop that fills an area of so many whole pixels:
/// nothing where there is too little room.
pub open spec fn desktop_size(width: int, height: int) -> (int, int) {
    if aligned(width) < 200 || aligned(height) < 200 {
        (0, 0)
    } else {
        (aligned(width), aligned(height))
    }
}

fn align(pixels: i64) -> (r: u16)
    ensures
        r == aligned(pixels as int),
{
    let kept: u16 = clamp(pixels, 0, 8192) as u16;
    kept / 4 * 4
}

/// The size to ask of a remote desktop that fills an area of so many whole pixels.
pub fn rdp_viewport_size(width: i64, height: i64) -> (r: (u16, u16))
    ensures
        r.0 == desktop_size(width as int, height as int).0,
        r.1 == desktop_size(width as int, height as int).1,
{
    let (w, h): (u16, u16) = (align(width), align(height));
    if w < 200 || h < 200 {
        (0, 0)
    } else {
        (w, h)
    }
}

/// The size to ask of the active remote desktop after a change of layout, where it
/// has to be asked at all: only of one that is up, only where there is room, and
/// only where it is another size than was asked for last.
pub fn maybe_resize_active_rdp(
    live: bool,
    viewport: (u16, u16),
    target: &mut Option<(u16, u16)>,
) -> (r: Option<(u16, u16)>)
    ensures
        r is Some == (live && viewport.0 != 0 && viewport.1 != 0 && *old(target) != Some(
            viewport,
        )),
        r matches Some(size) ==> size == viewport && *final(target) == Some(viewport),
        r is None ==> *final(target) == *old(target),
{
    if !live || viewport.0 == 0 || viewport.1 == 0 {
        return None;
    }
    let asked: bool = match *target {
        Some((w, h)) => w == viewport.0 && h == viewport.1,
        None => false,
    };
    if asked {
        return None;
    }
    *target = Some(viewport);
    Some(viewport)
}

/// A desktop is never asked for a size that is odd, that is out of range, or that is
/// too small on one side only.
pub proof fn law_a_desktop_size_is_sound(width: int, height: int)
    ensures
        ({
            let (w, h) = desktop_size(width, height);
            &&& w % 4 == 0 && h % 4 == 0
            &&& w <= 8192 && h <= 8192
            &&& (w, h) == (0int, 0int) || (w >= 200 && h >= 200)
        }),
{
}

// A change of size.

/// What is to be told of a new size.
pub enum Resize {
    /// Nothing has to be.
    Unchanged,
    /// There is no session to tell.
    Nobody,
    Active,
    Panes(Vec<SessionId>),
}

/// What a new size of the grid comes to: who is told of it, and whether lines wrap
/// anew, which they do only where the width changes.
pub fn sync_terminal_size(
    current: TerminalSize,
    target: TerminalSize,
    panes: &Vec<SessionId>,
    active: bool,
) -> (r: (Resize, bool))
    ensures
        r.1 == (target.cols != current.cols),
        match r.0 {
            Resize::Unchanged => target == current,
            Resize::Nobody => target != current && panes@.len() == 0 && !active,
            Resize::Active => target != current && panes@.len() == 0 && active,
            Resize::Panes(told) => target != current && panes@.len() > 0 && told@ == panes@,
        },
{
    let wraps: bool = target.cols != current.cols;
    if target.cols == current.cols && target.rows == current.rows {
        return (Resize::Unchanged, wraps);
    }
    if panes.len() == 0 {
        return (
            if active {
                Resize::Active
            } else {
                Resize::Nobody
            },
            wraps,
        );
    }
    let mut told: Vec<SessionId> = Vec::new();
    let mut i: usize = 0;
    while i < panes.len()
        invariant
            i <= panes.len(),
            told@ == panes@.take(i as int),
        decreases panes.len() - i,
    {
        told.push(panes[i]);
        i += 1;
        assert(panes@.take(i as int) =~= panes@.take(i - 1).push(panes@[i - 1]));
    }
    assert(panes@.take(i as int) =~= panes@);
    (Resize::Panes(told), wraps)
}

/// The places that are kept while lines wrap anew: the ends of the selection, where
/// there is one, and after them the row at the top of the window.
pub open spec fn kept_places(selection: Option<TerminalSelection>, top: usize) -> Seq<(usize, usize)> {
    match selection {
        Some(s) => seq![(s.start.row, s.start.col), (s.end.row, s.end.col), (top, 0usize)],
        None => seq![(top, 0usize)],
    }
}

/// The places that are kept while lines wrap anew.
pub fn capture_reflow_anchors(selection: Option<TerminalSelection>, top: usize) -> (r: Vec<
    (usize, usize),
>)
    ensures
        r@ == kept_places(selection, top),
{
    let mut places: Vec<(usize, usize)> = Vec::new();
    match selection {
        Some(s) => {
            places.push((s.start.row, s.start.col));
            places.push((s.end.row, s.end.col));
        },
        None => {},
    }
    places.push((top, 0));
    assert(places@ =~= kept_places(selection, top));
    places
}

/// The selection on the places that its ends came to.
pub open spec fn selection_back(
    selection: Option<TerminalSelection>,
    places: Seq<(usize, usize)>,
) -> Option<TerminalSelection> {
    if selection is Some && places.len() == 3 {
        Some(
            TerminalSelection {
                start: TerminalPoint { row: places[0].0, col: places[0].1 },
                end: TerminalPoint { row: places[1].0, col: places[1].1 },
            },
        )
    } else {
        selection
    }
}

/// The scroll position that shows the row that the top of the window came to. One
/// that follows the output keeps following it.
pub open spec fn offset_back(offset: usize, places: Seq<(usize, usize)>, max_offset: usize) -> int {
    if places.len() == 0 || offset == 0 {
        offset as int
    } else if max_offset >= places.last().0 {
        max_offset - places.last().0
    } else {
        0
    }
}

/// Puts the selection and the scroll position back on the text they were on, given
/// where their places came to.
pub fn restore_reflow_anchors(
    selection: &mut Option<TerminalSelection>,
    offset: &mut usize,
    places: &Vec<(usize, usize)>,
    max_offset: usize,
)
    ensures
        *final(selection) == selection_back(*old(selection), places@),
        *final(offset) == offset_back(*old(offset), places@, max_offset),
{
    let count: usize = places.len();
    if count == 0 {
        return;
    }
    let top: usize = places[count - 1].0;
    if selection.is_some() && count == 3 {
        *selection = Some(
            TerminalSelection {
                start: TerminalPoint { row: places[0].0, col: places[0].1 },
                end: TerminalPoint { row: places[1].0, col: places[1].1 },
            },
        );
    }
    if *offset > 0 {
        *offset = if max_offset >= top {
            max_offset - top
        } else {
            0
        };
    }
}

/// Where nothing moved, nothing changes: the selection and the scroll position come
/// back to what they were.
pub proof fn law_keeping_places_that_stay_is_nothing(
    selection: Option<TerminalSelection>,
    offset: usize,
    max_offset: usize,
)
    requires
        offset <= max_offset,
    ensures
        ({
            let places = kept_places(selection, (max_offset - offset) as usize);
            selection_back(selection, places) == selection && offset_back(
                offset,
                places,
                max_offset,
            ) == offset
        }),
{
}

/// A number kept in a range is in it, and is itself or the nearer end.
pub proof fn law_the_nearer_end_is_taken(n: int, low: int, high: int)
    requires
        low <= high,
    ensures
        low <= clamped(n, low, high) <= high,
        low <= n <= high ==> clamped(n, low, high) == n,
        n < low ==> clamped(n, low, high) == low,
        n > high ==> clamped(n, low, high) == high,
{
}

/// A desktop that has room takes all of it but for three pixels at most on a side.
pub proof fn law_a_desktop_fills_its_room(width: int, height: int)
    requires
        200 <= width <= 8192,
        200 <= height <= 8192,
    ensures
        ({
            let (w, h) = desktop_size(width, height);
            &&& width - 4 < w <= width
            &&& height - 4 < h <= height
        }),
{
}

/// After lines wrapped anew, a window that was scrolled back has the row at its top that
/// was there before, wherever that row came to; one that follows the output follows it.
/// The selection stands where its ends came to.
pub proof fn law_the_top_row_and_the_selection_come_back(
    selection: TerminalSelection,
    offset: usize,
    start: (usize, usize),
    end: (usize, usize),
    top: usize,
    max_offset: usize,
)
    requires
        top <= max_offset,
    ensures
        offset > 0 ==> max_offset - offset_back(
            offset,
            seq![start, end, (top, 0usize)],
            max_offset,
        ) == top,
        offset > 0 ==> max_offset - offset_back(offset, seq![(top, 0usize)], max_offset) == top,
        offset_back(0, seq![start, end, (top, 0usize)], max_offset) == 0,
        selection_back(Some(selection), seq![start, end, (top, 0usize)]) == Some(
            TerminalSelection {
                start: TerminalPoint { row: start.0, col: start.1 },
                end: TerminalPoint { row: end.0, col: end.1 },
            },
        ),
{
}

} // verus!

//! What a terminal shows: cells, lines, and a window into its scrollback.

use vstd::prelude::*;

verus! {

/// The colour of a cell's text, before a colour scheme is applied.
#[derive(Debug, Clone, Copy, PartialEq, Eq, Structural)]
pub enum TermColor {
    Default,
    Indexed(u8),
    Rgb(u8, u8, u8),
}

/// A run of text that is drawn alike.
#[derive(Debug, Clone)]
pub struct TerminalCell {
    pub text: String,
    pub fg: TermColor,
    pub cursor: bool,
    pub hyperlink: Option<String>,
}

/// One row of the terminal.
#[derive(Debug, Clone)]
pub struct TerminalLine {
    pub cells: Vec<TerminalCell>,
}

/// How many columns and rows a terminal has.
#[derive(Debug, Clone, Copy, PartialEq, Eq, Structural)]
pub struct TerminalSize {
    pub cols: u16,
    pub rows: u16,
}

/// A window into a terminal's scrollback. Row `first_row` of the scrollback is
/// the first of `lines`.
#[derive(Debug, Clone)]
pub struct TerminalSnapshot {
    pub title: String,
    pub size: TerminalSize,
    pub first_row: usize,
    pub total_rows: usize,
    pub lines: Vec<TerminalLine>,
    pub cursor_row: usize,
    pub cursor_col: usize,
    pub cursor_visible: bool,
    pub alt_screen: bool,
}

/// A position in the terminal. The row counts from the start of the scrollback.
#[derive(Debug, Clone, Copy, PartialEq, Eq, Structural)]
pub struct TerminalPoint {
    pub row: usize,
    pub col: usize,
}

/// A selection as it was dragged: the end may stand before the start.
#[derive(Debug, Clone, Copy, PartialEq, Eq, Structural)]
pub struct TerminalSelection {
    pub start: TerminalPoint,
    pub end: TerminalPoint,
}

/// A hit of a scrollback search: an absolute row and the matched span.
#[derive(Debug, Clone, Copy, PartialEq, Eq, Structural)]
pub struct SearchMatch {
    pub row: usize,
    pub col: usize,
    pub len: usize,
}

/// A scroll that a key chord asks for.
#[derive(Debug, Clone, Copy, PartialEq, Eq, Structural)]
pub enum TerminalScrollAction {
    Lines(i32),
    Top,
    Bottom,
}

/// The characters of cells one after another.
pub open spec fn cells_text(cells: Seq<TerminalCell>) -> Seq<char>
    decreases cells.len(),
{
    if cells.len() == 0 {
        Seq::empty()
    } else {
        cells_text(cells.drop_last()) + cells.last().text@
    }
}

impl TerminalLine {
    /// The characters of the line.
    pub open spec fn text(&self) -> Seq<char> {
        cells_text(self.cells@)
    }

    /// A line of one uncoloured run.
    pub fn plain(text: &str) -> (r: TerminalLine)
        ensures
            r.cells@.len() == 1,
            r.cells@[0].text@ == text@,
            r.cells@[0].fg == TermColor::Default,
            !r.cells@[0].cursor,
            r.cells@[0].hyperlink is None,
            r.text() == text@,
    {
        let cell = TerminalCell {
            text: text.to_owned(),
            fg: TermColor::Default,
            cursor: false,
            hyperlink: None,
        };
        let mut cells: Vec<TerminalCell> = Vec::new();
        cells.push(cell);
        proof {
            reveal_with_fuel(cells_text, 2);
            assert(cells@.drop_last() =~= Seq::empty());
            assert(cells_text(cells@) =~= text@);
        }
        TerminalLine { cells }
    }
}

impl TerminalSize {
    /// A size of this many columns and rows.
    pub fn new(cols: u16, rows: u16) -> (r: TerminalSize)
        ensures
            r.cols == cols,
            r.rows == rows,
    {
        TerminalSize { cols, rows }
    }
}

impl TerminalSnapshot {
    /// Whether an absolute row lies in the window.
    pub open spec fn shows(&self, row: int) -> bool {
        self.first_row <= row < self.first_row + self.lines@.len()
    }

    /// The characters of an absolute row, or none where the window does not
    /// show it.
    pub open spec fn row_text(&self, row: int) -> Seq<char> {
        if self.shows(row) {
            self.lines@[row - self.first_row].text()
        } else {
            Seq::empty()
        }
    }
}

/// The text of cells put together is the text of the cells, and that of one cell is what
/// stands in it.
pub proof fn law_text_follows_cell_by_cell(
    a: Seq<TerminalCell>,
    b: Seq<TerminalCell>,
    cell: TerminalCell,
)
    ensures
        cells_text(a + b) == cells_text(a) + cells_text(b),
        cells_text(seq![cell]) == cell.text@,
    decreases b.len(),
{
    reveal_with_fuel(cells_text, 2);
    assert(seq![cell].drop_last() =~= Seq::empty());
    assert(cells_text(seq![cell]) =~= cell.text@);
    if b.len() == 0 {
        assert(a + b =~= a);
        assert(cells_text(a) + cells_text(b) =~= cells_text(a));
    } else {
        law_text_follows_cell_by_cell(a, b.drop_last(), cell);
        assert((a + b).drop_last() =~= a + b.drop_last());
        assert(cells_text(a) + (cells_text(b.drop_last()) + b.last().text@) =~= cells_text(a)
            + cells_text(b.drop_last()) + b.last().text@);
    }
}

/// A window shows the rows from its first on, as many as it has lines, each with the text
/// of its line; another row has no text.
pub proof fn law_a_window_shows_its_rows(snapshot: &TerminalSnapshot, i: int, row: int)
    ensures
        0 <= i < snapshot.lines@.len() ==> snapshot.shows(snapshot.first_row + i)
            && snapshot.row_text(snapshot.first_row + i) == snapshot.lines@[i].text(),
        row < snapshot.first_row || row >= snapshot.first_row + snapshot.lines@.len()
            ==> !snapshot.shows(row) && snapshot.row_text(row).len() == 0,
{
}

} // verus!

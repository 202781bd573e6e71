use adit_ui::terminal::{
    TerminalLine, TerminalPoint, TerminalSelection, TerminalSize, TerminalSnapshot,
};
use adit_ui::terminal_text::{
    line_to_text, max_scroll_offset_for, normalized_selection, selection_for_viewport,
    selection_range_for_row, selection_to_text, snapshot_line_text, snapshot_to_text,
};
use adit_ui::viewport::{
    select_line_at, select_word_at, selected_terminal_text, terminal_selection_point,
};

fn snapshot(first_row: usize, total_rows: usize) -> TerminalSnapshot {
    TerminalSnapshot {
        title: String::from("test"),
        size: TerminalSize::new(10, 3),
        first_row,
        total_rows,
        lines: vec![
            TerminalLine::plain("alpha"),
            TerminalLine::plain("bravo"),
            TerminalLine::plain("charlie"),
        ],
        cursor_row: 0,
        cursor_col: 0,
        cursor_visible: true,
        alt_screen: false,
    }
}

fn selection(start: (usize, usize), end: (usize, usize)) -> TerminalSelection {
    TerminalSelection {
        start: TerminalPoint { row: start.0, col: start.1 },
        end: TerminalPoint { row: end.0, col: end.1 },
    }
}

#[test]
fn selection_extracts_text_across_rows() {
    assert_eq!(selection_to_text(&snapshot(0, 3), selection((0, 2), (2, 4))), "pha\nbravo\nchar");
}

#[test]
fn selection_to_text_resolves_absolute_rows_in_a_scrolled_snapshot() {
    let scrolled = snapshot(100, 103);
    assert_eq!(selection_to_text(&scrolled, selection((100, 2), (102, 4))), "pha\nbravo\nchar");
    assert_eq!(selection_to_text(&scrolled, selection((0, 0), (5, 4))), "");
}

#[test]
fn selection_for_viewport_clips_to_the_visible_window() {
    let first_row = 100;
    let rows = 3;
    assert_eq!(
        selection_for_viewport(selection((101, 2), (102, 4)), first_row, rows),
        Some(selection((1, 2), (2, 4)))
    );
    assert_eq!(
        selection_for_viewport(selection((40, 7), (101, 3)), first_row, rows),
        Some(selection((0, 0), (1, 3)))
    );
    assert_eq!(
        selection_for_viewport(selection((101, 1), (500, 2)), first_row, rows),
        Some(selection((1, 1), (2, usize::MAX)))
    );
    assert_eq!(selection_for_viewport(selection((10, 0), (20, 0)), first_row, rows), None);
    assert_eq!(selection_for_viewport(selection((200, 0), (300, 0)), first_row, rows), None);
    assert_eq!(
        selection_for_viewport(selection((102, 4), (101, 2)), first_row, rows),
        Some(selection((1, 2), (2, 4)))
    );
}

#[test]
fn selection_range_handles_reversed_drag() {
    let dragged = selection((3, 8), (1, 2));
    assert_eq!(selection_range_for_row(dragged, 1), Some((2, usize::MAX)));
    assert_eq!(selection_range_for_row(dragged, 2), Some((0, usize::MAX)));
    assert_eq!(selection_range_for_row(dragged, 3), Some((0, 8)));
}

#[test]
fn a_selection_of_nothing_is_none() {
    assert_eq!(normalized_selection(selection((2, 3), (2, 3))), None);
    assert_eq!(
        normalized_selection(selection((2, 3), (1, 9))),
        Some((TerminalPoint { row: 1, col: 9 }, TerminalPoint { row: 2, col: 3 }))
    );
}

#[test]
fn a_selection_reads_the_same_after_scrolling() {
    let before = selection_to_text(&snapshot(100, 103), selection((100, 1), (101, 3)));
    let mut scrolled = snapshot(99, 103);
    scrolled.lines.insert(0, TerminalLine::plain("older"));
    assert_eq!(selection_to_text(&scrolled, selection((100, 1), (101, 3))), before);
    assert_eq!(before, "lpha\nbra");
}

#[test]
fn lines_lose_their_trailing_blanks() {
    assert_eq!(line_to_text(&TerminalLine::plain("ab  ")), "ab");
    let full = snapshot(0, 3);
    assert_eq!(snapshot_to_text(&full), "alpha\nbravo\ncharlie");
    assert_eq!(snapshot_line_text(&full, 1), "bravo");
    assert_eq!(snapshot_line_text(&full, 9), "");
    assert_eq!(max_scroll_offset_for(&snapshot(0, 30), 10), 20);
    assert_eq!(max_scroll_offset_for(&full, 10), 0);
}

#[test]
fn a_double_click_takes_the_word_and_a_triple_click_the_line() {
    let scrolled = snapshot(100, 103);
    let point = TerminalPoint { row: 101, col: 2 };
    assert_eq!(select_word_at(&scrolled, point), Some(selection((101, 0), (101, 5))));
    assert_eq!(select_line_at(&scrolled, point), Some(selection((101, 0), (101, 5))));
    assert_eq!(select_word_at(&scrolled, TerminalPoint { row: 101, col: 8 }), None);
    assert_eq!(
        terminal_selection_point(100, TerminalPoint { row: 1, col: 2 }),
        TerminalPoint { row: 101, col: 2 }
    );
}

#[test]
fn with_no_selection_the_whole_screen_is_copied() {
    let full = snapshot(0, 3);
    assert_eq!(selected_terminal_text(&full, None), "alpha\nbravo\ncharlie");
    assert_eq!(selected_terminal_text(&full, Some(selection((1, 0), (1, 3)))), "bra");
}

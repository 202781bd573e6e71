use adit_ui::highlight::{rules, spans_of_matches, Highlighter, RuleSpec, Span};
use adit_ui::terminal::{TermColor, TerminalCell, TerminalLine};

fn plain(text: &str) -> TerminalCell {
    TerminalCell {
        text: String::from(text),
        fg: TermColor::Default,
        cursor: false,
        hyperlink: None,
    }
}

fn coloured(text: &str) -> TerminalCell {
    TerminalCell { fg: TermColor::Indexed(2), ..plain(text) }
}

fn spans_of(line: &TerminalLine) -> Vec<(usize, usize)> {
    Highlighter::default().spans(line).into_iter().map(|span| (span.start, span.end)).collect()
}

#[test]
fn matches_uncoloured_text() {
    let line = TerminalLine::plain("boot: ERROR disk full");
    assert_eq!(spans_of(&line), vec![(6, 11)]);
}

#[test]
fn never_repaints_what_the_server_coloured() {
    let line = TerminalLine { cells: vec![coloured("ERROR and 10.0.0.1")] };
    assert!(spans_of(&line).is_empty());
}

#[test]
fn a_match_straddling_colour_keeps_only_the_uncoloured_part() {
    let line = TerminalLine { cells: vec![plain("WA"), coloured("RN done")] };
    assert_eq!(spans_of(&line), vec![(0, 2)]);
}

#[test]
fn columns_account_for_wide_glyphs() {
    let line = TerminalLine::plain("测试 ERROR");
    assert_eq!(spans_of(&line), vec![(5, 10)]);
}

#[test]
fn overlapping_matches_do_not_double_paint() {
    let line = TerminalLine::plain("see http://10.0.0.1/x now");
    let spans = spans_of(&line);
    assert_eq!(spans.len(), 1, "expected one span, got {spans:?}");
}

#[test]
fn the_cursor_cell_is_left_alone() {
    let line = TerminalLine { cells: vec![TerminalCell { cursor: true, ..plain("ERROR") }] };
    assert!(spans_of(&line).is_empty());
}

#[test]
fn a_hyperlink_keeps_its_own_colour() {
    let line = TerminalLine {
        cells: vec![TerminalCell {
            hyperlink: Some(String::from("https://example.com")),
            ..plain("https://example.com")
        }],
    };
    assert!(spans_of(&line).is_empty());
}

#[test]
fn the_default_set_stays_small() {
    let all = rules();
    let ids: Vec<_> = all.iter().map(|rule| rule.id).collect();
    assert_eq!(ids, ["error", "warning", "ipv4", "url"]);
    assert_eq!(Highlighter::default().rules.len(), all.len());
}

#[test]
fn ordinary_output_is_untouched() {
    let line = TerminalLine::plain("just some ordinary output");
    assert!(spans_of(&line).is_empty());
}

#[test]
fn a_rule_that_does_not_compile_is_left_out() {
    let broken = RuleSpec { id: "broken", pattern: "(", ansi: 1, enabled: true };
    let sound = RuleSpec { id: "digits", pattern: "[0-9]+", ansi: 3, enabled: true };
    let highlighter = Highlighter::with_rules(&vec![broken, sound]);
    assert_eq!(highlighter.rules.len(), 1);
    assert_eq!(
        highlighter.spans(&TerminalLine::plain("ab 12")),
        vec![Span { start: 3, end: 5, color: TermColor::Indexed(3) }]
    );
}

#[test]
fn a_rule_that_is_off_paints_nothing() {
    let off = RuleSpec { id: "digits", pattern: "[0-9]+", ansi: 3, enabled: false };
    let highlighter = Highlighter::with_rules(&vec![off]);
    assert!(highlighter.spans(&TerminalLine::plain("12")).is_empty());
}

#[test]
fn matches_are_byte_ranges_and_spans_are_columns() {
    // The two glyphs before the digits take six bytes and four columns.
    let line = TerminalLine::plain("测试12");
    assert_eq!(
        spans_of_matches(&line, &vec![(6, 8)], TermColor::Indexed(1)),
        vec![Span { start: 4, end: 6, color: TermColor::Indexed(1) }]
    );
}

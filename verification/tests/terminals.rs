use adit_ui::command::{CommandTarget, CommandWindow};
use adit_ui::hosts::SessionSummary;
use adit_ui::input::{maybe_report_mouse_motion, paste_asks, perform_paste, MouseMode};
use adit_ui::layout::{
    capture_reflow_anchors, maybe_resize_active_rdp, pane_cell, rdp_viewport_size,
    restore_reflow_anchors, sync_terminal_size, terminal_point_from_cells, terminal_row_overshoot,
    terminal_size_for_cells, Resize,
};
use adit_ui::panes::{OpenSession, PaneNotice, Panes, SessionId, Sessions, TileMode};
use adit_ui::profile::ProfileId;
use adit_ui::search::Search;
use adit_ui::style::SessionStatus;
use adit_ui::terminal::{
    SearchMatch, TerminalLine, TerminalPoint, TerminalScrollAction, TerminalSelection,
    TerminalSize, TerminalSnapshot,
};
use adit_ui::typing::{
    auto_log_connected_sessions, mouse_reporting_active, send_mouse_report,
    terminal_cursor_blinks, toggle_active_logging, LogSwitch, Route, TypingState,
};
use adit_ui::viewport::{Click, ScrollNotice, TerminalView};

#[test]
fn terminal_size_for_area_clamps_to_sane_bounds() {
    let tiny = terminal_size_for_cells(0, 0);
    assert_eq!(tiny.cols, 20);
    assert_eq!(tiny.rows, 6);
    let big = terminal_size_for_cells(11_000, 5_000);
    assert_eq!(big.cols, 220);
    assert_eq!(big.rows, 80);
}

#[test]
fn a_pointer_is_kept_inside_the_terminal() {
    let size = TerminalSize::new(80, 24);
    assert_eq!(terminal_point_from_cells(-3, 100, size), TerminalPoint { row: 23, col: 0 });
    assert_eq!(terminal_point_from_cells(5, 6, size), TerminalPoint { row: 6, col: 5 });
    assert_eq!(terminal_row_overshoot(6, size), 0);
    assert_eq!(terminal_row_overshoot(-2, size), -2);
    assert_eq!(terminal_row_overshoot(30, size), 7);
    assert_eq!(terminal_row_overshoot(-500, size), -40);
    assert_eq!(pane_cell(5, 3), (2, 1));
}

#[test]
fn a_desktop_is_asked_for_a_size_once() {
    let fitted = rdp_viewport_size(1921, 1079);
    assert_eq!(fitted.0 % 4, 0);
    let mut target = None;
    assert_eq!(maybe_resize_active_rdp(true, fitted, &mut target), Some(fitted));
    assert_eq!(maybe_resize_active_rdp(true, fitted, &mut target), None);
    let mut idle = None;
    assert_eq!(maybe_resize_active_rdp(false, fitted, &mut idle), None);
}

#[test]
fn a_new_size_reaches_the_panes() {
    let (old, new) = (TerminalSize::new(80, 24), TerminalSize::new(100, 30));
    assert!(matches!(sync_terminal_size(old, old, &Vec::new(), true).0, Resize::Unchanged));
    assert!(matches!(sync_terminal_size(old, new, &Vec::new(), true).0, Resize::Active));
    assert!(matches!(sync_terminal_size(old, new, &Vec::new(), false).0, Resize::Nobody));
    let panes = vec![SessionId(1), SessionId(2)];
    assert!(matches!(
        sync_terminal_size(old, new, &panes, true).0,
        Resize::Panes(list) if list == panes
    ));
}

#[test]
fn places_that_stay_are_kept() {
    let selection = Some(TerminalSelection {
        start: TerminalPoint { row: 3, col: 1 },
        end: TerminalPoint { row: 4, col: 2 },
    });
    let places = capture_reflow_anchors(selection, 7);
    assert_eq!(places, vec![(3, 1), (4, 2), (7, 0)]);
    let (mut kept, mut offset) = (selection, 5);
    restore_reflow_anchors(&mut kept, &mut offset, &places, 12);
    assert_eq!(kept, selection);
    assert_eq!(offset, 5);
}

fn view(rows: u16) -> TerminalView {
    TerminalView {
        rows,
        scroll_offset: 0,
        selection: None,
        selecting: false,
        pointer: None,
        click: None,
        autoscroll: 0,
        context_menu: false,
        notice: None,
    }
}

fn screen(texts: &[&str]) -> TerminalSnapshot {
    TerminalSnapshot {
        title: String::new(),
        size: TerminalSize::new(80, texts.len() as u16),
        first_row: 0,
        total_rows: texts.len(),
        lines: texts.iter().map(|text| TerminalLine::plain(text)).collect(),
        cursor_row: 0,
        cursor_col: 0,
        cursor_visible: true,
        alt_screen: false,
    }
}

#[test]
fn scrolling_back_returns() {
    let mut view = view(10);
    view.apply_terminal_scroll(100, TerminalScrollAction::Lines(30));
    assert_eq!(view.scroll_offset, 30);
    assert_eq!(view.notice, Some(ScrollNotice::RowsFromBottom(30)));
    assert_eq!(view.viewport_first_row(100), 60);
    view.apply_terminal_scroll(100, TerminalScrollAction::Lines(-30));
    assert_eq!(view.scroll_offset, 0);
    view.apply_terminal_scroll(100, TerminalScrollAction::Top);
    assert_eq!(view.scroll_offset, view.max_terminal_scroll_offset(100));
    view.apply_terminal_scroll(100, TerminalScrollAction::Bottom);
    assert_eq!(view.notice, Some(ScrollNotice::AtBottom));
    view.scroll_offset = 500;
    view.clamp_terminal_scroll(100);
    assert_eq!(view.scroll_offset, 90);
    assert_eq!(view.terminal_view_rows(), 10);
}

#[test]
fn clicks_count_to_three_and_start_again() {
    let shot = screen(&["hello world"]);
    let mut view = view(1);
    view.pointer = Some(TerminalPoint { row: 0, col: 1 });
    let mut counts = Vec::new();
    for now in [0, 100, 200, 300] {
        view.begin_terminal_click(&shot, 0, now);
        counts.push(view.click.unwrap().count);
    }
    assert_eq!(counts, [1, 2, 3, 1]);
    let late = Click { point: TerminalPoint { row: 0, col: 1 }, at_millis: 300, count: 1 };
    view.click = Some(late);
    view.begin_terminal_click(&shot, 0, 5_000);
    assert_eq!(view.click.unwrap().count, 1);
}

#[test]
fn a_drag_past_the_edge_scrolls() {
    let mut view = view(10);
    view.selecting = true;
    view.selection = Some(TerminalSelection {
        start: TerminalPoint { row: 95, col: 0 },
        end: TerminalPoint { row: 95, col: 0 },
    });
    view.extend_terminal_selection(90, TerminalPoint { row: 0, col: 3 }, -2);
    assert_eq!(view.selection.unwrap().end, TerminalPoint { row: 90, col: 3 });
    assert_eq!(view.autoscroll, -2);
    view.selection_autoscroll_tick(100);
    assert_eq!(view.scroll_offset, 2);
    assert_eq!(view.selection.unwrap().end, TerminalPoint { row: 88, col: 3 });
}

#[test]
fn a_search_finds_every_occurrence_and_steps_round() {
    let mut search = Search { query: String::from("AB"), matches: Vec::new(), index: None };
    search.recompute_search(&screen(&["abab", "x", "cAb"]));
    assert_eq!(
        search.matches,
        vec![
            SearchMatch { row: 0, col: 0, len: 2 },
            SearchMatch { row: 0, col: 2, len: 2 },
            SearchMatch { row: 2, col: 1, len: 2 },
        ]
    );
    let first = search.index.unwrap();
    search.step_search(1);
    search.step_search(-1);
    assert_eq!(search.index, Some(first));
    for _ in 0..3 {
        search.step_search(1);
    }
    assert_eq!(search.index, Some(first));
    assert!(search.scroll_to_current_match(1, 3).is_some());
    let marks = search.search_highlights_for(&screen(&["abab", "x", "cAb"]));
    assert_eq!(marks[0].len(), 2);
    assert_eq!((marks[2][0].0, marks[2][0].1), (1, 3));
    assert!(marks[1].is_empty());
}

fn sessions(count: u64) -> Sessions {
    Sessions {
        open: (0..count).map(|id| OpenSession { id: SessionId(id), rdp: false }).collect(),
        active: Some(SessionId(0)),
    }
}

#[test]
fn tiling_needs_two_sessions() {
    let mut panes = Panes::new();
    let alone = panes.tile_all_sessions(&sessions(1), TileMode::Grid);
    assert_eq!(alone.notice, Some(PaneNotice::NeedTwoSessions));
    let tiled = panes.tile_all_sessions(&sessions(3), TileMode::Columns);
    assert_eq!(tiled.notice, Some(PaneNotice::Tiled(TileMode::Columns, 3)));
    assert_eq!(panes.panes, vec![SessionId(0), SessionId(1), SessionId(2)]);
    // What was tiled can be split further.
    assert_eq!(panes.split_pane(&sessions(4)).notice, Some(PaneNotice::Split(4)));
    assert_eq!(panes.untile_sessions().notice, Some(PaneNotice::Merged));
    assert!(panes.panes.is_empty());
}

#[test]
fn splitting_adds_a_session_that_is_not_shown() {
    let mut panes = Panes::new();
    let outcome = panes.split_pane(&sessions(2));
    assert_eq!(outcome.notice, Some(PaneNotice::Split(2)));
    assert_eq!(panes.panes, vec![SessionId(0), SessionId(1)]);
    assert!(!panes.activate_session(SessionId(0)));
    assert_eq!(panes.focused, 0);
    assert!(panes.activate_session(SessionId(7)));
    assert_eq!(panes.panes, vec![SessionId(7), SessionId(1)]);
    panes.activate_session(SessionId(0));
    assert_eq!(panes.split_pane(&sessions(2)).notice, Some(PaneNotice::NoMoreSessions));
    assert!(panes.panes.is_empty());
    let mut fresh = Panes::new();
    assert_eq!(
        fresh.split_pane(&Sessions { open: Vec::new(), active: None }).notice,
        Some(PaneNotice::ConnectFirst)
    );
    let desktop = Sessions {
        open: vec![OpenSession { id: SessionId(0), rdp: true }],
        active: Some(SessionId(0)),
    };
    assert_eq!(fresh.split_pane(&desktop).notice, Some(PaneNotice::RdpCannotSplit));
    let mut full = Panes::new();
    let mut last = None;
    for _ in 0..40 {
        last = full.split_pane(&sessions(60)).notice;
        if last == Some(PaneNotice::TooManyPanes) {
            break;
        }
    }
    assert_eq!(last, Some(PaneNotice::TooManyPanes));
}

#[test]
fn a_closed_session_leaves_its_pane() {
    let mut panes = Panes::new();
    panes.tile_all_sessions(&sessions(3), TileMode::Grid);
    let mut left = sessions(3);
    left.open.remove(1);
    panes.sync_panes(&left);
    assert_eq!(panes.panes, vec![SessionId(0), SessionId(2)]);
    let focused = panes.focus_pane(1, Some(SessionId(0))).unwrap();
    assert_eq!(focused.activate, Some(SessionId(2)));
    assert_eq!(panes.focused, 1);
    assert!(panes.focus_pane(9, None).is_none());
    panes.close_pane(0);
    assert!(panes.panes.len() < 2);
}

#[test]
fn input_goes_where_it_is_sent() {
    let mut state =
        TypingState { cursor_on: false, scroll_offset: 9, selection: None, broadcast: false };
    assert_eq!(state.send_terminal_bytes(true), Route::Active);
    assert_eq!((state.cursor_on, state.scroll_offset), (true, 0));
    assert_eq!(state.send_terminal_bytes(false), Route::Nowhere);
    state.broadcast = true;
    assert_eq!(state.send_terminal_bytes(true), Route::Everyone);
    assert_eq!(state.send_command_bytes(3, CommandTarget::AllSessions), Route::Everyone);
    assert_eq!(CommandTarget::AllSessions.toggled(), CommandTarget::ActiveSession);
    assert_eq!(CommandTarget::AllSessions.toggled().toggled(), CommandTarget::AllSessions);
}

#[test]
fn a_command_history_stays_tidy() {
    let mut window = CommandWindow {
        input: String::from("ls"),
        history: Vec::new(),
        history_pos: None,
        send_immediately: false,
    };
    assert!(window.payload().is_some());
    window.sent();
    window.input = String::from("ls");
    window.sent();
    assert_eq!(window.history, ["ls"]);
    window.history_step(-1);
    assert_eq!(window.input, "ls");
}

#[test]
fn a_pointer_is_reported_once_for_each_cell() {
    let point = TerminalPoint { row: 1, col: 2 };
    assert_eq!(
        send_mouse_report(Some(point), true, 0, true, false),
        Some(b"\x1b[<0;3;2M".to_vec())
    );
    assert_eq!(send_mouse_report(None, true, 0, true, false), None);
    assert!(!mouse_reporting_active(MouseMode::Off));
    assert!(mouse_reporting_active(MouseMode::Buttons));
    assert!(MouseMode::Motion.reports_any_motion() && MouseMode::Drag.reports_drag());
    let first = maybe_report_mouse_motion(MouseMode::Motion, Some(point), None, false);
    assert_eq!(first.reported, Some(point));
    let second = maybe_report_mouse_motion(MouseMode::Motion, Some(point), first.reported, false);
    assert_eq!(second.button, None);
}

#[test]
fn a_bracketed_paste_is_marked() {
    assert_eq!(perform_paste("a\nb", true), b"\x1b[200~a\rb\x1b[201~".to_vec());
    assert_eq!(perform_paste("a\nb", false), b"a\rb".to_vec());
    assert!(paste_asks(true, "a\nb") && !paste_asks(false, "a\nb"));
    assert!(!paste_asks(true, " a\n"));
}

#[test]
fn a_cursor_blinks_in_a_terminal_only() {
    assert!(terminal_cursor_blinks(true, true, false));
    assert!(!terminal_cursor_blinks(true, true, true));
    assert!(!terminal_cursor_blinks(false, true, false));
}

#[test]
fn logging_is_switched() {
    assert!(matches!(toggle_active_logging(false, false, "", ""), LogSwitch::NoSession));
    assert!(matches!(toggle_active_logging(true, true, "", ""), LogSwitch::Stop));
    assert!(matches!(
        toggle_active_logging(true, false, "", "%N"),
        LogSwitch::Start { pattern, .. } if pattern == "%N"
    ));
    let open = |id: u64, status: SessionStatus| SessionSummary {
        id: SessionId(id),
        profile_id: ProfileId(1),
        title: String::new(),
        endpoint: String::new(),
        status,
    };
    let list = vec![
        open(1, SessionStatus::Connected),
        open(2, SessionStatus::Connecting),
        open(3, SessionStatus::Connected),
    ];
    assert_eq!(auto_log_connected_sessions(true, &list, &vec![SessionId(1)]), vec![2]);
    assert!(auto_log_connected_sessions(false, &list, &Vec::new()).is_empty());
}

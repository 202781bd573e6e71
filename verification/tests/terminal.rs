use adit_ui::command::command_input_delta;
use adit_ui::groups::reordered_folders;
use adit_ui::input::{encode_mouse_event, normalize_paste};
use adit_ui::panes::{pane_grid_dims, TileMode};
use adit_ui::terminal_text::word_bounds;

#[test]
fn mouse_events_encode_sgr_and_x10() {
    assert_eq!(encode_mouse_event(true, 0, 0, 0, true, false), b"\x1b[<0;1;1M");
    assert_eq!(encode_mouse_event(true, 0, 4, 2, false, false), b"\x1b[<0;5;3m");
    assert_eq!(encode_mouse_event(true, 0, 9, 1, true, true), b"\x1b[<32;10;2M");
    assert_eq!(encode_mouse_event(true, 64, 0, 0, true, false), b"\x1b[<64;1;1M");
    assert_eq!(
        encode_mouse_event(false, 0, 0, 0, true, false),
        vec![0x1b, b'[', b'M', 32, 33, 33]
    );
}

#[test]
fn pane_grid_dims_tiles_by_count() {
    assert_eq!(pane_grid_dims(1, TileMode::Grid), (1, 1));
    assert_eq!(pane_grid_dims(2, TileMode::Grid), (2, 1));
    assert_eq!(pane_grid_dims(3, TileMode::Grid), (3, 1));
    assert_eq!(pane_grid_dims(4, TileMode::Grid), (2, 2));
    assert_eq!(pane_grid_dims(6, TileMode::Grid), (3, 2));
    assert_eq!(pane_grid_dims(4, TileMode::Columns), (4, 1));
    assert_eq!(pane_grid_dims(4, TileMode::Rows), (1, 4));
}

#[test]
fn command_input_delta_tracks_typing_and_erasing() {
    assert_eq!(command_input_delta("ls", "ls -"), Some(b" -".to_vec()));
    assert_eq!(command_input_delta("", "a"), Some(b"a".to_vec()));
    assert_eq!(command_input_delta("ls -l", "ls"), Some(vec![0x7f, 0x7f, 0x7f]));
    assert_eq!(command_input_delta("ls", "ls"), Some(Vec::new()));
    assert_eq!(command_input_delta("cat a.txt", "cat b.txt"), None);
}

#[test]
fn folder_reorder_is_direction_aware() {
    let base = || vec!["A".to_string(), "B".to_string(), "C".to_string(), "D".to_string()];
    assert_eq!(reordered_folders(base(), "B", "A"), vec!["B", "A", "C", "D"]);
    assert_eq!(reordered_folders(base(), "A", "C"), vec!["B", "C", "A", "D"]);
    assert_eq!(reordered_folders(base(), "D", "B"), vec!["A", "D", "B", "C"]);
    assert_eq!(reordered_folders(base(), "A", "D"), vec!["B", "C", "D", "A"]);
    assert_eq!(reordered_folders(base(), "B", "B"), base());
    assert_eq!(reordered_folders(base(), "B", "Z"), base());
}

#[test]
fn word_bounds_selects_whole_tokens() {
    assert_eq!(word_bounds("hello world", 1), Some((0, 5)));
    assert_eq!(word_bounds("hello world", 8), Some((6, 11)));
    assert_eq!(word_bounds("cd /usr/local/bin", 8), Some((3, 17)));
    assert_eq!(word_bounds("see ./a.tar.gz now", 6), Some((4, 14)));
    assert_eq!(word_bounds("a b", 1), Some((1, 2)));
    assert_eq!(word_bounds("hi", 5), None);
}

#[test]
fn paste_normalizes_newlines_for_pty() {
    assert_eq!(normalize_paste("one\r\ntwo\n"), b"one\rtwo\r".to_vec());
}

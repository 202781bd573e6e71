use std::cmp::Ordering;

use adit_ui::sftp::{entry_order, sftp_cmp, SftpEntry, SftpPane, SftpSortKey};
use adit_ui::sftp_panel::{
    drag_ghost_label, sftp_batch_button, sftp_context_menu_card, sftp_delete_bar,
    sftp_entry_row, sftp_list, sftp_rename_bar, sftp_title,
    sftp_sort_cell, EntryPress, SftpAction, SftpDrag, SftpPanel,
};
use adit_ui::style::Tone;
use adit_ui::transfers::{
    human_size, sftp_transfer_queue, sftp_transfer_row, TransferDirection, TransferItem,
    TransferStatus,
};

#[test]
fn sftp_cmp_orders_by_column_and_direction() {
    let a = ("alpha", 10u64, Some(100u64));
    let b = ("beta", 5u64, Some(200u64));
    assert_eq!(sftp_cmp(SftpSortKey::Name, true, a, b), Ordering::Less);
    assert_eq!(sftp_cmp(SftpSortKey::Name, false, a, b), Ordering::Greater);
    assert_eq!(sftp_cmp(SftpSortKey::Size, true, a, b), Ordering::Greater);
    assert_eq!(sftp_cmp(SftpSortKey::Modified, true, a, b), Ordering::Less);
}

#[test]
fn names_are_compared_without_regard_to_case() {
    let a = ("Alpha", 0u64, None);
    let b = ("beta", 0u64, Some(1u64));
    assert_eq!(sftp_cmp(SftpSortKey::Name, true, a, b), Ordering::Less);
    assert_eq!(sftp_cmp(SftpSortKey::Name, true, b, a), Ordering::Greater);
    assert_eq!(sftp_cmp(SftpSortKey::Modified, true, a, b), Ordering::Less);
}

fn entry(name: &str, is_dir: bool, size: u64, mtime: Option<u64>) -> SftpEntry {
    SftpEntry { name: String::from(name), is_dir, size, mtime }
}

fn shelf() -> Vec<SftpEntry> {
    vec![
        entry("b.txt", false, 30, Some(10)),
        entry("docs", true, 0, Some(30)),
        entry("a.txt", false, 50, Some(20)),
        entry("bin", true, 0, Some(5)),
    ]
}

#[test]
fn folders_come_first_in_either_direction() {
    let list = shelf();
    assert_eq!(entry_order(&list, SftpSortKey::Name, true), vec![3, 1, 2, 0]);
    assert_eq!(entry_order(&list, SftpSortKey::Name, false), vec![1, 3, 0, 2]);
    assert_eq!(entry_order(&list, SftpSortKey::Size, false)[2..], [2, 0]);
}

#[test]
fn sizes_read_as_the_formatter_writes_them() {
    assert_eq!(human_size(0), "0 B");
    assert_eq!(human_size(1023), "1023 B");
    assert_eq!(human_size(1024), "1.0 KB");
    assert_eq!(human_size(1536), "1.5 KB");
    let units = ["B", "KB", "MB", "GB", "TB"];
    let formatted = |bytes: u64| {
        let mut value = bytes as f64;
        let mut unit = 0;
        while value >= 1024.0 && unit < units.len() - 1 {
            value /= 1024.0;
            unit += 1;
        }
        if unit == 0 {
            format!("{} {}", bytes, units[0])
        } else {
            format!("{:.1} {}", value, units[unit])
        }
    };
    let mut seed = 88172645463325252u64;
    for shift in 0..64 {
        for _ in 0..200 {
            seed ^= seed << 13;
            seed ^= seed >> 7;
            seed ^= seed << 17;
            let bytes = seed >> shift;
            assert_eq!(human_size(bytes), formatted(bytes), "{bytes}");
        }
        let edge = 1u64 << shift;
        for bytes in [edge - 1, edge, edge + 1, edge + edge / 20, edge.wrapping_neg()] {
            assert_eq!(human_size(bytes), formatted(bytes), "{bytes}");
        }
    }
    assert_eq!(human_size(u64::MAX), formatted(u64::MAX));
}

fn panel() -> SftpPanel {
    SftpPanel {
        local_selected: vec![String::from("a.txt"), String::from("b.txt")],
        remote_selected: Vec::new(),
        drag: None,
        drag_over: None,
        local_path_edit: String::from("/tmp"),
        remote_path_edit: String::from("/root"),
        local_seen: String::from("/tmp"),
        remote_seen: String::from("/root"),
        context_menu: None,
        local_sort: (SftpSortKey::Name, true),
        remote_sort: (SftpSortKey::Name, true),
    }
}

#[test]
fn a_drag_of_a_chosen_file_takes_all_that_are_chosen() {
    let mut panel = panel();
    panel.drag = Some(SftpDrag { pane: SftpPane::Local, name: String::from("a.txt") });
    assert_eq!(panel.drag_subject().1, 2);
    panel.drag = Some(SftpDrag { pane: SftpPane::Local, name: String::from("other") });
    assert_eq!(panel.drag_subject(), (String::from("other"), 1));
    panel.drag_over = Some(SftpPane::Local);
    assert!(panel.ghost_shown(SftpPane::Local, true));
    assert!(!panel.ghost_shown(SftpPane::Remote, true));
    assert!(!panel.ghost_shown(SftpPane::Local, false));
    assert!(drag_ghost_label("a.txt", 1).contains("a.txt"));
    assert_eq!(sftp_title("root@h:22"), "SFTP — root@h:22");
    assert_eq!(sftp_rename_bar("a"), "重命名 a →");
    assert_eq!(sftp_delete_bar("a"), "确认删除 a?");
}

#[test]
fn the_status_line_says_what_is_dragged() {
    let mut panel = panel();
    assert_eq!(panel.status_line("ready"), (String::from("ready"), Tone::Muted));
    assert_eq!(panel.status_line("error: gone").1, Tone::Danger);
    panel.drag = Some(SftpDrag { pane: SftpPane::Local, name: String::from("a.txt") });
    assert_eq!(
        panel.status_line("ready"),
        (String::from("⠿ 拖拽 2 项 — 松开到右侧远程栏上传"), Tone::Accent)
    );
    panel.drag = Some(SftpDrag { pane: SftpPane::Remote, name: String::from("c") });
    assert_eq!(panel.status_line("").0, "⠿ 拖拽 «c» — 松开到左侧本地栏下载");
}

#[test]
fn a_drop_is_marked_on_the_other_side_only() {
    let mut panel = panel();
    panel.drag = Some(SftpDrag { pane: SftpPane::Local, name: String::from("a.txt") });
    panel.drag_over = Some(SftpPane::Remote);
    assert!(panel.drop_active(SftpPane::Remote));
    assert!(!panel.drop_active(SftpPane::Local));
    panel.drag_over = Some(SftpPane::Local);
    assert!(!panel.drop_active(SftpPane::Local));
}

#[test]
fn a_folder_that_was_left_loses_its_selection() {
    let mut panel = panel();
    panel.sync_sftp_state(Some((String::from("/etc"), String::from("/tmp"))));
    assert_eq!(panel.remote_path_edit, "/etc");
    assert_eq!(panel.local_path_edit, "/tmp");
    assert_eq!(panel.local_selected.len(), 2);
    panel.sync_sftp_state(Some((String::from("/etc"), String::from("/home"))));
    assert!(panel.local_selected.is_empty());
}

#[test]
fn a_row_shows_what_the_entry_is() {
    let folder = sftp_entry_row(&entry("docs", true, 0, None), 0);
    assert_eq!(folder.press, EntryPress::Navigate);
    assert_eq!(folder.date, "—");
    assert!(folder.label.contains("docs"));
    let file = sftp_entry_row(&entry("a.txt", false, 2048, Some(0)), 0);
    assert_eq!(file.press, EntryPress::Select);
    assert_eq!(file.size, "2.0 KB");
    assert_eq!(file.date, "1970-01-01 00:00");
}

#[test]
fn a_list_marks_what_is_chosen() {
    let shown = sftp_list(&panel(), SftpPane::Local, &shelf());
    let order: Vec<usize> = shown.rows.iter().map(|row| row.index).collect();
    assert_eq!(order, vec![3, 1, 2, 0]);
    let chosen: Vec<bool> = shown.rows.iter().map(|row| row.selected).collect();
    assert_eq!(chosen, vec![false, false, true, true]);
    assert!(shown.batch.1);
    assert!(!sftp_batch_button("下载", 0).1);
    assert_eq!(
        sftp_sort_cell("名称", SftpSortKey::Size, (SftpSortKey::Name, true)).0,
        "名称"
    );
}

#[test]
fn a_menu_offers_what_the_side_can_do() {
    let remote: Vec<SftpAction> =
        sftp_context_menu_card(SftpPane::Remote, false).iter().map(|item| item.action).collect();
    assert!(remote.contains(&SftpAction::Download) && !remote.contains(&SftpAction::Upload));
    let local: Vec<SftpAction> =
        sftp_context_menu_card(SftpPane::Local, false).iter().map(|item| item.action).collect();
    assert!(local.contains(&SftpAction::Upload) && !local.contains(&SftpAction::Download));
}

fn transfer(status: TransferStatus, done: u64, total: u64) -> TransferItem {
    TransferItem {
        id: 1,
        name: String::from("a.bin"),
        dest: String::from("/tmp/a.bin"),
        direction: TransferDirection::Upload,
        status,
        done,
        total,
        bps: 2048,
        error: None,
    }
}

#[test]
fn a_transfer_shows_its_share() {
    let row = sftp_transfer_row(&transfer(TransferStatus::Active, 512, 1024));
    let item = transfer(TransferStatus::Active, 512, 1024);
    assert_eq!((row.id, &row.name), (item.id, &item.name));
    assert_eq!(row.percent, 50);
    assert!(row.stoppable);
    assert_eq!(row.speed, "2.0 KB/s");
    let done = sftp_transfer_row(&transfer(TransferStatus::Done, 0, 0));
    assert_eq!(done.percent, 100);
    assert!(!done.stoppable);
    assert_eq!(done.detail_tone, Tone::Muted);
}

#[test]
fn the_newest_transfer_is_listed_first() {
    let items = vec![
        transfer(TransferStatus::Done, 1, 1),
        transfer(TransferStatus::Pending, 0, 1),
    ];
    let queue = sftp_transfer_queue(&items);
    assert_eq!(queue.order, vec![1, 0]);
    assert!(queue.can_clear && queue.can_stop_all && !queue.empty);
    assert!(sftp_transfer_queue(&Vec::new()).empty);
}

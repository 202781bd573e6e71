use adit_ui::actions::{
    change_notice, command_sent, import_notice, log_error, log_notice, pane_notice,
    paste_notice, persist_profiles, relocation_notice, resize_notice, save_error_text, scroll_notice, Change,
    ImportSource, SessionBook,
};
use adit_ui::arrange::Deletion;
use adit_ui::catalog::{Catalog, InlineRename, Relocation};
use adit_ui::chrome::ProfileSortKey;
use adit_ui::command::CommandWindow;
use adit_ui::form::{load_selected_profile, SaveError};
use adit_ui::i18n::Language;
use adit_ui::panes::{PaneNotice, TileMode};
use adit_ui::profile::{
    AuthMethod, ConnectionProfile, Environment, ProfileId, Protocol,
};
use adit_ui::viewport::{ScrollNotice, TerminalView};

fn profile(id: u64, group: &str, name: &str) -> ConnectionProfile {
    ConnectionProfile {
        id: ProfileId(id),
        group: String::from(group),
        name: String::from(name),
        host: String::from("10.0.0.1"),
        port: 22,
        username: String::from("root"),
        auth_method: AuthMethod::Password,
        identity_file: String::new(),
        protocol: Protocol::Ssh,
        icon: String::new(),
        startup_command: String::new(),
        jumps: Vec::new(),
        terminal_type: String::new(),
        environment: Environment::Unset,
        accent_color: None,
        label: None,
        sort_order: 0,
        tunnels: Vec::new(),
    }
}

fn book() -> SessionBook {
    SessionBook {
        catalog: Catalog {
            profiles: vec![profile(1, "g", "a"), profile(2, "h", "b"), profile(3, "g", "c")],
            groups: vec![String::from("g")],
        },
        selected_profile: Some(ProfileId(1)),
        form: load_selected_profile(&profile(1, "g", "a"), &None, &None),
        rename: InlineRename {
            editing_profile: Some(ProfileId(1)),
            profile_draft: String::from("x"),
            editing_group: Some(String::from("g")),
            group_draft: String::from("y"),
        },
    }
}

#[test]
fn a_paste_is_told_where_something_was_pasted() {
    let zh = Language::Zh;
    assert_eq!(paste_notice(zh, "ls\n", false).as_deref(), Some("已粘贴到当前终端"));
    assert_eq!(paste_notice(zh, "ls", true).as_deref(), Some("已粘贴到当前终端"));
    assert_eq!(paste_notice(zh, "", true), None);
    assert_eq!(paste_notice(Language::En, "", false), None);
}

#[test]
fn a_selected_session_is_shown_with_what_is_stored() {
    let mut book = book();
    book.select_profile(ProfileId(2), &Some(String::from("pw")), &None);
    assert_eq!(book.selected_profile, Some(ProfileId(2)));
    assert_eq!((book.form.name.as_str(), book.form.password.as_str()), ("b", "pw"));
    assert_eq!(book.catalog.groups, ["g", "h"]);
    book.select_profile(ProfileId(9), &None, &None);
    assert_eq!(book.form.name, "b");
}

#[test]
fn a_written_session_unfolds_its_folder() {
    let mut book = book();
    let mut collapsed = vec![String::from("h"), String::from("g")];
    book.profile_written(ProfileId(2), &mut collapsed, &None, &None);
    assert_eq!(collapsed, ["g"]);
    book.profile_begun(ProfileId(3), "", &mut collapsed, &None, &None);
    assert_eq!(collapsed, ["g"]);
    book.profile_begun(ProfileId(3), "g", &mut collapsed, &None, &None);
    assert!(collapsed.is_empty());
    assert_eq!(book.form.name, "c");
}

#[test]
fn deleting_ends_a_rename_and_selects_the_first() {
    let mut desk = book();
    assert!(matches!(
        desk.delete_selected(),
        Deletion::Deleted { id: ProfileId(1), selected: Some(ProfileId(2)) }
    ));
    assert!(desk.rename.editing_profile.is_none() && desk.rename.editing_group.is_none());
    desk.selected_profile = Some(ProfileId(9));
    assert!(matches!(desk.delete_selected(), Deletion::Unknown));
    desk.selected_profile = None;
    assert!(matches!(desk.delete_selected(), Deletion::NoSelection));
}

#[test]
fn a_deleted_folder_takes_its_sessions() {
    let mut desk = book();
    let mut collapsed = vec![String::from("g")];
    assert_eq!(desk.delete_group("g", &mut collapsed), vec![ProfileId(1), ProfileId(3)]);
    assert!(collapsed.is_empty() && desk.catalog.groups.is_empty());
    assert_eq!(desk.selected_profile, Some(ProfileId(2)));
    assert_eq!(desk.form.group, "");
    assert!(desk.rename.editing_group.is_none() && desk.rename.editing_profile.is_some());
}

#[test]
fn renaming_a_folder_back_is_nothing() {
    let mut desk = book();
    let mut collapsed = vec![String::from("g")];
    desk.apply_group_rename("g", "k", &mut collapsed);
    assert_eq!((collapsed.as_slice(), desk.form.group.as_str()), (&[String::from("k")][..], "k"));
    assert_eq!(desk.catalog.profiles[2].group, "k");
    assert_eq!(desk.catalog.profiles[1].group, "h");
    desk.apply_group_rename("k", "g", &mut collapsed);
    assert_eq!(desk.catalog.groups, ["g"]);
    assert_eq!(desk.catalog.profiles[0].group, "g");
    assert_eq!(collapsed, ["g"]);
}

#[test]
fn a_renamed_session_is_renamed_in_the_form() {
    let mut desk = book();
    assert!(desk.apply_profile_rename(ProfileId(1), "new"));
    assert_eq!(desk.form.name, "new");
    assert!(desk.apply_profile_rename(ProfileId(2), "other"));
    assert_eq!(desk.form.name, "new");
    assert!(!desk.apply_profile_rename(ProfileId(9), "none"));
}

#[test]
fn a_moved_session_is_shown_in_its_folder() {
    let mut desk = book();
    let mut collapsed = vec![String::from("k")];
    assert!(desk.move_to_group(ProfileId(2), "k", &mut collapsed, &None, &None));
    assert_eq!(desk.form.group, "k");
    assert_eq!(desk.catalog.groups, ["g", "k"]);
    assert!(collapsed.is_empty());
    assert!(!desk.move_to_group(ProfileId(9), "k", &mut collapsed, &None, &None));
}

#[test]
fn changes_are_said() {
    assert_eq!(change_notice(&Change::Moved), "会话已移动");
    assert_eq!(change_notice(&Change::GridArranged), "已调整网格排序");
    assert_eq!(
        import_notice(ImportSource::SecureCrt, 1, 1, 2),
        "已从 SecureCRT 导入 1 个会话（跳过 3 个已存在/无效）；密码未导入，请重新设置"
    );
    assert_eq!(change_notice(&Change::Begun), "新建会话已加入左侧列表，编辑后点击保存");
    assert_eq!(change_notice(&Change::Saved(String::from("/p"))), "会话配置已保存: /p");
    assert_eq!(
        change_notice(&Change::Deleted(String::from("/p"))),
        "会话配置已删除；已打开标签不受影响。已写入 /p"
    );
    assert_eq!(change_notice(&Change::Renamed), "会话已重命名");
    assert_eq!(change_notice(&Change::Sorted(ProfileSortKey::Host)), "会话已按主机排序");
    assert_eq!(change_notice(&Change::MovedTo(String::from("g"))), "会话已移动到分组: g");
    assert_eq!(change_notice(&Change::GroupMade(String::from("g"))), "分组已创建: g");
    assert_eq!(
        change_notice(&Change::GroupRenamed { from: String::from("a"), to: String::from("b") }),
        "分组已重命名: a -> b"
    );
    assert_eq!(
        change_notice(&Change::GroupDeleted { group: String::from("g"), count: 2 }),
        "已删除分组「g」及其 2 个会话配置（已打开标签不受影响）"
    );
    assert_eq!(
        change_notice(&Change::GroupDeleted { group: String::from("g"), count: 0 }),
        "已删除空分组「g」"
    );
    assert_eq!(change_notice(&Change::GroupsArranged), "分组顺序已更新");
}

#[test]
fn what_went_wrong_is_said() {
    assert_eq!(
        persist_profiles(Err(String::from("full")), &Change::Renamed),
        Err(String::from("保存会话配置失败: full"))
    );
    assert_eq!(persist_profiles(Ok(()), &Change::Renamed), Ok(String::from("会话已重命名")));
    assert_eq!(save_error_text(SaveError::BadPort), "端口必须是 1-65535 的数字");
    assert_eq!(save_error_text(SaveError::BadJump(String::from("m"))), "m");
}

#[test]
fn imports_and_moves_of_the_configuration_are_said() {
    assert_eq!(
        import_notice(ImportSource::SshConfig, 2, 1, 4),
        "已从 ~/.ssh/config 导入 2 个会话（跳过 1 个已存在）"
    );
    assert_eq!(
        import_notice(ImportSource::SecureCrt, 2, 0, 0),
        "已从 SecureCRT 导入 2 个会话；密码未导入，请重新设置"
    );
    assert_eq!(
        import_notice(ImportSource::SecureCrt, 0, 3, 0),
        "没有新的 SecureCRT 会话需要导入（可能都已存在）"
    );
    assert_eq!(relocation_notice(Relocation::Unchanged, "/c"), "配置文件夹未改变");
    assert_eq!(
        relocation_notice(Relocation::CarryOver { back_to_default: false }, "/c"),
        "配置文件夹已切换到 /c（已生效）"
    );
    assert_eq!(resize_notice(Language::Zh, 96, 28), "当前终端尺寸已设置为 96x28");
}

#[test]
fn a_sent_line_scrolls_to_the_newest_row() {
    let mut command = CommandWindow {
        input: String::from("ls"),
        history: Vec::new(),
        history_pos: Some(0),
        send_immediately: true,
    };
    let mut terminal = TerminalView {
        rows: 24,
        scroll_offset: 9,
        selection: None,
        selecting: false,
        pointer: None,
        click: None,
        autoscroll: 0,
        context_menu: false,
        notice: None,
    };
    command_sent(&mut command, &mut terminal);
    assert_eq!(command.history, ["ls"]);
    assert!(command.input.is_empty() && command.history_pos.is_none());
    assert_eq!(terminal.scroll_offset, 0);
}

#[test]
fn the_panes_and_the_logs_are_said() {
    let said = |notice: PaneNotice| pane_notice(Language::Zh, notice);
    assert_eq!(
        said(PaneNotice::Tiled(TileMode::Columns, 3)),
        (String::from("已垂直平铺 3 个会话"), false)
    );
    assert_eq!(said(PaneNotice::TooManyPanes).0, "最多同时分屏 6 个终端");
    assert_eq!(said(PaneNotice::Split(2)).0, "已分屏：2 个终端并排");
    assert_eq!(
        said(PaneNotice::NeedTwoSessions).0,
        "至少要两个会话才能平铺（先多连接/打开几个会话）"
    );
    assert_eq!(
        said(PaneNotice::NoMoreSessions).0,
        "没有更多会话可分屏（先在侧栏连接另一个会话）"
    );
    assert_eq!(said(PaneNotice::Merged), (String::from("已合并为单标签视图"), false));
    assert!(said(PaneNotice::RdpCannotSplit).1 && said(PaneNotice::ConnectFirst).1);
    assert_eq!(
        scroll_notice(Language::Zh, ScrollNotice::RowsFromBottom(12)),
        "终端历史: 距底部 12 行"
    );
    assert_eq!(scroll_notice(Language::Zh, ScrollNotice::AtBottom), "终端已回到底部");
    assert_eq!(log_notice("/l", true), "正在记录会话输出到: /l");
    assert_eq!(log_notice("/l", false), "已停止记录会话日志: /l");
    assert_eq!(log_error(Language::Zh, "full"), "开启会话日志失败: full");
}

#[test]
fn clicking_away_from_a_rename_never_traps() {
    let mut desk = book();
    desk.rename.group_draft = String::from("  ");
    let (profile, group, resolved) = desk.rename.commit_inline_rename(&desk.catalog);
    assert_eq!(profile, Some((ProfileId(1), String::from("x"))));
    assert_eq!(group, None);
    assert!(resolved);
    let again = desk.rename.commit_inline_rename(&desk.catalog);
    assert!(again.0.is_none() && again.1.is_none() && !again.2);
}

#[test]
fn a_rename_that_was_made_is_no_longer_in_progress() {
    let mut rename = book().rename;
    rename.profile_renamed();
    assert!(rename.editing_profile.is_none() && rename.profile_draft.is_empty());
    assert_eq!(rename.group_draft, "y");
    rename.group_renamed();
    assert!(rename.editing_group.is_none() && rename.group_draft.is_empty());
}

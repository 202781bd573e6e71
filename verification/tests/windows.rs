use adit_ui::chrome::{
    drag_event, menu_bar, menu_commands, menu_dropdown_offset, runtime_event, subscription,
    tool_button, toolbar, view, Activity, DragStep, Feed, Flags, Layer, MenuCommand, MenuKind,
    MenuState, MenuTask, OpenPanels, RuntimeAction, RuntimeEvent, SettingsCategory, Tool,
};
use adit_ui::dialogs::{
    about_dialog_overlay, auth_prompt_dialog_overlay, connection_dialog_overlay,
    host_key_dialog_overlay, hyperlink_confirm_overlay, known_hosts_overlay,
    paste_confirm_overlay, snippets_panel_overlay, update_dialog_overlay, AuthField, AuthPrompt, AuthPromptInfo, HostKeyPrompt, KnownHost,
    Snippet, UpdateAction, UpdateInfo, UpdateState,
};
use adit_ui::i18n::{en, language_label, t, tf, Language};
use adit_ui::options::{
    appearance_section, category_label, log_preview, log_preview_at, options_sections, rule_is_on,
    settings_dialog_overlay, toggle_rule, FolderButton, OptionLine, OptionsState, RdpQuality,
};
use adit_ui::calendar::{LocalZone, Moment};
use adit_ui::connect::{ConnectionDialog, Surface};
use adit_ui::hosts::MainView;
use adit_ui::panes::SessionId;
use adit_ui::profile::{AuthMethod, ProfileId, Protocol};
use adit_ui::shared::bring_in_step;
use adit_ui::style::{
    accent, danger, initial_mode, is_dark, link_open_modifier, muted_text, pick,
    primary_button_style, primary_text, resolve_dark, rgb, secondary_button_style, status_color,
    success, tone_color, ButtonState, SessionStatus, ThemeMode, Tone,
};
use adit_ui::theme::{
    active_scheme, color_scheme_index, default_foreground, font_family, font_label,
    font_preset_index, palette_color, selection_background, step_font_size, terminal_background, FONT_COUNT,
    SCHEME_COUNT,
};
use adit_ui::viewport::TerminalView;

#[test]
fn the_menu_bar_opens_every_menu() {
    let bar = menu_bar();
    assert_eq!(bar.len(), 7);
    assert_eq!(bar[0], ("File", MenuKind::File));
    let mut offered = Vec::new();
    assert_eq!(menu_dropdown_offset(MenuKind::File), 28);
    for pair in bar.windows(2) {
        assert!(menu_dropdown_offset(pair[0].1) < menu_dropdown_offset(pair[1].1));
    }
    for (_, menu) in bar {
        let commands = menu_commands(menu);
        assert!(!commands.is_empty());
        for (_, command) in &commands {
            assert_eq!(commands.iter().filter(|(_, other)| other == command).count(), 1);
            offered.push(*command);
        }
    }
    assert!(offered.contains(&MenuCommand::About));
}

fn flags() -> Flags {
    Flags {
        terminal_scroll_offset: 5,
        terminal_selection: None,
        terminal_context_menu: true,
        tunnels_open: false,
        known_hosts_open: false,
        sidebar_visible: true,
        dark_mode: false,
        settings_open: false,
        settings_category: SettingsCategory::App,
        snippets_open: false,
        broadcast_input: false,
        command_window_open: false,
        command_history_pos: Some(2),
        about_open: false,
        auto_reconnect: false,
    }
}

fn menu_state() -> MenuState {
    MenuState {
        flags: flags(),
        notice: String::new(),
        last_error: None,
        sync_secret_draft: String::from("draft"),
    }
}

#[test]
fn a_command_changes_what_it_names() {
    let mut state = menu_state();
    assert_eq!(
        state.run_menu_command(MenuCommand::CloseActiveTab, Some(SessionId(3))),
        MenuTask::Close(SessionId(3))
    );
    assert_eq!(state.flags.terminal_scroll_offset, 0);
    assert_eq!(state.notice, "当前标签已关闭");
    assert_eq!(state.run_menu_command(MenuCommand::CloseActiveTab, None), MenuTask::Done);
    assert_eq!(state.last_error.as_deref(), Some("没有可关闭的标签"));
    assert_eq!(state.run_menu_command(MenuCommand::ResizeWide, None), MenuTask::Resize(120, 36));
    state.run_menu_command(MenuCommand::SyncCloud, None);
    assert!(state.sync_secret_draft.is_empty());
    assert_eq!(state.flags.settings_category, SettingsCategory::Sync);
}

#[test]
fn switching_twice_is_nothing() {
    for command in [
        MenuCommand::ToggleSidebar,
        MenuCommand::ToggleTheme,
        MenuCommand::ToggleBroadcast,
        MenuCommand::ToggleAutoReconnect,
    ] {
        let mut state = menu_state();
        state.run_menu_command(command, None);
        assert_ne!(state.flags, flags());
        state.run_menu_command(command, None);
        assert_eq!(state.flags, flags());
    }
}

fn nothing_open() -> OpenPanels {
    OpenPanels {
        active_menu: None,
        profile_context_menu: None,
        tab_context_menu: None,
        group_context_menu: None,
        terminal_context_menu: false,
        profile_editor: false,
        connection_dialog: false,
        pending_host_key: None,
        auth_prompt: None,
        pending_hyperlink: false,
        sftp_open: false,
        sftp_context_menu: false,
        tunnels_open: false,
        about_open: false,
        update_dialog_open: false,
        paste_confirm_open: false,
        renaming_session: false,
        snippets_open: false,
        appearance_open: false,
        options_open: false,
        known_hosts_open: false,
    }
}

#[test]
fn the_parts_of_the_window_are_brought_in_step() {
    let mut flags = flags();
    flags.about_open = true;
    flags.settings_open = true;
    let mut panels = nothing_open();
    panels.group_context_menu = Some(true);
    let mut surface = Surface {
        terminal_focused: true,
        scroll_offset: 3,
        selection: None,
        terminal_menu: true,
        profile_menu: true,
        group_menu: false,
        main_view: MainView::Hosts,
        rdp_target: None,
        rdp_generation: 4,
    };
    let mut terminal = TerminalView {
        rows: 24,
        scroll_offset: 9,
        selection: None,
        selecting: false,
        pointer: None,
        click: None,
        autoscroll: 0,
        context_menu: false,
        notice: None,
    };
    bring_in_step(&mut flags, &mut panels, &mut surface, &terminal);
    assert_eq!((flags.terminal_scroll_offset, surface.scroll_offset), (9, 9));
    assert!(!flags.terminal_context_menu && !surface.terminal_menu);
    assert!(panels.about_open && panels.options_open && !panels.tunnels_open);
    assert!(!surface.profile_menu && surface.group_menu);
    assert_eq!((surface.rdp_generation, surface.terminal_focused), (4, true));
    // A command or a new session leads for once.
    flags.terminal_scroll_offset = 2;
    terminal.follow_flags(&flags);
    assert_eq!(terminal.scroll_offset, 2);
    surface.scroll_offset = 0;
    surface.group_menu = false;
    terminal.follow_surface(&surface);
    panels.follow_surface(&surface);
    assert_eq!(terminal.scroll_offset, 0);
    assert!(panels.group_context_menu.is_none() && panels.about_open);
}

#[test]
fn layers_lie_in_a_fixed_order() {
    let mut panels = nothing_open();
    assert!(view(&panels, true, false).layers.is_empty());
    panels.about_open = true;
    panels.profile_editor = true;
    panels.sftp_context_menu = true;
    let window = view(&panels, true, true);
    assert_eq!(window.layers, vec![Layer::ProfileEditor, Layer::About]);
    assert!(!window.menu_bar && !window.toolbar && !window.sidebar && window.status_bar);
}

#[test]
fn the_toolbar_marks_what_is_on() {
    let bar = toolbar(true, false, true, true);
    assert!(bar.tools.contains(&(Tool::ToggleBroadcast, true)));
    assert!(bar.tools.contains(&(Tool::ToggleCommandWindow, false)));
    assert_ne!(bar.theme_glyph, toolbar(true, false, true, false).theme_glyph);
    assert!(!tool_button(Tool::Connect).is_empty());
}

#[test]
fn events_reach_the_window_unless_a_widget_took_them() {
    assert_eq!(
        runtime_event(RuntimeEvent::Keyboard { ignored: true }),
        Some(RuntimeAction::TypeKey)
    );
    assert_eq!(runtime_event(RuntimeEvent::Keyboard { ignored: false }), None);
    assert_eq!(runtime_event(RuntimeEvent::Other), None);
    let idle = Activity {
        active_rdp_live: false,
        cards_moving: false,
        cursor_blinks: false,
        sidebar_dragging: false,
        scrollbar_dragging: false,
        terminal_selecting: false,
        selection_autoscroll: 0,
        tab_dragged: false,
    };
    let quiet = subscription(&idle);
    assert!(quiet.contains(&Feed::Events) && !quiet.contains(&Feed::RdpFrames));
    let busy = subscription(&Activity { active_rdp_live: true, tab_dragged: true, ..idle });
    assert!(busy.contains(&Feed::RdpFrames) && busy.contains(&Feed::TabRelease));
}

#[test]
fn a_drag_follows_the_pointer_and_ends_with_the_button() {
    let released = RuntimeEvent::LeftReleased { ignored: false };
    for feed in [Feed::SidebarDrag, Feed::ScrollbarDrag, Feed::SelectionDrag] {
        assert_eq!(drag_event(feed, RuntimeEvent::CursorMoved), Some(DragStep::Follow));
        assert_eq!(drag_event(feed, released), Some(DragStep::End));
    }
    assert_eq!(drag_event(Feed::TabRelease, RuntimeEvent::CursorMoved), None);
    assert_eq!(drag_event(Feed::TabRelease, released), Some(DragStep::End));
    assert_eq!(drag_event(Feed::Tick, released), None);
}

#[test]
fn a_changed_host_key_is_a_warning() {
    let mut prompt = HostKeyPrompt {
        host: String::from("h"),
        port: 22,
        key_type: String::from("ed25519"),
        fingerprint: String::from("f"),
        previous_fingerprint: None,
    };
    assert_ne!(host_key_dialog_overlay(Language::Zh, &prompt).title_tone, Tone::Danger);
    prompt.previous_fingerprint = Some(String::from("old"));
    let changed = host_key_dialog_overlay(Language::Zh, &prompt);
    assert_eq!(changed.title_tone, Tone::Danger);
    assert!(changed.address.contains("h:22"));
    assert!(changed.key_type.contains("ed25519"));
    assert_eq!(changed.fingerprint, "f");
    assert_eq!(changed.previous.map(|(_, before)| before).as_deref(), Some("old"));
    prompt.previous_fingerprint = None;
    assert!(host_key_dialog_overlay(Language::Zh, &prompt).previous.is_none());
}

#[test]
fn a_link_is_shown_before_it_is_opened() {
    let shown = hyperlink_confirm_overlay(Language::Zh, "https://example.com/a");
    assert_eq!(shown.url, "https://example.com/a");
    assert_eq!((shown.title, shown.accept), ("打开链接？", "打开"));
}

fn questions() -> AuthPromptInfo {
    AuthPromptInfo {
        name: String::new(),
        instructions: String::from("look at your phone"),
        prompts: vec![
            AuthField { prompt: String::from("Code: "), echo: true },
            AuthField { prompt: String::from("Password: "), echo: false },
        ],
    }
}

#[test]
fn every_question_has_an_answer() {
    let mut prompt = AuthPrompt { prompt: None, answers: Vec::new() };
    prompt.sync_auth_prompt(Some((SessionId(1), questions())));
    assert_eq!(prompt.answers, ["", ""]);
    prompt.answers[0] = String::from("123");
    prompt.sync_auth_prompt(Some((SessionId(1), questions())));
    assert_eq!(prompt.answers[0], "123");
    let shown = auth_prompt_dialog_overlay(Language::Zh, &questions(), &prompt.answers);
    assert_eq!(shown.fields.len(), 2);
    assert!(!shown.fields[0].hidden && shown.fields[1].hidden);
    assert!(shown.fields[1].submits && !shown.fields[0].submits);
    assert!(shown.name.is_none() && shown.instructions.is_some());
    prompt.sync_auth_prompt(None);
    assert!(prompt.prompt.is_none() && prompt.answers.is_empty());
}

#[test]
fn a_paste_is_shown_in_part() {
    let long = "line\n".repeat(200);
    let shown = paste_confirm_overlay(Language::Zh, &long);
    assert!(shown.count.contains("200"));
    assert!(shown.preview.len() < long.len());
}

#[test]
fn an_update_is_offered_with_its_installer() {
    let info = |url: &str| UpdateInfo {
        tag: String::from("v9"),
        installer_url: String::from(url),
        installer_name: String::from("a.exe"),
        notes_url: String::from("https://x"),
    };
    let offer = |state: UpdateState| update_dialog_overlay(Language::Zh, "0.1.0", &state);
    assert_eq!(offer(UpdateState::Available(info("https://x/a"))).action, UpdateAction::Download);
    assert_eq!(offer(UpdateState::Available(info(""))).action, UpdateAction::NoInstaller);
    assert_eq!(offer(UpdateState::Error(String::from("e"))).action, UpdateAction::Retry);
    assert_eq!(offer(UpdateState::Checking).action, UpdateAction::Nothing);
}

#[test]
fn empty_lists_say_so() {
    assert!(snippets_panel_overlay(Language::Zh, &Vec::new()).empty.is_some());
    assert!(known_hosts_overlay(Language::Zh, &Vec::new()).empty.is_some());
    let snippet = Snippet { name: String::from("n"), command: String::from("ls") };
    let list = snippets_panel_overlay(Language::Zh, &vec![snippet]);
    assert!(list.empty.is_none() && list.rows[0].0.contains('n'));
    let host = KnownHost {
        host: String::from("h"),
        key_type: String::from("rsa"),
        fingerprint: String::from("f"),
    };
    assert_eq!(known_hosts_overlay(Language::Zh, &vec![host]).rows.len(), 1);
    assert!(about_dialog_overlay(Language::Zh, "1.2.3").iter().any(|line| line.contains("1.2.3")));
}

#[test]
fn a_connection_dialog_names_the_key() {
    let mut dialog = ConnectionDialog {
        profile_id: ProfileId(1),
        title: String::from("web"),
        endpoint: String::from("root@h:22"),
        auth_method: AuthMethod::Key,
        identity_file: String::from("/k"),
    };
    let key = connection_dialog_overlay(Language::Zh, &dialog, Some(Protocol::Ssh), true);
    assert_eq!((key.title.as_str(), key.endpoint.as_str()), ("web", "root@h:22"));
    assert_eq!((key.heading, key.keep), ("连接 SSH", true));
    assert_eq!(key.identity.as_deref(), Some("Identity: /k"));
    dialog.identity_file = String::new();
    let desktop = connection_dialog_overlay(Language::Zh, &dialog, Some(Protocol::Rdp), false);
    assert_eq!((desktop.heading, desktop.keep), ("连接 RDP", false));
    assert!(desktop.identity.is_none());
    assert_eq!(connection_dialog_overlay(Language::Zh, &dialog, None, false).heading, "连接 SSH");
}

#[test]
fn texts_are_translated_and_filled() {
    assert_eq!(t(Language::Zh, "连接"), "连接");
    assert_eq!(t(Language::En, "连接"), en("连接"));
    assert_ne!(t(Language::En, "连接"), "连接");
    assert_eq!(en("没有译文的句子"), "没有译文的句子");
    assert_eq!(
        tf(Language::Zh, "重启后生效: {}", &vec![String::from("/x")]),
        "重启后生效: /x"
    );
    assert_eq!(language_label(Language::En), "English");
}

fn options_state() -> OptionsState {
    OptionsState {
        config_dir: String::from("/c"),
        profiles_path: String::from("/c/p"),
        settings_path: String::from("/c/s"),
        logs_path: String::from("/c/logs"),
        preview_path: String::from("/c/logs/x"),
        overridden: false,
        config_dir_custom: true,
        pending_config_dir: Some(String::from("/next")),
        connect_timeout_secs: 20,
        scrollback_lines: 5000,
        auto_check_updates: true,
        auto_accept_host_keys: false,
        rdp_clipboard: true,
        rdp_quality: RdpQuality::Balanced,
        log_dir: String::new(),
        log_name_pattern: String::new(),
        auto_log_on_connect: false,
        log_plaintext: true,
        copy_on_select: false,
        right_click_paste: false,
        confirm_multiline_paste: true,
    }
}

fn folder_buttons(state: &OptionsState) -> Vec<FolderButton> {
    for line in options_sections(Language::Zh, state).config {
        if let OptionLine::Folder { buttons, .. } = line {
            return buttons;
        }
    }
    Vec::new()
}

#[test]
fn an_overridden_folder_cannot_be_changed() {
    let mut state = options_state();
    assert!(folder_buttons(&state).contains(&FolderButton::Change));
    assert!(folder_buttons(&state).contains(&FolderButton::Reset));
    let sections = options_sections(Language::Zh, &state);
    assert!(sections
        .config
        .iter()
        .any(|line| matches!(line, OptionLine::Pending(text) if text == "重启后生效: /next")));
    state.overridden = true;
    assert_eq!(folder_buttons(&state), vec![FolderButton::Open]);
}

#[test]
fn a_log_preview_uses_the_session_that_is_open() {
    let at = Moment { year: 2026, month: 7, day: 8, hour: 9, minute: 5, second: 1 };
    assert_eq!(log_preview_at("%N.log", Some(("db", "x@y:1")), at), "db.log");
    assert_eq!(log_preview_at("", None, at), "web01_2026-07-08_09-05-01.log");
    assert_eq!(log_preview(&mut LocalZone::new(), "%H", None), "10.0.0.5");
}

#[test]
fn appearance_marks_what_is_chosen() {
    let shown = appearance_section("", 14, "", &vec![(String::from("url"), false)]);
    assert_eq!(shown.fonts.len(), FONT_COUNT as usize);
    assert_eq!(shown.schemes.len(), SCHEME_COUNT as usize);
    assert_eq!(shown.size, "14 px");
    assert_eq!(shown.fonts.iter().filter(|font| font.selected).count(), 1);
    assert_eq!(shown.schemes.iter().filter(|scheme| scheme.selected).count(), 1);
    assert!(shown.highlights.iter().all(|rule| rule.on == (rule.id != "url")));
    assert!(shown.highlights.iter().all(|rule| rule.swatch == palette_color(0, rule.ansi)));
    assert_eq!(shown.swatches, active_scheme(0).ansi);
    assert_eq!((shown.ground, shown.text), (terminal_background(0), default_foreground(0)));
    assert!(shown.fonts.iter().all(|font| font.family == font_family(font.index)));
    assert!(!rule_is_on(&vec![(String::from("a"), false)], "a", true));
    assert!(rule_is_on(&Vec::new(), "a", true));
    let mut overrides = vec![(String::from("b"), true)];
    toggle_rule(&mut overrides, "a", true);
    assert!(!rule_is_on(&overrides, "a", true) && rule_is_on(&overrides, "b", false));
    toggle_rule(&mut overrides, "a", true);
    assert!(rule_is_on(&overrides, "a", false));
    toggle_rule(&mut overrides, "b", false);
    assert!(!rule_is_on(&overrides, "b", true));
    let dialog = settings_dialog_overlay(Language::Zh, SettingsCategory::Sync);
    assert_eq!(dialog.rail.iter().filter(|item| item.selected).count(), 1);
    assert_eq!(category_label(SettingsCategory::Terminal), "终端");
}

#[test]
fn themes_follow_the_system_where_asked() {
    assert!(resolve_dark(ThemeMode::Dark, true));
    assert!(!resolve_dark(ThemeMode::Light, false));
    assert!(resolve_dark(ThemeMode::System, false));
    assert!(!is_dark(ThemeMode::System, true));
    assert_eq!(initial_mode(None, true), ThemeMode::Dark);
    assert_eq!(initial_mode(Some(ThemeMode::System), true), ThemeMode::System);
    assert_eq!(pick(true, rgb(1, 1, 1), rgb(2, 2, 2)), rgb(2, 2, 2));
}

#[test]
fn tokens_have_their_colours() {
    assert_eq!(tone_color(true, Tone::Muted), muted_text(true));
    assert_eq!(tone_color(false, Tone::Accent), accent());
    assert_ne!(primary_text(true), primary_text(false));
    assert_eq!(status_color(true, SessionStatus::Connected), rgb(34, 197, 94));
    assert_ne!(success(true), success(false));
    assert_eq!(status_color(true, SessionStatus::Error), danger());
    assert_ne!(
        primary_button_style(true, ButtonState::Active),
        primary_button_style(true, ButtonState::Pressed)
    );
    assert_ne!(
        secondary_button_style(true, ButtonState::Active),
        secondary_button_style(true, ButtonState::Hovered)
    );
    assert_eq!(link_open_modifier(true, false), true);
    assert_eq!(link_open_modifier(false, false), false);
}

#[test]
fn colors_past_the_first_sixteen_are_the_same_everywhere() {
    for scheme in 0..SCHEME_COUNT {
        assert_eq!(palette_color(scheme, 1), active_scheme(scheme).ansi[1]);
        assert_eq!(palette_color(scheme, 16), rgb(0, 0, 0));
        assert_eq!(palette_color(scheme, 67), rgb(95, 135, 175));
        assert_eq!(palette_color(scheme, 196), rgb(255, 0, 0));
        assert_eq!(palette_color(scheme, 231), rgb(255, 255, 255));
        assert_eq!(palette_color(scheme, 232), rgb(8, 8, 8));
        assert_eq!(palette_color(scheme, 255), rgb(238, 238, 238));
    }
}

#[test]
fn schemes_and_fonts_are_found_by_name() {
    for index in 0..SCHEME_COUNT {
        let scheme = active_scheme(index);
        assert_eq!(scheme.ansi.len(), 16);
        assert_eq!(color_scheme_index(scheme.name), index);
        assert_eq!(terminal_background(index), scheme.background);
        assert_eq!(default_foreground(index), scheme.foreground);
        assert_eq!(selection_background(index), scheme.selection);
    }
    assert_eq!(color_scheme_index("no such scheme"), 0);
    // A number that no scheme has stands for the first one.
    for stale in [SCHEME_COUNT, 7, 255] {
        assert_eq!(active_scheme(stale).name, active_scheme(0).name);
        assert_eq!(active_scheme(stale).name, "默认");
        assert_eq!(terminal_background(stale), terminal_background(0));
        assert_eq!(default_foreground(stale), default_foreground(0));
        assert_eq!(selection_background(stale), selection_background(0));
    }
    for index in 0..FONT_COUNT {
        assert_eq!(font_preset_index(font_label(index)), index);
    }
    assert_eq!(font_preset_index("no such font"), 0);
    assert!((0..FONT_COUNT).any(|index| font_family(index).is_some()));
    assert_eq!(step_font_size(13, 1), 14);
    assert_eq!(step_font_size(1000, 1), step_font_size(2000, 1));
}

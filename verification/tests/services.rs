use adit_ui::catalog::Catalog;
use adit_ui::chrome::SettingsCategory;
use adit_ui::connect::{
    active_session_is_dead, connection_plan, ConnectPlan, ConnectionDialog, Connector,
    DialogOutcome, Surface,
};
use adit_ui::editor::{
    advanced_field_count, advanced_section, group_picker, group_picker_for,
    profile_editor_overlay, EditorLine, FormField, GROUP_SUGGESTION_LIMIT,
};
use adit_ui::form::{load_selected_profile, ProfileForm, SecretAction};
use adit_ui::hosts::{MainView, SessionSummary};
use adit_ui::i18n::Language;
use adit_ui::panes::SessionId;
use adit_ui::profile::{
    AuthMethod, ConnectionProfile, Environment, ProfileId, Protocol, TunnelDef, TunnelKind,
};
use adit_ui::settings::{
    copy_settings, current_settings, ordered_names, same_settings, Settings, SettingsKeeper,
};
use adit_ui::startup::{sane_window_size, startup_catalog, tree_ids, with_loaded_state};
use adit_ui::style::{rgb, SessionStatus, ThemeMode};
use adit_ui::sync::{
    build_sync_backend, sync_client_id, sync_client_secret, sync_oauth_config, sync_secret_name,
    Backend, BuiltIn, SyncProvider, SyncSettings,
};
use adit_ui::sync_page::{sync_section, SyncPage, SyncPageState, SyncTab};
use adit_ui::terminal::TerminalSize;
use adit_ui::tunnels::{
    error_text, health_color, saved_tunnel_row, saved_tunnels, tunnel_form_view, tunnel_row,
    tunnels_panel_overlay, TunnelError, TunnelForm, TunnelHealth, TunnelState,
};

fn profile(id: u64, protocol: Protocol, auth_method: AuthMethod) -> ConnectionProfile {
    ConnectionProfile {
        id: ProfileId(id),
        group: String::from("g"),
        name: String::from("a"),
        host: String::from("10.0.0.1"),
        port: 22,
        username: String::from("root"),
        auth_method,
        identity_file: String::new(),
        protocol,
        icon: String::new(),
        startup_command: String::new(),
        jumps: Vec::new(),
        terminal_type: String::new(),
        environment: Environment::Unset,
        accent_color: None,
        label: None,
        sort_order: 0,
        tunnels: Vec::new(),
    }
}

fn connector() -> Connector {
    Connector {
        dialog: None,
        password: String::new(),
        remember: false,
        surface: Surface {
            terminal_focused: false,
            scroll_offset: 3,
            selection: None,
            terminal_menu: true,
            profile_menu: true,
            group_menu: true,
            main_view: MainView::Hosts,
            rdp_target: None,
            rdp_generation: 4,
        },
        recent_hosts: Vec::new(),
        last_error: None,
        notice: String::new(),
    }
}

#[test]
fn a_password_is_asked_for_where_one_is_needed() {
    let password = profile(1, Protocol::Ssh, AuthMethod::Password);
    assert!(matches!(connection_plan(&password, None, None), ConnectPlan::Ask));
    assert!(matches!(
        connection_plan(&password, Some(String::from("pw")), None),
        ConnectPlan::Terminal { password, .. } if password == "pw"
    ));
    let key = profile(1, Protocol::Ssh, AuthMethod::Key);
    assert!(matches!(
        connection_plan(&key, None, Some(String::from("pp"))),
        ConnectPlan::Terminal { passphrase, .. } if passphrase == "pp"
    ));
    let desktop = profile(1, Protocol::Rdp, AuthMethod::Auto);
    assert!(matches!(connection_plan(&desktop, None, None), ConnectPlan::Ask));
    assert!(matches!(
        connection_plan(&desktop, Some(String::from("pw")), None),
        ConnectPlan::Desktop { .. }
    ));
    let mut opener = connector();
    assert!(!opener.connect_or_prompt(Some(&password), false));
    assert!(opener.connect_or_prompt(Some(&password), true));
    assert_eq!(opener.surface.main_view, MainView::Terminal);
    assert!(!opener.connect_or_prompt(None, true));
}

#[test]
fn a_session_that_opened_takes_the_terminal() {
    let mut opener = connector();
    assert!(opener.terminal_opened(Protocol::Ssh, "root@h:22", "SSH", Ok(())));
    assert!(opener.surface.terminal_focused);
    assert_eq!(opener.surface.scroll_offset, 0);
    assert_eq!(opener.notice, "SSH 会话已开始连接: root@h:22");
    let mut failed = connector();
    assert!(!failed.terminal_opened(Protocol::Ssh, "e", "SSH", Err(String::from("no"))));
    assert_eq!(failed.last_error.as_deref(), Some("no"));
    let mut desktop = connector();
    desktop.desktop_opened("h:3389", (1280, 800), Ok(()));
    assert_eq!(desktop.surface.rdp_target, Some((1280, 800)));
    assert_eq!(desktop.surface.rdp_generation, 0);
}

#[test]
fn a_dialog_is_filled_with_what_is_stored() {
    let password = profile(1, Protocol::Ssh, AuthMethod::Password);
    let mut opener = connector();
    let outcome = opener.open_connection_dialog(
        Language::Zh,
        Some(&password),
        Ok(Some(String::from("pw"))),
    );
    assert_eq!(outcome, DialogOutcome::Asked);
    assert_eq!(opener.password, "pw");
    assert!(opener.remember);
    assert_eq!(opener.confirm_connection(Some(Protocol::Ssh)).unwrap().0, ProfileId(1));
    assert!(matches!(opener.sync_connection_password(), SecretAction::Save(pw) if pw == "pw"));
    opener.connection_confirmed(Language::Zh, None, None, Ok(()));
    assert!(opener.dialog.is_none());
    let shell = profile(2, Protocol::LocalShell, AuthMethod::Auto);
    assert_eq!(
        opener.open_connection_dialog(Language::Zh, Some(&shell), Ok(None)),
        DialogOutcome::GoStraight
    );
    assert_eq!(
        opener.open_connection_dialog(Language::Zh, None, Ok(None)),
        DialogOutcome::NoSession
    );
    opener.open_password_reprompt(Language::Zh, Some(&password), "denied");
    assert!(opener.dialog.is_some());
    assert!(!opener.sync_auth_retry());
}

#[test]
fn only_a_dead_session_is_started_again() {
    let summary = |status: SessionStatus| SessionSummary {
        id: SessionId(5),
        profile_id: ProfileId(7),
        title: String::from("t"),
        endpoint: String::from("e"),
        status,
    };
    let mut opener = connector();
    assert_eq!(opener.retry_active_session(Language::Zh, None), None);
    assert_eq!(
        opener.retry_active_session(Language::Zh, Some(&summary(SessionStatus::Error))),
        Some((SessionId(5), ProfileId(7)))
    );
    assert!(active_session_is_dead(Some(SessionStatus::Disconnected)));
    assert!(!active_session_is_dead(Some(SessionStatus::Connected)));
    assert!(!active_session_is_dead(None));
    opener.reconnected("e", Err(String::from("again")));
    assert_eq!(opener.last_error.as_deref(), Some("again"));
    opener.disconnect_active(Language::Zh, Some(Ok(())));
    opener.clear_active_terminal(Language::Zh, Ok(()));
    opener.open_selected_mock_tab(Language::Zh, Err(String::from("mock")));
    assert_eq!(opener.last_error.as_deref(), Some("mock"));
    let dialog = ConnectionDialog {
        profile_id: ProfileId(1),
        title: String::new(),
        endpoint: String::new(),
        auth_method: AuthMethod::Auto,
        identity_file: String::new(),
    };
    opener.dialog = Some(dialog);
    opener.connection_confirmed(Language::Zh, None, None, Err(String::from("refused")));
    assert_eq!(opener.last_error.as_deref(), Some("refused"));
}

fn form(auth_method: AuthMethod, protocol: Protocol) -> ProfileForm {
    load_selected_profile(&profile(1, protocol, auth_method), &Some(String::from("pw")), &None)
}

#[test]
fn secrets_are_hidden_and_one_at_most_is_shown() {
    for method in [AuthMethod::Auto, AuthMethod::Password, AuthMethod::Key, AuthMethod::Agent] {
        let shown = profile_editor_overlay(Language::Zh, &form(method, Protocol::Ssh), true);
        let mut secrets = 0;
        for line in &shown.lines {
            if let EditorLine::Field { which, mode, .. } = line {
                let secret = *which == FormField::Password || *which == FormField::Passphrase;
                assert_eq!(mode.hidden, secret);
                secrets += usize::from(secret);
            }
        }
        assert!(secrets <= 1);
    }
}

#[test]
fn the_advanced_part_counts_what_is_set() {
    let mut filled = form(AuthMethod::Password, Protocol::Ssh);
    assert_eq!(advanced_field_count(&filled, false), 0);
    filled.startup_command = String::from("tmux");
    assert_eq!(advanced_field_count(&filled, false), 1);
    assert!(advanced_section(Language::Zh, &filled, false, false).lines.is_empty());
    assert!(!advanced_section(Language::Zh, &filled, false, true).lines.is_empty());
    assert!(advanced_section(Language::Zh, &filled, false, false).badge.is_some());
}

#[test]
fn folders_are_suggested_as_they_are_typed() {
    let groups: Vec<String> = (0..20).map(|n| format!("Team-{n}")).collect();
    let all = group_picker(Language::Zh, "", &groups, &vec![]);
    assert!(all.chips.len() <= GROUP_SUGGESTION_LIMIT + 1);
    assert!(all.more.is_some());
    let few = group_picker(Language::Zh, "team-1", &groups, &vec![]);
    assert!(few.chips.iter().any(|chip| chip.group == "Team-1"));
    assert!(few.creates.is_some());
    let lowered = group_picker_for(Language::Zh, "ÄB", &vec![String::from("äb")], &vec![], "äb");
    assert!(lowered.chips.iter().any(|chip| chip.group == "äb"));
    // The letters of every alphabet are lowered before they are looked for.
    let folded = group_picker(Language::Zh, "ÄB", &vec![String::from("äbc")], &vec![]);
    assert!(folded.chips.iter().any(|chip| chip.group == "äbc"));
}

#[test]
fn a_folder_chip_carries_the_icon_of_its_folder() {
    let groups = vec![String::from("prod"), String::from("lab"), String::from("misc")];
    let icons = vec![
        (String::from("prod"), String::from("debian")),
        (String::from("lab"), String::from("no such icon")),
        (String::from(""), String::from("debian")),
    ];
    let all = group_picker(Language::Zh, "", &groups, &icons);
    let icon = |name: &str| all.chips.iter().find(|chip| chip.group == name).and_then(|chip| chip.icon);
    assert_eq!(icon("prod"), Some(("\u{25c8}", rgb(215, 10, 83))));
    assert_eq!(icon("lab"), None);
    assert_eq!(icon("misc"), None);
    // The chip of no folder has none, whatever is kept for the empty name.
    assert_eq!(icon(""), None);
    let chosen = group_picker(Language::Zh, "prod", &groups, &icons);
    let chip = chosen.chips.iter().find(|chip| chip.group == "prod").unwrap();
    assert!(chip.selected);
    assert_eq!(chip.icon, Some(("\u{25c8}", rgb(255, 255, 255))));
}

#[test]
fn the_direct_route_remembers_every_kind_of_host() {
    for (id, protocol) in [(7, Protocol::Rdp), (8, Protocol::LocalShell), (9, Protocol::Serial)] {
        let host = profile(id, protocol, AuthMethod::Auto);
        let mut opener = connector();
        opener.recent_hosts = vec![ProfileId(1)];
        let plan = opener.connect_profile(
            Language::Zh,
            Some(ProfileId(id)),
            Some(&host),
            Some(String::from("pw")),
            None,
        );
        assert!(plan.is_some());
        assert_eq!(opener.recent_hosts, vec![ProfileId(id), ProfileId(1)]);
        assert!(opener.last_error.is_none());
    }
    let mut opener = connector();
    assert!(opener.connect_profile(Language::Zh, None, None, None, None).is_none());
    assert!(opener.recent_hosts.is_empty() && opener.last_error.is_none());
    let gone = opener.connect_profile(Language::Zh, Some(ProfileId(3)), None, None, None);
    assert!(gone.is_none());
    assert_eq!(opener.last_error.as_deref(), Some("请选择要连接的会话配置"));
}

fn tunnel(kind: TunnelKind, bind: &str, host: &str, target: &str) -> TunnelForm {
    TunnelForm {
        kind,
        bind_addr: String::from(" "),
        bind_port: String::from(bind),
        target_host: String::from(host),
        target_port: String::from(target),
        save: true,
    }
}

#[test]
fn a_tunnel_form_says_what_is_wrong_with_it() {
    let local = TunnelKind::Local;
    assert!(matches!(
        tunnel(local, "x", "h", "1").request(),
        Err(TunnelError::BadBindPort)
    ));
    assert!(matches!(tunnel(local, "1", " ", "1").request(), Err(TunnelError::NoTargetHost)));
    assert!(matches!(tunnel(local, "1", "h", "0").request(), Err(TunnelError::BadTargetPort)));
    let def = tunnel(local, "8080", " h ", "80").request().ok().unwrap();
    assert_eq!(def.bind_address, "127.0.0.1");
    assert_eq!((def.bind_port, def.target_host.as_str(), def.target_port), (8080, "h", 80));
    let socks = tunnel(TunnelKind::Dynamic, "1080", "", "").request().ok().unwrap();
    assert_eq!((socks.target_host.as_str(), socks.target_port), ("", 0));
    for error in [TunnelError::BadBindPort, TunnelError::NoTargetHost, TunnelError::BadTargetPort]
    {
        assert!(!error_text(Language::Zh, error).is_empty());
    }
}

#[test]
fn a_tunnel_that_opened_clears_the_form() {
    let mut asked = tunnel(TunnelKind::Local, "8080", "h", "80");
    let failed = asked.add_tunnel(Language::Zh, Err(String::from("busy")), true);
    assert_eq!(failed.error.as_deref(), Some("端口转发失败: busy"));
    assert_eq!(asked.bind_port, "8080");
    let opened = asked.add_tunnel(Language::Zh, Ok(()), true);
    assert!(opened.keep && opened.error.is_none());
    assert!(asked.bind_port.is_empty() && asked.target_host.is_empty());
}

#[test]
fn tunnels_are_listed() {
    let state = |listening: bool, error: Option<&str>| TunnelState {
        id: 1,
        kind: TunnelKind::Local,
        bind: String::from("127.0.0.1:1"),
        target: String::from("h:2"),
        status: String::from("s"),
        active: 3,
        listening,
        error: error.map(String::from),
    };
    assert_eq!(tunnel_row(Language::Zh, &state(true, None)).health, TunnelHealth::Listening);
    assert_eq!(tunnel_row(Language::Zh, &state(false, None)).health, TunnelHealth::Waiting);
    assert_eq!(tunnel_row(Language::Zh, &state(true, Some("e"))).health, TunnelHealth::Failed);
    let def = TunnelDef {
        kind: TunnelKind::Remote,
        bind_address: String::from("0.0.0.0"),
        bind_port: 80,
        target_host: String::from("h"),
        target_port: 8080,
    };
    assert!(saved_tunnel_row(&def).contains("h:8080"));
    assert_eq!(tunnel_row(Language::Zh, &state(true, None)).status, "s");
    assert_eq!(tunnel_row(Language::Zh, &state(true, None)).id, 1);
    assert_eq!(health_color(false, TunnelHealth::Listening), rgb(34, 197, 94));
    assert_ne!(health_color(false, TunnelHealth::Failed), health_color(false, TunnelHealth::Waiting));
    let socks = tunnel(TunnelKind::Dynamic, "1080", "", "");
    assert!(tunnel_form_view(&socks).target.is_none());
    let local = tunnel(TunnelKind::Local, "80", "h", "81");
    let form = tunnel_form_view(&local);
    assert_eq!((form.bind_port.as_str(), form.keep), ("80", local.save));
    let target = form.target.unwrap();
    assert_eq!((target.label, target.host.as_str(), target.port.as_str()), ("目标", "h", "81"));
    let empty = tunnels_panel_overlay(Language::Zh, &local, None, &Vec::new(), &Vec::new());
    assert!(empty.saved_empty.is_some() && empty.running_empty.is_some());
    assert!(empty.endpoint.is_empty());
    assert_eq!(empty.kinds.iter().filter(|kind| kind.selected).count(), 1);
    // The saved ones are those of the session that is active.
    let mut kept = profile(7, Protocol::Ssh, AuthMethod::Auto);
    kept.tunnels = vec![def];
    let profiles = vec![profile(6, Protocol::Ssh, AuthMethod::Auto), kept];
    let mut active = SessionSummary {
        id: SessionId(1),
        profile_id: ProfileId(7),
        title: String::from("t"),
        endpoint: String::from("root@h:22"),
        status: SessionStatus::Connected,
    };
    assert_eq!(saved_tunnels(Some(&active), &profiles), Some(1));
    let running = vec![state(true, None)];
    let shown = tunnels_panel_overlay(Language::Zh, &local, Some(&active), &profiles, &running);
    assert_eq!(shown.endpoint, "root@h:22");
    assert_eq!(shown.saved, vec![String::from("R  远端 0.0.0.0:80 → 本地 h:8080")]);
    assert_eq!((shown.running[0].id, shown.running[0].status.as_str()), (1, "s"));
    active.profile_id = ProfileId(6);
    let other = tunnels_panel_overlay(Language::Zh, &local, Some(&active), &profiles, &running);
    assert!(other.saved.is_empty() && other.saved_empty.is_some());
    active.profile_id = ProfileId(9);
    assert_eq!(saved_tunnels(Some(&active), &profiles), None);
}

fn sync(provider: SyncProvider) -> SyncSettings {
    let mut settings = Settings::default().sync;
    settings.provider = provider;
    settings.webdav_url = String::from("https://dav");
    settings.webdav_username = String::from("me");
    settings.s3_bucket = String::from("b");
    settings.s3_endpoint = String::from("https://s3");
    settings.s3_access_key = String::from("ak");
    settings
}

fn built_in() -> BuiltIn {
    BuiltIn {
        github_id: String::from("gh"),
        google_id: String::from("gid"),
        google_secret: String::from("gsec"),
        onedrive_id: String::from("oid"),
        onedrive_secret: String::new(),
        dropbox_id: String::from("did"),
        dropbox_secret: String::new(),
    }
}

#[test]
fn each_service_has_a_secret_of_its_own() {
    let all = [
        SyncProvider::Gist,
        SyncProvider::WebDav,
        SyncProvider::S3,
        SyncProvider::GoogleDrive,
        SyncProvider::OneDrive,
        SyncProvider::Dropbox,
    ];
    for a in all {
        for b in all {
            assert_eq!(sync_secret_name(a) == sync_secret_name(b), a == b);
        }
    }
    assert_eq!(sync_secret_name(SyncProvider::Off), None);
}

#[test]
fn a_service_is_built_from_its_settings() {
    let secret = || String::from("s3cr3t");
    assert!(build_sync_backend(&sync(SyncProvider::Off), &built_in(), secret()).is_none());
    assert!(matches!(
        build_sync_backend(&sync(SyncProvider::WebDav), &built_in(), secret()),
        Some(Backend::WebDav { url, username, password })
            if url == "https://dav" && username == "me" && password == "s3cr3t"
    ));
    assert!(matches!(
        build_sync_backend(&sync(SyncProvider::GoogleDrive), &built_in(), secret()),
        Some(Backend::GoogleDrive { client_id, .. }) if client_id == "gid"
    ));
    assert!(build_sync_backend(&sync(SyncProvider::Dropbox), &built_in(), String::new()).is_none());
    let mut typed = sync(SyncProvider::GoogleDrive);
    typed.google_client_id = String::from(" own ");
    assert_eq!(sync_client_id(&typed, &built_in(), SyncProvider::GoogleDrive), "own");
    assert_eq!(sync_client_secret(&typed, &built_in(), SyncProvider::GoogleDrive), "gsec");
    let request = sync_oauth_config(&typed, &built_in(), SyncProvider::GoogleDrive).unwrap();
    assert_eq!(request.client_secret.as_deref(), Some("gsec"));
    assert!(sync_oauth_config(&typed, &built_in(), SyncProvider::WebDav).is_none());
    assert!(SyncProvider::Gist.is_oauth() || SyncProvider::Dropbox.is_oauth());
}

#[test]
fn one_service_is_in_use() {
    let state = SyncPageState {
        tab: SyncTab::Services,
        secret_saved: false,
        connecting: false,
        device_prompt: None,
        busy: false,
        status: String::new(),
        conflicts: Vec::new(),
    };
    match sync_section(Language::Zh, &sync(SyncProvider::WebDav), &built_in(), &state) {
        SyncPage::Services { cards, .. } => {
            assert_eq!(cards.iter().filter(|card| card.selected).count(), 1);
            assert!(cards.iter().any(|card| card.label == SyncProvider::WebDav.label()));
        }
        SyncPage::Status(_) => panic!("the services were asked for"),
    }
}

#[test]
fn settings_are_written_when_they_changed() {
    let kept = Settings::default();
    let live = current_settings(&kept, ThemeMode::Dark);
    assert_eq!(live.theme_mode, Some(ThemeMode::Dark));
    let mut keeper = SettingsKeeper { persisted: copy_settings(&live), last_error: None };
    assert!(same_settings(&keeper.persisted, &live));
    assert!(!keeper.persist_settings_if_changed(&live));
    let mut changed = copy_settings(&live);
    changed.collapsed_groups.push(String::from("g"));
    assert!(keeper.persist_settings_if_changed(&changed));
    keeper.settings_written(Language::Zh, copy_settings(&changed), Err(String::from("full")));
    assert!(keeper.last_error.is_some());
    keeper.settings_written(Language::Zh, copy_settings(&changed), Ok(()));
    assert!(!keeper.persist_settings_if_changed(&changed));
    assert_eq!(
        ordered_names(&vec![String::from("b"), String::from("a"), String::from("c")]),
        ["a", "b", "c"]
    );
}

fn start(profiles: Vec<ConnectionProfile>) -> adit_ui::startup::AditApp {
    with_loaded_state(
        Catalog { profiles, groups: Vec::new() },
        &Settings::default(),
        true,
        &Some(String::from("pw")),
        &None,
        TerminalSize::new(80, 24),
        String::from("loaded"),
        None,
    )
}

#[test]
fn a_start_selects_the_first_session() {
    let app = start(vec![profile(4, Protocol::Ssh, AuthMethod::Password)]);
    assert_eq!(app.book.selected_profile, Some(ProfileId(4)));
    assert_eq!(app.book.form.password, "pw");
    assert_eq!(app.book.catalog.groups, ["g"]);
    assert_eq!(app.settings.grid_order, vec![ProfileId(4)]);
    assert_eq!(app.connector.notice, "loaded");
    assert_eq!(app.flags.settings_category, SettingsCategory::App);
    assert!(!app.fullscreen);
    assert!(start(Vec::new()).book.selected_profile.is_none());
}

#[test]
fn a_catalogue_that_cannot_be_read_gives_way_to_the_demonstration() {
    let failed = startup_catalog(Err(String::from("denied")), "/p");
    assert!(failed.catalog.is_none());
    assert_eq!(failed.error.as_deref(), Some("读取会话配置失败: denied"));
    let empty = startup_catalog(Ok((Vec::new(), Vec::new())), "/p");
    assert!(empty.catalog.is_none() && empty.error.is_none());
    let folders = startup_catalog(Ok((vec![String::from("x")], Vec::new())), "/p");
    assert_eq!(folders.notice, "已加载空分组配置: /p");
    let full = startup_catalog(
        Ok((Vec::new(), vec![profile(1, Protocol::Ssh, AuthMethod::Auto)])),
        "/p",
    );
    assert_eq!(full.catalog.unwrap().groups, ["g"]);
    assert_eq!(full.notice, "已加载 1 个会话配置和分组: /p");
    assert_eq!(tree_ids(&vec![profile(1, Protocol::Ssh, AuthMethod::Auto)]), vec![ProfileId(1)]);
}

#[test]
fn a_window_is_never_too_small() {
    let (width, height) = sane_window_size(1, 1);
    assert!(width > 1 && height > 1);
    assert_eq!(sane_window_size(width, height), (width, height));
}

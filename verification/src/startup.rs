//! The start: which sessions are there, and the state of the window from which
//! everything else goes on.

use vstd::prelude::*;
use vstd::string::*;

use crate::actions::SessionBook;
use crate::catalog::{Catalog, InlineRename};
use crate::chrome::{Flags, OpenPanels, SettingsCategory};
use crate::command::CommandWindow;
use crate::connect::{Connector, Surface};
use crate::dialogs::{AuthPrompt, UpdateState};
use crate::form::{filled_from, load_selected_profile, ProfileForm};
use crate::grid::{copy_ids, ProfileDrag};
use crate::groups::{add_group, added, collected, group_names, groups_from_catalog};
use crate::hosts::{HostLayout, MainView};
use crate::i18n::Language;
use crate::layout::clamped;
use crate::panes::{Panes, TileMode};
use crate::profile::{
    ids, in_range, picked, tree_order, tree_sorted, AuthMethod, ConnectionProfile, Environment,
    ProfileId, Protocol, TunnelKind,
};
use crate::search::Search;
use crate::settings::{
    copy_settings, habits_view, in_order, ordered_names, settings_view, terminal_view,
    window_view, Settings, SettingsKeeper, SharedClipboard, TerminalPart, WindowView,
};
use crate::sftp::SftpSortKey;
use crate::sftp_panel::SftpPanel;
use crate::shared::in_step;
use crate::style::{initial_mode, resolve_dark, ThemeMode};
use crate::sync::{SyncProvider, SyncSettings};
use crate::terminal::TerminalSize;
use crate::text::{decimal, decimal_of, owned, texts};
use crate::tunnels::TunnelForm;
use crate::viewport::TerminalView;

verus! {

// Sizes of the window.

/// A window is never smaller than this, in hundredths of a pixel.
pub const MIN_WINDOW_DIM: i64 = 32_000;

/// The size of a window of which none sensible is known.
pub const DEFAULT_WINDOW_WIDTH: i64 = 136_000;

pub const DEFAULT_WINDOW_HEIGHT: i64 = 86_000;

pub const SIDEBAR_MIN_WIDTH: i64 = 22_000;

pub const SIDEBAR_MAX_WIDTH: i64 = 64_000;

/// The range of the font size, in hundredths of a pixel.
pub const FONT_SIZE_MIN: i64 = 900;

pub const FONT_SIZE_MAX: i64 = 2_800;

/// The size of the window: the one that was kept, or the default where that is too
/// small to be seen, as one is that was kept while the window was minimised.
pub fn sane_window_size(width: i64, height: i64) -> (r: (i64, i64))
    ensures
        r == if width >= MIN_WINDOW_DIM && height >= MIN_WINDOW_DIM {
            (width, height)
        } else {
            (DEFAULT_WINDOW_WIDTH, DEFAULT_WINDOW_HEIGHT)
        },
        r.0 >= MIN_WINDOW_DIM,
        r.1 >= MIN_WINDOW_DIM,
{
    if width >= MIN_WINDOW_DIM && height >= MIN_WINDOW_DIM {
        (width, height)
    } else {
        (DEFAULT_WINDOW_WIDTH, DEFAULT_WINDOW_HEIGHT)
    }
}

fn clamp(n: i64, low: i64, high: i64) -> (r: i64)
    requires
        low <= high,
    ensures
        r == clamped(n as int, low as int, high as int),
{
    if n < low {
        low
    } else if n > high {
        high
    } else {
        n
    }
}

// The sessions.

/// What the start makes of the catalogue that was read.
pub struct LoadedCatalog {
    /// The sessions and folders; without them the demonstration is used.
    pub catalog: Option<Catalog>,
    pub notice: String,
    pub error: Option<String>,
}

/// What the start says of the catalogue.
pub open spec fn load_notice(sessions: nat, folders: nat, failed: bool, path: Seq<char>) -> Seq<char> {
    if failed || (sessions == 0 && folders == 0) {
        "使用演示会话配置，保存后写入 "@ + path
    } else if sessions > 0 {
        "已加载 "@ + decimal(sessions) + " 个会话配置和分组: "@ + path
    } else {
        "已加载空分组配置: "@ + path
    }
}

/// What the start makes of the catalogue that was read from a path, or of the reason
/// why it could not be: a catalogue with sessions, or with folders alone, is used; an
/// empty one, and one that could not be read, give way to the demonstration.
pub fn startup_catalog(
    loaded: Result<(Vec<String>, Vec<ConnectionProfile>), String>,
    path: &str,
) -> (r: LoadedCatalog)
    ensures
        match loaded {
            Ok((groups, profiles)) => {
                &&& r.error is None
                &&& r.catalog is Some == (profiles@.len() > 0 || groups@.len() > 0)
                &&& r.catalog matches Some(catalog) ==> catalog.profiles == profiles && texts(
                    catalog.groups@,
                ) == collected(texts(groups@) + group_names(profiles@))
                &&& r.notice@ == load_notice(profiles@.len(), groups@.len(), false, path@)
            },
            Err(error) => {
                &&& r.catalog is None
                &&& r.error is Some
                &&& r.error->0@ == "读取会话配置失败: "@ + error@
                &&& r.notice@ == load_notice(0, 0, true, path@)
            },
        },
{
    match loaded {
        Ok((groups, profiles)) => {
            let count: usize = profiles.len();
            let folders: usize = groups.len();
            if count == 0 && folders == 0 {
                let mut notice: String = owned("使用演示会话配置，保存后写入 ");
                notice.append(path);
                return LoadedCatalog { catalog: None, notice, error: None };
            }
            let mut notice: String = if count > 0 {
                let mut text: String = owned("已加载 ");
                text.append(decimal_of(count as u64).as_str());
                text.append(" 个会话配置和分组: ");
                text
            } else {
                owned("已加载空分组配置: ")
            };
            notice.append(path);
            let all: Vec<String> = groups_from_catalog(groups, &profiles);
            LoadedCatalog { catalog: Some(Catalog { profiles, groups: all }), notice, error: None }
        },
        Err(error) => {
            let mut notice: String = owned("使用演示会话配置，保存后写入 ");
            notice.append(path);
            let mut text: String = owned("读取会话配置失败: ");
            text.append(error.as_str());
            LoadedCatalog { catalog: None, notice, error: Some(text) }
        },
    }
}

// The settings.

/// The identities of sessions in the order of the tree.
pub fn tree_ids(profiles: &Vec<ConnectionProfile>) -> (r: Vec<ProfileId>)
    ensures
        r@ == ids(tree_sorted(profiles@)),
{
    let at: Vec<usize> = tree_order(profiles);
    let mut out: Vec<ProfileId> = Vec::new();
    let mut i: usize = 0;
    while i < at.len()
        invariant
            i <= at.len(),
            in_range(at@, profiles@.len() as int),
            out.len() == i,
            forall|j: int| 0 <= j < i ==> out@[j] == (#[trigger] picked(profiles@, at@)[j]).id,
        decreases at.len() - i,
    {
        out.push(profiles[at[i]].id);
        i += 1;
    }
    assert(out@ =~= ids(picked(profiles@, at@)));
    out
}

/// The mode that the window starts in.
pub open spec fn start_mode(kept: &Settings) -> ThemeMode {
    match kept.theme_mode {
        Some(mode) => mode,
        None => if kept.dark_mode {
            ThemeMode::Dark
        } else {
            ThemeMode::Light
        },
    }
}

/// Whether the window starts dark.
pub open spec fn starts_dark(kept: &Settings, system_is_light: bool) -> bool {
    match start_mode(kept) {
        ThemeMode::Light => false,
        ThemeMode::Dark => true,
        ThemeMode::System => !system_is_light,
    }
}

/// The arrangement of the grid at the start. The first time it is that of the tree,
/// so that the two begin alike and never move together again.
pub open spec fn start_grid(kept: &Settings, profiles: Seq<ConnectionProfile>) -> Seq<ProfileId> {
    if kept.grid_order@.len() == 0 {
        ids(tree_sorted(profiles))
    } else {
        kept.grid_order@
    }
}

/// Whether these are the settings that are on at the start: those that were kept,
/// with what is out of range brought into it. The folded folders stand in order.
pub open spec fn started_with(
    live: &Settings,
    kept: &Settings,
    profiles: Seq<ConnectionProfile>,
    system_is_light: bool,
) -> bool {
    &&& in_order(texts(live.collapsed_groups@), texts(kept.collapsed_groups@))
    &&& window_view(live) == start_window(
        kept,
        profiles,
        system_is_light,
        texts(live.collapsed_groups@),
    )
    &&& terminal_view(live) == (TerminalPart {
        sidebar_width: clamped(
            kept.sidebar_width as int,
            SIDEBAR_MIN_WIDTH as int,
            SIDEBAR_MAX_WIDTH as int,
        ) as i64,
        font_size: clamped(
            kept.font_size as int,
            FONT_SIZE_MIN as int,
            FONT_SIZE_MAX as int,
        ) as i64,
        ..terminal_view(kept)
    })
    &&& habits_view(live) == habits_view(kept)
}

/// Whether these are the settings that count as written at the start: those that are
/// on, but for the sizes, which are those that were kept, so that a bad one is written
/// over once.
pub open spec fn counts_as_written(written: &Settings, live: &Settings, kept: &Settings) -> bool {
    &&& window_view(written) == (WindowView {
        window_width: kept.window_width,
        window_height: kept.window_height,
        ..window_view(live)
    })
    &&& terminal_view(written) == (TerminalPart {
        sidebar_width: kept.sidebar_width,
        ..terminal_view(live)
    })
    &&& habits_view(written) == habits_view(live)
}

/// What the start makes of the part of the settings that is about the window.
pub open spec fn start_window(
    kept: &Settings,
    profiles: Seq<ConnectionProfile>,
    system_is_light: bool,
    folded: Seq<Seq<char>>,
) -> WindowView {
    let sane = kept.window_width >= MIN_WINDOW_DIM && kept.window_height >= MIN_WINDOW_DIM;
    WindowView {
        dark_mode: starts_dark(kept, system_is_light),
        theme_mode: Some(start_mode(kept)),
        grid_order: start_grid(kept, profiles),
        collapsed_groups: folded,
        window_width: if sane {
            kept.window_width
        } else {
            DEFAULT_WINDOW_WIDTH
        },
        window_height: if sane {
            kept.window_height
        } else {
            DEFAULT_WINDOW_HEIGHT
        },
        ..window_view(kept)
    }
}

spec fn window_started(
    live: &Settings,
    kept: &Settings,
    profiles: Seq<ConnectionProfile>,
    system_is_light: bool,
) -> bool {
    &&& window_view(live) == start_window(
        kept,
        profiles,
        system_is_light,
        texts(live.collapsed_groups@),
    )
    &&& terminal_view(live) == terminal_view(kept)
    &&& habits_view(live) == habits_view(kept)
}

fn window_settings(kept: &Settings, profiles: &Vec<ConnectionProfile>, system_is_light: bool) -> (r:
    Settings)
    ensures
        in_order(texts(r.collapsed_groups@), texts(kept.collapsed_groups@)),
        window_started(&r, kept, profiles@, system_is_light),
{
    let mode: ThemeMode = initial_mode(kept.theme_mode, kept.dark_mode);
    let grid: Vec<ProfileId> = if kept.grid_order.len() == 0 {
        tree_ids(profiles)
    } else {
        copy_ids(&kept.grid_order)
    };
    let size: (i64, i64) = sane_window_size(kept.window_width, kept.window_height);
    let folded: Vec<String> = ordered_names(&kept.collapsed_groups);
    Settings {
        theme_mode: Some(mode),
        dark_mode: resolve_dark(mode, system_is_light),
        grid_order: grid,
        window_width: size.0,
        window_height: size.1,
        collapsed_groups: folded,
        ..copy_settings(kept)
    }
}

fn live_settings(kept: &Settings, profiles: &Vec<ConnectionProfile>, system_is_light: bool) -> (r:
    Settings)
    ensures
        started_with(&r, kept, profiles@, system_is_light),
{
    let mut live: Settings = window_settings(kept, profiles, system_is_light);
    live.sidebar_width = clamp(kept.sidebar_width, SIDEBAR_MIN_WIDTH, SIDEBAR_MAX_WIDTH);
    live.font_size = clamp(kept.font_size, FONT_SIZE_MIN, FONT_SIZE_MAX);
    live
}

fn written_settings(live: &Settings, kept: &Settings) -> (r: Settings)
    ensures
        counts_as_written(&r, live, kept),
{
    let mut written: Settings = copy_settings(live);
    written.window_width = kept.window_width;
    written.window_height = kept.window_height;
    written.sidebar_width = kept.sidebar_width;
    written
}

/// Whether no service is set up.
pub open spec fn blank_sync(s: &SyncSettings) -> bool {
    &&& s.provider == SyncProvider::Off
    &&& s.gist_id@.len() == 0
    &&& s.github_client_id@.len() == 0
    &&& s.webdav_url@.len() == 0
    &&& s.webdav_username@.len() == 0
    &&& s.s3_endpoint@.len() == 0
    &&& s.s3_region@.len() == 0
    &&& s.s3_bucket@.len() == 0
    &&& s.s3_key@.len() == 0
    &&& s.s3_access_key@.len() == 0
    &&& !s.s3_path_style
    &&& s.google_client_id@.len() == 0
    &&& s.google_client_secret@.len() == 0
    &&& s.onedrive_client_id@.len() == 0
    &&& s.dropbox_client_id@.len() == 0
    &&& !s.include_credentials
}

impl Default for Settings {
    /// The settings before any were kept.
    fn default() -> (r: Settings)
        ensures
            r.language == Language::Zh,
            blank_sync(&r.sync),
            !r.dark_mode,
            r.theme_mode is None,
            r.host_layout == HostLayout::Grid,
            r.recent_hosts@.len() == 0,
            r.grid_order@.len() == 0,
            r.collapsed_groups@.len() == 0,
            r.window_width == DEFAULT_WINDOW_WIDTH,
            r.window_height == DEFAULT_WINDOW_HEIGHT,
            !r.auto_reconnect,
            r.sidebar_width == SIDEBAR_MIN_WIDTH,
            r.sidebar_visible,
            r.font_family@.len() == 0,
            r.font_size == 1_300,
            r.color_scheme@.len() == 0,
            r.highlight_rules@.len() == 0,
            r.log_dir@.len() == 0,
            r.log_name_pattern@.len() == 0,
            !r.auto_log_on_connect,
            !r.log_plaintext,
            !r.copy_on_select,
            !r.right_click_paste,
            !r.confirm_multiline_paste,
            r.connect_timeout_secs == 20,
            r.scrollback_lines == 5_000,
            r.snippets@.len() == 0,
            !r.auto_check_updates,
            !r.command_window_open,
            !r.command_send_immediately,
            !r.auto_accept_host_keys,
            r.rdp_clipboard,
            !r.keyring_migrated,
    {
        Settings {
            language: Language::Zh,
            sync: SyncSettings {
                provider: SyncProvider::Off,
                gist_id: String::new(),
                github_client_id: String::new(),
                webdav_url: String::new(),
                webdav_username: String::new(),
                s3_endpoint: String::new(),
                s3_region: String::new(),
                s3_bucket: String::new(),
                s3_key: String::new(),
                s3_access_key: String::new(),
                s3_path_style: false,
                google_client_id: String::new(),
                google_client_secret: String::new(),
                onedrive_client_id: String::new(),
                dropbox_client_id: String::new(),
                include_credentials: false,
            },
            dark_mode: false,
            theme_mode: None,
            host_layout: HostLayout::Grid,
            recent_hosts: Vec::new(),
            grid_order: Vec::new(),
            collapsed_groups: Vec::new(),
            window_width: DEFAULT_WINDOW_WIDTH,
            window_height: DEFAULT_WINDOW_HEIGHT,
            auto_reconnect: false,
            sidebar_width: SIDEBAR_MIN_WIDTH,
            sidebar_visible: true,
            font_family: String::new(),
            font_size: 1_300,
            color_scheme: String::new(),
            highlight_rules: Vec::new(),
            log_dir: String::new(),
            log_name_pattern: String::new(),
            auto_log_on_connect: false,
            log_plaintext: false,
            copy_on_select: false,
            right_click_paste: false,
            confirm_multiline_paste: false,
            connect_timeout_secs: 20,
            scrollback_lines: 5_000,
            snippets: Vec::new(),
            auto_check_updates: false,
            command_window_open: false,
            command_send_immediately: false,
            auto_accept_host_keys: false,
            rdp_clipboard: true,
            keyring_migrated: false,
        }
    }
}

// The window.

/// The state of the window.
pub struct AditApp {
    pub book: SessionBook,
    /// The settings that are on.
    pub settings: Settings,
    /// The settings as they were written last.
    pub keeper: SettingsKeeper,
    pub flags: Flags,
    pub panels: OpenPanels,
    pub connector: Connector,
    pub terminal: TerminalView,
    pub search: Search,
    pub command: CommandWindow,
    pub panes: Panes,
    pub sftp: SftpPanel,
    pub tunnels: TunnelForm,
    pub drag: ProfileDrag,
    pub auth: AuthPrompt,
    pub update: UpdateState,
    pub clipboard: SharedClipboard,
    pub fullscreen: bool,
}

/// The form before a session is selected.
pub open spec fn is_blank_form(form: &ProfileForm) -> bool {
    &&& form.group@.len() == 0
    &&& form.name@.len() == 0
    &&& form.host@.len() == 0
    &&& form.port@ == "22"@
    &&& form.username@.len() == 0
    &&& form.auth_method == AuthMethod::Auto
    &&& form.identity_file@.len() == 0
    &&& form.protocol == Protocol::Ssh
    &&& form.icon@.len() == 0
    &&& form.startup_command@.len() == 0
    &&& form.jumps@.len() == 0
    &&& form.terminal_type@.len() == 0
    &&& form.environment == Environment::Unset
    &&& form.accent_color@.len() == 0
    &&& form.label@.len() == 0
    &&& form.password@.len() == 0
    &&& form.passphrase@.len() == 0
}

fn blank_form() -> (r: ProfileForm)
    ensures
        is_blank_form(&r),
{
    ProfileForm {
        group: String::new(),
        name: String::new(),
        host: String::new(),
        port: owned("22"),
        username: String::new(),
        auth_method: AuthMethod::Auto,
        identity_file: String::new(),
        protocol: Protocol::Ssh,
        icon: String::new(),
        startup_command: String::new(),
        jumps: String::new(),
        terminal_type: String::new(),
        environment: Environment::Unset,
        accent_color: String::new(),
        label: String::new(),
        password: String::new(),
        passphrase: String::new(),
    }
}

/// No panel is open.
pub open spec fn nothing_open(p: &OpenPanels) -> bool {
    crate::chrome::layers_of(*p) =~= Seq::empty()
}

fn closed_panels() -> (r: OpenPanels)
    ensures
        nothing_open(&r),
        r.profile_context_menu is None && r.group_context_menu is None,
        !r.terminal_context_menu && !r.tunnels_open && !r.about_open,
        !r.snippets_open && !r.options_open && !r.known_hosts_open,
{
    let panels: OpenPanels = OpenPanels {
        active_menu: None,
        profile_context_menu: None,
        tab_context_menu: None,
        group_context_menu: None,
        terminal_context_menu: false,
        profile_editor: false,
        connection_dialog: false,
        pending_host_key: None,
        auth_prompt: None,
        pending_hyperlink: false,
        sftp_open: false,
        sftp_context_menu: false,
        tunnels_open: false,
        about_open: false,
        update_dialog_open: false,
        paste_confirm_open: false,
        renaming_session: false,
        snippets_open: false,
        appearance_open: false,
        options_open: false,
        known_hosts_open: false,
    };
    panels
}

/// Whether this is the panel for files before it was ever opened: nothing chosen, nothing
/// dragged, and both lists by name.
pub open spec fn is_empty_panel(panel: &SftpPanel) -> bool {
    &&& panel.local_selected@.len() == 0
    &&& panel.remote_selected@.len() == 0
    &&& panel.drag is None
    &&& panel.drag_over is None
    &&& panel.local_path_edit@.len() == 0
    &&& panel.remote_path_edit@.len() == 0
    &&& panel.local_seen@.len() == 0
    &&& panel.remote_seen@.len() == 0
    &&& panel.context_menu is None
    &&& panel.local_sort == (SftpSortKey::Name, true)
    &&& panel.remote_sort == (SftpSortKey::Name, true)
}

fn empty_panel() -> (r: SftpPanel)
    ensures
        is_empty_panel(&r),
{
    SftpPanel {
        local_selected: Vec::new(),
        remote_selected: Vec::new(),
        drag: None,
        drag_over: None,
        local_path_edit: String::new(),
        remote_path_edit: String::new(),
        local_seen: String::new(),
        remote_seen: String::new(),
        context_menu: None,
        local_sort: (SftpSortKey::Name, true),
        remote_sort: (SftpSortKey::Name, true),
    }
}

/// The window at the start: the first session is selected and in the form, nothing
/// is open, nothing is dragged, and the host list is shown, since without a session
/// there is no terminal to show. It never starts in fullscreen.
///
/// `size` is the terminal that fits the window; `password` and `passphrase` are what is
/// stored for the first session.
pub fn with_loaded_state(
    catalog: Catalog,
    kept: &Settings,
    system_is_light: bool,
    password: &Option<String>,
    passphrase: &Option<String>,
    size: TerminalSize,
    notice: String,
    error: Option<String>,
) -> (r: AditApp)
    ensures
        r.book.catalog.profiles == catalog.profiles,
        started_with(&r.settings, kept, catalog.profiles@, system_is_light),
        counts_as_written(&r.keeper.persisted, &r.settings, kept),
        if catalog.profiles@.len() == 0 {
            &&& r.book.selected_profile is None
            &&& is_blank_form(&r.book.form)
            &&& texts(r.book.catalog.groups@) == texts(catalog.groups@)
        } else {
            &&& r.book.selected_profile == Some(catalog.profiles@[0].id)
            &&& filled_from(&r.book.form, &catalog.profiles@[0], *password, *passphrase)
            &&& texts(r.book.catalog.groups@) == added(
                texts(catalog.groups@),
                catalog.profiles@[0].group@,
            )
        },
        r.book.rename.editing_profile is None,
        r.book.rename.editing_group is None,
        r.book.rename.profile_draft@.len() == 0,
        r.book.rename.group_draft@.len() == 0,
        nothing_open(&r.panels),
        in_step(&r.flags, &r.panels, &r.connector.surface, &r.terminal),
        r.connector.cleared(),
        r.connector.surface == (Surface {
            terminal_focused: false,
            scroll_offset: 0,
            selection: None,
            terminal_menu: false,
            profile_menu: false,
            group_menu: false,
            main_view: MainView::Hosts,
            rdp_target: None,
            rdp_generation: 0,
        }),
        r.connector.recent_hosts@ == kept.recent_hosts@,
        r.connector.notice == notice,
        r.connector.last_error == error,
        r.keeper.last_error is None,
        r.flags == (Flags {
            terminal_scroll_offset: 0,
            terminal_selection: None,
            terminal_context_menu: false,
            tunnels_open: false,
            known_hosts_open: false,
            sidebar_visible: kept.sidebar_visible,
            dark_mode: starts_dark(kept, system_is_light),
            settings_open: false,
            settings_category: SettingsCategory::App,
            snippets_open: false,
            broadcast_input: false,
            command_window_open: kept.command_window_open,
            command_history_pos: None,
            about_open: false,
            auto_reconnect: kept.auto_reconnect,
        }),
        r.terminal == (TerminalView {
            rows: size.rows,
            scroll_offset: 0,
            selection: None,
            selecting: false,
            pointer: None,
            click: None,
            autoscroll: 0,
            context_menu: false,
            notice: None,
        }),
        r.search.wf() && r.search.query@.len() == 0 && r.search.matches@.len() == 0,
        r.command.wf() && r.command.input@.len() == 0 && r.command.history@.len() == 0,
        r.command.send_immediately == kept.command_send_immediately,
        r.panes.wf() && r.panes.panes@.len() == 0,
        r.panes.focused == 0,
        r.panes.mode == TileMode::Grid,
        is_empty_panel(&r.sftp),
        r.tunnels.kind == TunnelKind::Local,
        r.tunnels.bind_addr@ == "127.0.0.1"@,
        r.tunnels.bind_port@.len() == 0,
        r.tunnels.target_host@.len() == 0,
        r.tunnels.target_port@.len() == 0,
        r.tunnels.save,
        r.drag == (ProfileDrag { dragged: None, active: false, from_grid: false, drop: None }),
        r.auth.prompt is None && r.auth.answers@.len() == 0,
        r.update is Idle,
        r.clipboard.on == kept.rdp_clipboard,
        r.clipboard.offered is None,
        !r.fullscreen,
{
    let settings: Settings = live_settings(kept, &catalog.profiles, system_is_light);
    let persisted: Settings = written_settings(&settings, kept);
    let Catalog { profiles, groups } = catalog;
    let mut groups: Vec<String> = groups;
    let mut selected: Option<ProfileId> = None;
    let mut form: ProfileForm = blank_form();
    if profiles.len() > 0 {
        selected = Some(profiles[0].id);
        form = load_selected_profile(&profiles[0], password, passphrase);
        add_group(&mut groups, profiles[0].group.as_str());
    }
    let flags: Flags = Flags {
        terminal_scroll_offset: 0,
        terminal_selection: None,
        terminal_context_menu: false,
        tunnels_open: false,
        known_hosts_open: false,
        sidebar_visible: kept.sidebar_visible,
        dark_mode: settings.dark_mode,
        settings_open: false,
        settings_category: SettingsCategory::App,
        snippets_open: false,
        broadcast_input: false,
        command_window_open: kept.command_window_open,
        command_history_pos: None,
        about_open: false,
        auto_reconnect: kept.auto_reconnect,
    };
    let connector: Connector = Connector {
        dialog: None,
        password: String::new(),
        remember: false,
        surface: Surface {
            terminal_focused: false,
            scroll_offset: 0,
            selection: None,
            terminal_menu: false,
            profile_menu: false,
            group_menu: false,
            main_view: MainView::Hosts,
            rdp_target: None,
            rdp_generation: 0,
        },
        recent_hosts: copy_ids(&kept.recent_hosts),
        last_error: error,
        notice,
    };
    let terminal: TerminalView = TerminalView {
        rows: size.rows,
        scroll_offset: 0,
        selection: None,
        selecting: false,
        pointer: None,
        click: None,
        autoscroll: 0,
        context_menu: false,
        notice: None,
    };
    AditApp {
        book: SessionBook {
            catalog: Catalog { profiles, groups },
            selected_profile: selected,
            form,
            rename: InlineRename {
                editing_profile: None,
                profile_draft: String::new(),
                editing_group: None,
                group_draft: String::new(),
            },
        },
        keeper: SettingsKeeper { persisted, last_error: None },
        flags,
        panels: closed_panels(),
        connector,
        terminal,
        search: Search { query: String::new(), matches: Vec::new(), index: None },
        command: CommandWindow {
            input: String::new(),
            history: Vec::new(),
            history_pos: None,
            send_immediately: kept.command_send_immediately,
        },
        panes: Panes::new(),
        sftp: empty_panel(),
        tunnels: TunnelForm {
            kind: TunnelKind::Local,
            bind_addr: owned("127.0.0.1"),
            bind_port: String::new(),
            target_host: String::new(),
            target_port: String::new(),
            save: true,
        },
        drag: ProfileDrag { dragged: None, active: false, from_grid: false, drop: None },
        auth: AuthPrompt { prompt: None, answers: Vec::new() },
        update: UpdateState::Idle,
        clipboard: SharedClipboard { on: kept.rdp_clipboard, offered: None },
        fullscreen: false,
        settings,
    }
}

/// A start after which nothing is changed has nothing to write, unless a size that was
/// kept was out of range.
pub proof fn law_a_sound_start_writes_nothing(
    live: &Settings,
    written: &Settings,
    kept: &Settings,
    profiles: Seq<ConnectionProfile>,
    system_is_light: bool,
)
    requires
        started_with(live, kept, profiles, system_is_light),
        counts_as_written(written, live, kept),
        kept.window_width >= MIN_WINDOW_DIM,
        kept.window_height >= MIN_WINDOW_DIM,
        SIDEBAR_MIN_WIDTH <= kept.sidebar_width <= SIDEBAR_MAX_WIDTH,
    ensures
        settings_view(written) == settings_view(live),
{
    assert(window_view(written) == window_view(live));
    assert(terminal_view(written) == terminal_view(live));
}

/// The window at the start is never too small to be seen, and the sidebar and the font
/// stand in their ranges.
pub proof fn law_a_start_is_usable(
    live: &Settings,
    kept: &Settings,
    profiles: Seq<ConnectionProfile>,
    system_is_light: bool,
)
    requires
        started_with(live, kept, profiles, system_is_light),
    ensures
        live.window_width >= MIN_WINDOW_DIM,
        live.window_height >= MIN_WINDOW_DIM,
        SIDEBAR_MIN_WIDTH <= live.sidebar_width <= SIDEBAR_MAX_WIDTH,
        FONT_SIZE_MIN <= live.font_size <= FONT_SIZE_MAX,
{
    assert(live.window_width == window_view(live).window_width);
    assert(live.sidebar_width == terminal_view(live).sidebar_width);
    assert(live.font_size == terminal_view(live).font_size);
}

/// The window starts as it was kept: in its mode, dark or light as that says, with its
/// arrangement of the grid and its size where that is one a window can have.
pub proof fn law_a_start_keeps_what_was_kept(
    kept: &Settings,
    profiles: Seq<ConnectionProfile>,
    system_is_light: bool,
    folded: Seq<Seq<char>>,
)
    ensures
        kept.theme_mode matches Some(mode) ==> start_mode(kept) == mode,
        kept.theme_mode is None && kept.dark_mode ==> start_mode(kept) == ThemeMode::Dark,
        kept.theme_mode is None && !kept.dark_mode ==> start_mode(kept) == ThemeMode::Light,
        start_mode(kept) == ThemeMode::Dark ==> starts_dark(kept, system_is_light),
        start_mode(kept) == ThemeMode::Light ==> !starts_dark(kept, system_is_light),
        start_mode(kept) == ThemeMode::System ==> starts_dark(kept, system_is_light)
            != system_is_light,
        kept.grid_order@.len() > 0 ==> start_grid(kept, profiles) == kept.grid_order@,
        kept.grid_order@.len() == 0 ==> start_grid(kept, profiles) == ids(tree_sorted(profiles)),
        kept.window_width >= MIN_WINDOW_DIM && kept.window_height >= MIN_WINDOW_DIM ==> {
            let window = start_window(kept, profiles, system_is_light, folded);
            window.window_width == kept.window_width && window.window_height
                == kept.window_height
        },
        start_window(kept, profiles, system_is_light, folded).collapsed_groups == folded,
{
}

/// The form starts empty, for a shell on the usual port that tries every way to prove who
/// one is.
pub proof fn law_the_form_starts_empty(form: &ProfileForm)
    requires
        is_blank_form(form),
    ensures
        form.host@.len() == 0,
        form.name@.len() == 0,
        form.username@.len() == 0,
        form.password@.len() == 0,
        form.passphrase@.len() == 0,
        form.port@ == seq!['2', '2'],
        form.auth_method == AuthMethod::Auto,
        form.protocol == Protocol::Ssh,
{
    reveal_strlit("22");
    assert("22"@ =~= seq!['2', '2']);
}

} // verus!

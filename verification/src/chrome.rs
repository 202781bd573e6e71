//! The frame of the window: menus and what they do, the toolbar, and which
//! panels lie over the rest.

use vstd::prelude::*;
use vstd::string::*;

use crate::panes::{SessionId, TileMode};
use crate::profile::ProfileId;
use crate::terminal::TerminalSelection;
use crate::text::owned;

verus! {

/// The menus of the menu bar.
#[derive(Debug, Clone, Copy, PartialEq, Eq, Structural)]
pub enum MenuKind {
    File,
    Session,
    Edit,
    View,
    Transfer,
    Script,
    Help,
}

/// What an item of a menu stands for.
#[derive(Debug, Clone, Copy, PartialEq, Eq, Structural)]
pub enum MenuCommand {
    NewProfile,
    NewGroup,
    SaveProfile,
    DeleteProfile,
    SortByName,
    SortByHost,
    Connect,
    Disconnect,
    OpenMockTab,
    CloseActiveTab,
    ClearTerminal,
    ResizeDefault,
    ResizeWide,
    Sftp,
    Tunnels,
    Logging,
    ToggleAutoReconnect,
    KnownHosts,
    Appearance,
    Options,
    SyncCloud,
    ImportSshConfig,
    ImportSecureCrt,
    Snippets,
    ToggleBroadcast,
    ToggleCommandWindow,
    SplitPane,
    ToggleSidebar,
    ToggleTheme,
    TileVertical,
    TileHorizontal,
    TileGrid,
    Untile,
    CheckUpdate,
    About,
}

/// The menus, from the left.
pub fn menu_bar() -> (r: Vec<(&'static str, MenuKind)>)
    ensures
        r@.map_values(|item: (&'static str, MenuKind)| (item.0@, item.1)) == seq![
            ("File"@, MenuKind::File),
            ("Session"@, MenuKind::Session),
            ("Edit"@, MenuKind::Edit),
            ("View"@, MenuKind::View),
            ("Transfer"@, MenuKind::Transfer),
            ("Script"@, MenuKind::Script),
            ("Help"@, MenuKind::Help),
        ],
{
    let menus: Vec<(&'static str, MenuKind)> = vec![
        ("File", MenuKind::File),
        ("Session", MenuKind::Session),
        ("Edit", MenuKind::Edit),
        ("View", MenuKind::View),
        ("Transfer", MenuKind::Transfer),
        ("Script", MenuKind::Script),
        ("Help", MenuKind::Help),
    ];
    assert(menus@.map_values(|item: (&'static str, MenuKind)| (item.0@, item.1)) =~= seq![
        ("File"@, MenuKind::File),
        ("Session"@, MenuKind::Session),
        ("Edit"@, MenuKind::Edit),
        ("View"@, MenuKind::View),
        ("Transfer"@, MenuKind::Transfer),
        ("Script"@, MenuKind::Script),
        ("Help"@, MenuKind::Help),
    ]);
    menus
}

/// How far from the left a menu drops down, in pixels.
pub open spec fn drop_offset(menu: MenuKind) -> u16 {
    match menu {
        MenuKind::File => 28,
        MenuKind::Session => 72,
        MenuKind::Edit => 138,
        MenuKind::View => 184,
        MenuKind::Transfer => 236,
        MenuKind::Script => 318,
        MenuKind::Help => 436,
    }
}

/// How far from the left a menu drops down, in pixels: under its own button.
pub fn menu_dropdown_offset(menu: MenuKind) -> (r: u16)
    ensures
        r == drop_offset(menu),
{
    match menu {
        MenuKind::File => 28,
        MenuKind::Session => 72,
        MenuKind::Edit => 138,
        MenuKind::View => 184,
        MenuKind::Transfer => 236,
        MenuKind::Script => 318,
        MenuKind::Help => 436,
    }
}

/// What a menu offers, from the top.
pub open spec fn menu_items(menu: MenuKind) -> Seq<(Seq<char>, MenuCommand)> {
    match menu {
        MenuKind::File => seq![
            ("新建会话"@, MenuCommand::NewProfile),
            ("新建分组"@, MenuCommand::NewGroup),
            ("保存会话"@, MenuCommand::SaveProfile),
            ("删除会话"@, MenuCommand::DeleteProfile),
            ("按名称排序"@, MenuCommand::SortByName),
            ("按主机排序"@, MenuCommand::SortByHost),
            ("导入 ~/.ssh/config"@, MenuCommand::ImportSshConfig),
            ("导入 SecureCRT 会话…"@, MenuCommand::ImportSecureCrt),
            ("选项 / 日志…"@, MenuCommand::Options),
            ("关闭标签"@, MenuCommand::CloseActiveTab),
        ],
        MenuKind::Session => seq![
            ("连接"@, MenuCommand::Connect),
            ("断开"@, MenuCommand::Disconnect),
            ("自动重连开关"@, MenuCommand::ToggleAutoReconnect),
            ("主机密钥…"@, MenuCommand::KnownHosts),
            ("打开演示标签"@, MenuCommand::OpenMockTab),
            ("关闭标签"@, MenuCommand::CloseActiveTab),
        ],
        MenuKind::Edit => seq![
            ("清屏"@, MenuCommand::ClearTerminal),
        ],
        MenuKind::View => seq![
            ("外观设置…"@, MenuCommand::Appearance),
            ("分屏（添加窗格）"@, MenuCommand::SplitPane),
            ("垂直平铺（并排）"@, MenuCommand::TileVertical),
            ("水平平铺（上下）"@, MenuCommand::TileHorizontal),
            ("网格平铺"@, MenuCommand::TileGrid),
            ("合并为标签"@, MenuCommand::Untile),
            ("命令窗口"@, MenuCommand::ToggleCommandWindow),
            ("输入广播开关"@, MenuCommand::ToggleBroadcast),
            ("终端 96x28"@, MenuCommand::ResizeDefault),
            ("终端 120x36"@, MenuCommand::ResizeWide),
        ],
        MenuKind::Transfer => seq![
            ("SFTP"@, MenuCommand::Sftp),
            ("端口转发"@, MenuCommand::Tunnels),
        ],
        MenuKind::Script => seq![
            ("命令片段"@, MenuCommand::Snippets),
            ("日志/脚本"@, MenuCommand::Logging),
        ],
        MenuKind::Help => seq![
            ("检查更新…"@, MenuCommand::CheckUpdate),
            ("关于"@, MenuCommand::About),
        ],
    }
}

/// What a menu offers, from the top.
pub fn menu_commands(menu: MenuKind) -> (r: Vec<(&'static str, MenuCommand)>)
    ensures
        r@.map_values(|item: (&'static str, MenuCommand)| (item.0@, item.1)) == menu_items(menu),
{
    let items: Vec<(&'static str, MenuCommand)> = match menu {
        MenuKind::File => vec![
            ("新建会话", MenuCommand::NewProfile),
            ("新建分组", MenuCommand::NewGroup),
            ("保存会话", MenuCommand::SaveProfile),
            ("删除会话", MenuCommand::DeleteProfile),
            ("按名称排序", MenuCommand::SortByName),
            ("按主机排序", MenuCommand::SortByHost),
            ("导入 ~/.ssh/config", MenuCommand::ImportSshConfig),
            ("导入 SecureCRT 会话…", MenuCommand::ImportSecureCrt),
            ("选项 / 日志…", MenuCommand::Options),
            ("关闭标签", MenuCommand::CloseActiveTab),
        ],
        MenuKind::Session => vec![
            ("连接", MenuCommand::Connect),
            ("断开", MenuCommand::Disconnect),
            ("自动重连开关", MenuCommand::ToggleAutoReconnect),
            ("主机密钥…", MenuCommand::KnownHosts),
            ("打开演示标签", MenuCommand::OpenMockTab),
            ("关闭标签", MenuCommand::CloseActiveTab),
        ],
        MenuKind::Edit => vec![
            ("清屏", MenuCommand::ClearTerminal),
        ],
        MenuKind::View => vec![
            ("外观设置…", MenuCommand::Appearance),
            ("分屏（添加窗格）", MenuCommand::SplitPane),
            ("垂直平铺（并排）", MenuCommand::TileVertical),
            ("水平平铺（上下）", MenuCommand::TileHorizontal),
            ("网格平铺", MenuCommand::TileGrid),
            ("合并为标签", MenuCommand::Untile),
            ("命令窗口", MenuCommand::ToggleCommandWindow),
            ("输入广播开关", MenuCommand::ToggleBroadcast),
            ("终端 96x28", MenuCommand::ResizeDefault),
            ("终端 120x36", MenuCommand::ResizeWide),
        ],
        MenuKind::Transfer => vec![
            ("SFTP", MenuCommand::Sftp),
            ("端口转发", MenuCommand::Tunnels),
        ],
        MenuKind::Script => vec![
            ("命令片段", MenuCommand::Snippets),
            ("日志/脚本", MenuCommand::Logging),
        ],
        MenuKind::Help => vec![
            ("检查更新…", MenuCommand::CheckUpdate),
            ("关于", MenuCommand::About),
        ],
    };
    assert(items@.map_values(|item: (&'static str, MenuCommand)| (item.0@, item.1)) =~= menu_items(
        menu,
    ));
    items
}

/// No menu offers the same thing twice, and none is empty.
pub proof fn law_menus_offer_each_thing_once(menu: MenuKind)
    ensures
        menu_items(menu).len() > 0,
        forall|i: int, j: int|
            0 <= i < j < menu_items(menu).len() ==> (#[trigger] menu_items(menu)[i]).1 != (
            #[trigger] menu_items(menu)[j]).1,
{
}

/// The pages of the settings.
#[derive(Debug, Clone, Copy, PartialEq, Eq, Structural)]
pub enum SettingsCategory {
    App,
    Appearance,
    Terminal,
    Logging,
    Sync,
}

/// What of the window a menu changes by itself.
#[derive(Debug, Clone, Copy, PartialEq, Eq, Structural)]
pub struct Flags {
    pub terminal_scroll_offset: usize,
    pub terminal_selection: Option<TerminalSelection>,
    pub terminal_context_menu: bool,
    pub tunnels_open: bool,
    pub known_hosts_open: bool,
    pub sidebar_visible: bool,
    pub dark_mode: bool,
    pub settings_open: bool,
    pub settings_category: SettingsCategory,
    pub snippets_open: bool,
    pub broadcast_input: bool,
    pub command_window_open: bool,
    pub command_history_pos: Option<usize>,
    pub about_open: bool,
    pub auto_reconnect: bool,
}

/// What a session list is ordered by.
#[derive(Debug, Clone, Copy, PartialEq, Eq, Structural)]
pub enum ProfileSortKey {
    Name,
    Host,
}

/// What is left to do after a menu command.
#[derive(Debug, Clone, Copy, PartialEq, Eq, Structural)]
pub enum MenuTask {
    /// Nothing more.
    Done,
    NewProfile,
    NewGroup,
    SaveProfile,
    DeleteProfile,
    Sort(ProfileSortKey),
    Connect,
    Disconnect,
    OpenMockTab,
    Close(SessionId),
    ClearTerminal,
    Resize(u16, u16),
    OpenSftp,
    ToggleLogging,
    SetAutoReconnect(bool),
    ListKnownHosts,
    /// The workspace has another width.
    SyncTerminalSize,
    ImportSshConfig,
    /// A folder is to be picked first.
    ImportSecureCrt,
    CheckUpdate,
    SplitPane,
    Tile(TileMode),
    Untile,
}

/// What a menu reads and writes.
pub struct MenuState {
    pub flags: Flags,
    pub notice: String,
    pub last_error: Option<String>,
    pub sync_secret_draft: String,
}

/// What is left to do after a command.
pub open spec fn menu_task(flags: Flags, command: MenuCommand, active: Option<SessionId>) -> MenuTask {
    match command {
        MenuCommand::NewProfile => MenuTask::NewProfile,
        MenuCommand::NewGroup => MenuTask::NewGroup,
        MenuCommand::SaveProfile => MenuTask::SaveProfile,
        MenuCommand::DeleteProfile => MenuTask::DeleteProfile,
        MenuCommand::SortByName => MenuTask::Sort(ProfileSortKey::Name),
        MenuCommand::SortByHost => MenuTask::Sort(ProfileSortKey::Host),
        MenuCommand::Connect => MenuTask::Connect,
        MenuCommand::Disconnect => MenuTask::Disconnect,
        MenuCommand::OpenMockTab => MenuTask::OpenMockTab,
        MenuCommand::CloseActiveTab => match active {
            Some(session) => MenuTask::Close(session),
            None => MenuTask::Done,
        },
        MenuCommand::ClearTerminal => MenuTask::ClearTerminal,
        MenuCommand::ResizeDefault => MenuTask::Resize(96, 28),
        MenuCommand::ResizeWide => MenuTask::Resize(120, 36),
        MenuCommand::Sftp => MenuTask::OpenSftp,
        MenuCommand::Logging => MenuTask::ToggleLogging,
        MenuCommand::ToggleAutoReconnect => MenuTask::SetAutoReconnect(!flags.auto_reconnect),
        MenuCommand::KnownHosts => MenuTask::ListKnownHosts,
        MenuCommand::ToggleSidebar => MenuTask::SyncTerminalSize,
        MenuCommand::ImportSshConfig => MenuTask::ImportSshConfig,
        MenuCommand::ImportSecureCrt => MenuTask::ImportSecureCrt,
        MenuCommand::CheckUpdate => MenuTask::CheckUpdate,
        MenuCommand::SplitPane => MenuTask::SplitPane,
        MenuCommand::TileVertical => MenuTask::Tile(TileMode::Columns),
        MenuCommand::TileHorizontal => MenuTask::Tile(TileMode::Rows),
        MenuCommand::TileGrid => MenuTask::Tile(TileMode::Grid),
        MenuCommand::Untile => MenuTask::Untile,
        MenuCommand::Tunnels | MenuCommand::ToggleTheme | MenuCommand::Appearance
        | MenuCommand::Options | MenuCommand::SyncCloud | MenuCommand::Snippets
        | MenuCommand::ToggleBroadcast | MenuCommand::ToggleCommandWindow
        | MenuCommand::About => MenuTask::Done,
    }
}

/// The window after a command.
pub open spec fn menu_flags(flags: Flags, command: MenuCommand, active: Option<SessionId>) -> Flags {
    match command {
        MenuCommand::CloseActiveTab if active is Some => Flags {
            terminal_scroll_offset: 0,
            terminal_selection: None,
            terminal_context_menu: false,
            ..flags
        },
        MenuCommand::Tunnels if active is Some => Flags { tunnels_open: true, ..flags },
        MenuCommand::ToggleAutoReconnect => Flags {
            auto_reconnect: !flags.auto_reconnect,
            ..flags
        },
        MenuCommand::KnownHosts => Flags { known_hosts_open: true, ..flags },
        MenuCommand::ToggleSidebar => Flags { sidebar_visible: !flags.sidebar_visible, ..flags },
        MenuCommand::ToggleTheme => Flags { dark_mode: !flags.dark_mode, ..flags },
        MenuCommand::Appearance => Flags {
            settings_open: true,
            settings_category: SettingsCategory::Appearance,
            ..flags
        },
        MenuCommand::Options => Flags {
            settings_open: true,
            settings_category: SettingsCategory::App,
            ..flags
        },
        MenuCommand::SyncCloud => Flags {
            settings_open: true,
            settings_category: SettingsCategory::Sync,
            ..flags
        },
        MenuCommand::Snippets => Flags { snippets_open: true, ..flags },
        MenuCommand::ToggleBroadcast => Flags {
            broadcast_input: !flags.broadcast_input,
            ..flags
        },
        MenuCommand::ToggleCommandWindow => Flags {
            command_window_open: !flags.command_window_open,
            command_history_pos: None,
            ..flags
        },
        MenuCommand::About => Flags { about_open: true, ..flags },
        _ => flags,
    }
}

/// What a command says it did, where it says anything.
pub open spec fn menu_notice(
    flags: Flags,
    command: MenuCommand,
    active: Option<SessionId>,
) -> Option<Seq<char>> {
    match command {
        MenuCommand::CloseActiveTab if active is Some => Some("当前标签已关闭"@),
        MenuCommand::ToggleAutoReconnect => Some(
            if !flags.auto_reconnect {
                "自动重连已开启"@
            } else {
                "自动重连已关闭"@
            },
        ),
        MenuCommand::ToggleBroadcast => Some(
            if !flags.broadcast_input {
                "输入广播已开启：键盘输入将同时发往所有已连接会话"@
            } else {
                "输入广播已关闭"@
            },
        ),
        MenuCommand::ToggleCommandWindow => Some(
            if !flags.command_window_open {
                "命令窗口已打开"@
            } else {
                "命令窗口已关闭"@
            },
        ),
        _ => None,
    }
}

/// Why a command could not be done, where it could not.
pub open spec fn menu_error(command: MenuCommand, active: Option<SessionId>) -> Option<Seq<char>> {
    match command {
        MenuCommand::CloseActiveTab if active is None => Some("没有可关闭的标签"@),
        MenuCommand::Tunnels if active is None => Some("请先连接一个会话再配置端口转发"@),
        _ => None,
    }
}

fn task_of(flags: Flags, command: MenuCommand, active: Option<SessionId>) -> (r: MenuTask)
    ensures
        r == menu_task(flags, command, active),
{
    match command {
        MenuCommand::NewProfile => MenuTask::NewProfile,
        MenuCommand::NewGroup => MenuTask::NewGroup,
        MenuCommand::SaveProfile => MenuTask::SaveProfile,
        MenuCommand::DeleteProfile => MenuTask::DeleteProfile,
        MenuCommand::SortByName => MenuTask::Sort(ProfileSortKey::Name),
        MenuCommand::SortByHost => MenuTask::Sort(ProfileSortKey::Host),
        MenuCommand::Connect => MenuTask::Connect,
        MenuCommand::Disconnect => MenuTask::Disconnect,
        MenuCommand::OpenMockTab => MenuTask::OpenMockTab,
        MenuCommand::CloseActiveTab => match active {
            Some(session) => MenuTask::Close(session),
            None => MenuTask::Done,
        },
        MenuCommand::ClearTerminal => MenuTask::ClearTerminal,
        MenuCommand::ResizeDefault => MenuTask::Resize(96, 28),
        MenuCommand::ResizeWide => MenuTask::Resize(120, 36),
        MenuCommand::Sftp => MenuTask::OpenSftp,
        MenuCommand::Logging => MenuTask::ToggleLogging,
        MenuCommand::ToggleAutoReconnect => MenuTask::SetAutoReconnect(!flags.auto_reconnect),
        MenuCommand::KnownHosts => MenuTask::ListKnownHosts,
        MenuCommand::ToggleSidebar => MenuTask::SyncTerminalSize,
        MenuCommand::ImportSshConfig => MenuTask::ImportSshConfig,
        MenuCommand::ImportSecureCrt => MenuTask::ImportSecureCrt,
        MenuCommand::CheckUpdate => MenuTask::CheckUpdate,
        MenuCommand::SplitPane => MenuTask::SplitPane,
        MenuCommand::TileVertical => MenuTask::Tile(TileMode::Columns),
        MenuCommand::TileHorizontal => MenuTask::Tile(TileMode::Rows),
        MenuCommand::TileGrid => MenuTask::Tile(TileMode::Grid),
        MenuCommand::Untile => MenuTask::Untile,
        MenuCommand::Tunnels | MenuCommand::ToggleTheme | MenuCommand::Appearance
        | MenuCommand::Options | MenuCommand::SyncCloud | MenuCommand::Snippets
        | MenuCommand::ToggleBroadcast | MenuCommand::ToggleCommandWindow
        | MenuCommand::About => MenuTask::Done,
    }
}

fn flags_of(flags: Flags, command: MenuCommand, active: Option<SessionId>) -> (r: Flags)
    ensures
        r == menu_flags(flags, command, active),
{
    match command {
        MenuCommand::CloseActiveTab if active.is_some() => Flags {
            terminal_scroll_offset: 0,
            terminal_selection: None,
            terminal_context_menu: false,
            ..flags
        },
        MenuCommand::Tunnels if active.is_some() => Flags { tunnels_open: true, ..flags },
        MenuCommand::ToggleAutoReconnect => Flags {
            auto_reconnect: !flags.auto_reconnect,
            ..flags
        },
        MenuCommand::KnownHosts => Flags { known_hosts_open: true, ..flags },
        MenuCommand::ToggleSidebar => Flags { sidebar_visible: !flags.sidebar_visible, ..flags },
        MenuCommand::ToggleTheme => Flags { dark_mode: !flags.dark_mode, ..flags },
        MenuCommand::Appearance => Flags {
            settings_open: true,
            settings_category: SettingsCategory::Appearance,
            ..flags
        },
        MenuCommand::Options => Flags {
            settings_open: true,
            settings_category: SettingsCategory::App,
            ..flags
        },
        MenuCommand::SyncCloud => Flags {
            settings_open: true,
            settings_category: SettingsCategory::Sync,
            ..flags
        },
        MenuCommand::Snippets => Flags { snippets_open: true, ..flags },
        MenuCommand::ToggleBroadcast => Flags {
            broadcast_input: !flags.broadcast_input,
            ..flags
        },
        MenuCommand::ToggleCommandWindow => Flags {
            command_window_open: !flags.command_window_open,
            command_history_pos: None,
            ..flags
        },
        MenuCommand::About => Flags { about_open: true, ..flags },
        _ => flags,
    }
}

fn notice_of(flags: Flags, command: MenuCommand, active: Option<SessionId>) -> (r: Option<
    &'static str,
>)
    ensures
        r is Some == menu_notice(flags, command, active) is Some,
        r matches Some(text) ==> menu_notice(flags, command, active) == Some(text@),
{
    match command {
        MenuCommand::CloseActiveTab if active.is_some() => Some("当前标签已关闭"),
        MenuCommand::ToggleAutoReconnect => Some(
            if !flags.auto_reconnect {
                "自动重连已开启"
            } else {
                "自动重连已关闭"
            },
        ),
        MenuCommand::ToggleBroadcast => Some(
            if !flags.broadcast_input {
                "输入广播已开启：键盘输入将同时发往所有已连接会话"
            } else {
                "输入广播已关闭"
            },
        ),
        MenuCommand::ToggleCommandWindow => Some(
            if !flags.command_window_open {
                "命令窗口已打开"
            } else {
                "命令窗口已关闭"
            },
        ),
        _ => None,
    }
}

fn error_of(command: MenuCommand, active: Option<SessionId>) -> (r: Option<&'static str>)
    ensures
        r is Some == menu_error(command, active) is Some,
        r matches Some(text) ==> menu_error(command, active) == Some(text@),
{
    match command {
        MenuCommand::CloseActiveTab if active.is_none() => Some("没有可关闭的标签"),
        MenuCommand::Tunnels if active.is_none() => Some("请先连接一个会话再配置端口转发"),
        _ => None,
    }
}

impl MenuState {
    /// Does what a command changes in the window itself, and says what is left.
    pub fn run_menu_command(&mut self, command: MenuCommand, active: Option<SessionId>) -> (r:
        MenuTask)
        ensures
            r == menu_task(old(self).flags, command, active),
            final(self).flags == menu_flags(old(self).flags, command, active),
            match menu_notice(old(self).flags, command, active) {
                Some(text) => final(self).notice@ == text,
                None => final(self).notice == old(self).notice,
            },
            match menu_error(command, active) {
                Some(text) => final(self).last_error is Some && final(self).last_error->0@ == text,
                None => final(self).last_error == old(self).last_error,
            },
            if command == MenuCommand::SyncCloud {
                final(self).sync_secret_draft@.len() == 0
            } else {
                final(self).sync_secret_draft == old(self).sync_secret_draft
            },
    {
        let task: MenuTask = task_of(self.flags, command, active);
        match notice_of(self.flags, command, active) {
            Some(text) => {
                self.notice = owned(text);
            },
            None => {},
        }
        match error_of(command, active) {
            Some(text) => {
                self.last_error = Some(owned(text));
            },
            None => {},
        }
        if command == MenuCommand::SyncCloud {
            self.sync_secret_draft = String::new();
        }
        self.flags = flags_of(self.flags, command, active);
        task
    }
}

/// A command that switches something switches it back when it is given again.
pub proof fn law_switching_twice_is_nothing(
    flags: Flags,
    command: MenuCommand,
    active: Option<SessionId>,
)
    requires
        command == MenuCommand::ToggleSidebar || command == MenuCommand::ToggleTheme || command
            == MenuCommand::ToggleBroadcast || command == MenuCommand::ToggleAutoReconnect,
    ensures
        menu_flags(menu_flags(flags, command, active), command, active) == flags,
{
}

// What lies over the window.

/// A panel that lies over the rest of the window.
#[derive(Debug, Clone, Copy, PartialEq, Eq, Structural)]
pub enum Layer {
    Menu(MenuKind),
    ProfileMenu(ProfileId),
    TabMenu(SessionId),
    /// The menu of a folder, and whether that is folded.
    GroupMenu(bool),
    TerminalMenu,
    ProfileEditor,
    ConnectionDialog,
    HostKey(SessionId),
    AuthPrompt(SessionId),
    HyperlinkConfirm,
    Sftp,
    SftpMenu,
    Tunnels,
    About,
    Update,
    PasteConfirm,
    SessionRename,
    Snippets,
    Appearance,
    Options,
    KnownHosts,
}

/// What is open.
#[derive(Debug, Clone, Copy, PartialEq, Eq, Structural)]
pub struct OpenPanels {
    pub active_menu: Option<MenuKind>,
    pub profile_context_menu: Option<ProfileId>,
    pub tab_context_menu: Option<SessionId>,
    /// The folder whose menu is open, by whether it is folded.
    pub group_context_menu: Option<bool>,
    pub terminal_context_menu: bool,
    pub profile_editor: bool,
    pub connection_dialog: bool,
    pub pending_host_key: Option<SessionId>,
    pub auth_prompt: Option<SessionId>,
    pub pending_hyperlink: bool,
    pub sftp_open: bool,
    pub sftp_context_menu: bool,
    pub tunnels_open: bool,
    pub about_open: bool,
    pub update_dialog_open: bool,
    pub paste_confirm_open: bool,
    pub renaming_session: bool,
    pub snippets_open: bool,
    pub appearance_open: bool,
    pub options_open: bool,
    pub known_hosts_open: bool,
}

/// One panel where it is open.
pub open spec fn layer_if(open: bool, layer: Layer) -> Seq<Layer> {
    if open {
        seq![layer]
    } else {
        Seq::empty()
    }
}

/// The menus and the questions that are open, from the lowest up.
pub open spec fn menus_of(p: OpenPanels) -> Seq<Layer> {
    layer_if(p.active_menu is Some, Layer::Menu(p.active_menu->0))
        + layer_if(p.profile_context_menu is Some, Layer::ProfileMenu(p.profile_context_menu->0))
        + layer_if(p.tab_context_menu is Some, Layer::TabMenu(p.tab_context_menu->0))
        + layer_if(p.group_context_menu is Some, Layer::GroupMenu(p.group_context_menu->0))
        + layer_if(p.terminal_context_menu, Layer::TerminalMenu)
        + layer_if(p.profile_editor, Layer::ProfileEditor)
        + layer_if(p.connection_dialog, Layer::ConnectionDialog)
        + layer_if(p.pending_host_key is Some, Layer::HostKey(p.pending_host_key->0))
        + layer_if(p.auth_prompt is Some, Layer::AuthPrompt(p.auth_prompt->0))
        + layer_if(p.pending_hyperlink, Layer::HyperlinkConfirm)
}

/// The panels that are open, from the lowest up.
pub open spec fn panels_of(p: OpenPanels) -> Seq<Layer> {
    layer_if(p.sftp_open, Layer::Sftp)
        + layer_if(p.sftp_open && p.sftp_context_menu, Layer::SftpMenu)
        + layer_if(p.tunnels_open, Layer::Tunnels)
        + layer_if(p.about_open, Layer::About)
        + layer_if(p.update_dialog_open, Layer::Update)
        + layer_if(p.paste_confirm_open, Layer::PasteConfirm)
        + layer_if(p.renaming_session, Layer::SessionRename)
        + layer_if(p.snippets_open, Layer::Snippets)
        + layer_if(p.appearance_open, Layer::Appearance)
        + layer_if(p.options_open, Layer::Options)
        + layer_if(p.known_hosts_open, Layer::KnownHosts)
}

/// What is open, from the lowest to the topmost.
pub open spec fn layers_of(p: OpenPanels) -> Seq<Layer> {
    menus_of(p) + panels_of(p)
}

fn push_if(layers: &mut Vec<Layer>, open: bool, layer: Layer)
    ensures
        final(layers)@ == old(layers)@ + layer_if(open, layer),
{
    if open {
        layers.push(layer);
        assert(layers@ =~= old(layers)@ + layer_if(open, layer));
    } else {
        assert(layers@ =~= old(layers)@ + layer_if(open, layer));
    }
}

fn menu_layers(p: &OpenPanels) -> (r: Vec<Layer>)
    ensures
        r@ == menus_of(*p),
{
    let mut layers: Vec<Layer> = Vec::new();
    let open: Layer = match p.active_menu {
        Some(id) => Layer::Menu(id),
        None => Layer::TerminalMenu,
    };
    push_if(&mut layers, p.active_menu.is_some(), open);
    assert(layers@ =~= layer_if(p.active_menu is Some, Layer::Menu(p.active_menu->0)));
    let open: Layer = match p.profile_context_menu {
        Some(id) => Layer::ProfileMenu(id),
        None => Layer::TerminalMenu,
    };
    push_if(&mut layers, p.profile_context_menu.is_some(), open);
    let open: Layer = match p.tab_context_menu {
        Some(id) => Layer::TabMenu(id),
        None => Layer::TerminalMenu,
    };
    push_if(&mut layers, p.tab_context_menu.is_some(), open);
    let open: Layer = match p.group_context_menu {
        Some(id) => Layer::GroupMenu(id),
        None => Layer::TerminalMenu,
    };
    push_if(&mut layers, p.group_context_menu.is_some(), open);
    push_if(&mut layers, p.terminal_context_menu, Layer::TerminalMenu);
    push_if(&mut layers, p.profile_editor, Layer::ProfileEditor);
    push_if(&mut layers, p.connection_dialog, Layer::ConnectionDialog);
    let open: Layer = match p.pending_host_key {
        Some(id) => Layer::HostKey(id),
        None => Layer::TerminalMenu,
    };
    push_if(&mut layers, p.pending_host_key.is_some(), open);
    let open: Layer = match p.auth_prompt {
        Some(id) => Layer::AuthPrompt(id),
        None => Layer::TerminalMenu,
    };
    push_if(&mut layers, p.auth_prompt.is_some(), open);
    push_if(&mut layers, p.pending_hyperlink, Layer::HyperlinkConfirm);
    layers
}

fn panel_layers(p: &OpenPanels) -> (r: Vec<Layer>)
    ensures
        r@ == panels_of(*p),
{
    let mut layers: Vec<Layer> = Vec::new();
    push_if(&mut layers, p.sftp_open, Layer::Sftp);
    assert(layers@ =~= layer_if(p.sftp_open, Layer::Sftp));
    push_if(&mut layers, p.sftp_open && p.sftp_context_menu, Layer::SftpMenu);
    push_if(&mut layers, p.tunnels_open, Layer::Tunnels);
    push_if(&mut layers, p.about_open, Layer::About);
    push_if(&mut layers, p.update_dialog_open, Layer::Update);
    push_if(&mut layers, p.paste_confirm_open, Layer::PasteConfirm);
    push_if(&mut layers, p.renaming_session, Layer::SessionRename);
    push_if(&mut layers, p.snippets_open, Layer::Snippets);
    push_if(&mut layers, p.appearance_open, Layer::Appearance);
    push_if(&mut layers, p.options_open, Layer::Options);
    push_if(&mut layers, p.known_hosts_open, Layer::KnownHosts);
    layers
}

/// The window: which of its bars and panels are there.
pub struct Window {
    pub menu_bar: bool,
    pub toolbar: bool,
    pub sidebar: bool,
    /// The status bar is always there: it is what tells the way out of fullscreen.
    pub status_bar: bool,
    /// What lies over the rest, from the lowest to the topmost.
    pub layers: Vec<Layer>,
}

/// What of the window is shown.
pub fn view(panels: &OpenPanels, sidebar_visible: bool, fullscreen: bool) -> (r: Window)
    ensures
        r.menu_bar == !fullscreen,
        r.toolbar == !fullscreen,
        r.sidebar == (sidebar_visible && !fullscreen),
        r.status_bar,
        r.layers@ == layers_of(*panels),
{
    let mut layers: Vec<Layer> = menu_layers(panels);
    let mut over: Vec<Layer> = panel_layers(panels);
    layers.append(&mut over);
    Window {
        menu_bar: !fullscreen,
        toolbar: !fullscreen,
        sidebar: sidebar_visible && !fullscreen,
        status_bar: true,
        layers,
    }
}

// The toolbar.

/// What a tool of the toolbar does.
#[derive(Debug, Clone, Copy, PartialEq, Eq, Structural)]
pub enum Tool {
    ToggleSidebar,
    Separator,
    Connect,
    Disconnect,
    NewProfile,
    NewGroup,
    SaveProfile,
    DeleteProfile,
    OpenProfile,
    ClearTerminal,
    Sftp,
    Tunnels,
    ToggleBroadcast,
    ToggleCommandWindow,
}

/// The mark of a tool.
pub open spec fn tool_glyph(tool: Tool) -> Seq<char> {
    match tool {
        Tool::ToggleSidebar => "☰"@,
        Tool::Separator => ""@,
        Tool::Connect => "↯"@,
        Tool::Disconnect => "■"@,
        Tool::NewProfile => "+"@,
        Tool::NewGroup => "G+"@,
        Tool::SaveProfile => "□"@,
        Tool::DeleteProfile => "×"@,
        Tool::OpenProfile => "↺"@,
        Tool::ClearTerminal => "⌫"@,
        Tool::Sftp => "⇅"@,
        Tool::Tunnels => "⇄"@,
        Tool::ToggleBroadcast => "⇶"@,
        Tool::ToggleCommandWindow => ">_"@,
    }
}

/// The mark of a tool.
pub fn tool_button(tool: Tool) -> (r: &'static str)
    ensures
        r@ == tool_glyph(tool),
{
    match tool {
        Tool::ToggleSidebar => "☰",
        Tool::Separator => "",
        Tool::Connect => "↯",
        Tool::Disconnect => "■",
        Tool::NewProfile => "+",
        Tool::NewGroup => "G+",
        Tool::SaveProfile => "□",
        Tool::DeleteProfile => "×",
        Tool::OpenProfile => "↺",
        Tool::ClearTerminal => "⌫",
        Tool::Sftp => "⇅",
        Tool::Tunnels => "⇄",
        Tool::ToggleBroadcast => "⇶",
        Tool::ToggleCommandWindow => ">_",
    }
}

/// The toolbar.
pub struct Toolbar {
    /// Its tools from the left; each with whether it is switched on.
    pub tools: Vec<(Tool, bool)>,
    /// Whether the form says what is saved.
    pub form_state: &'static str,
    pub theme_glyph: &'static str,
}

/// The tools from the left.
pub open spec fn tools_of(broadcast: bool, command_window: bool) -> Seq<(Tool, bool)> {
    seq![
        (Tool::ToggleSidebar, false),
        (Tool::Separator, false),
        (Tool::Connect, false),
        (Tool::Disconnect, false),
        (Tool::NewProfile, false),
        (Tool::NewGroup, false),
        (Tool::SaveProfile, false),
        (Tool::DeleteProfile, false),
        (Tool::Separator, false),
        (Tool::OpenProfile, false),
        (Tool::ClearTerminal, false),
        (Tool::Sftp, false),
        (Tool::Tunnels, false),
        (Tool::ToggleBroadcast, broadcast),
        (Tool::ToggleCommandWindow, command_window),
        (Tool::Separator, false),
    ]
}

/// The toolbar. `saved` says whether the form is what the catalogue holds.
pub fn toolbar(broadcast: bool, command_window: bool, saved: bool, dark: bool) -> (r: Toolbar)
    ensures
        r.tools@ == tools_of(broadcast, command_window),
        r.form_state@ == if saved {
            "saved"@
        } else {
            "modified"@
        },
        r.theme_glyph@ == if dark {
            "☀"@
        } else {
            "☾"@
        },
{
    let tools: Vec<(Tool, bool)> = vec![
        (Tool::ToggleSidebar, false),
        (Tool::Separator, false),
        (Tool::Connect, false),
        (Tool::Disconnect, false),
        (Tool::NewProfile, false),
        (Tool::NewGroup, false),
        (Tool::SaveProfile, false),
        (Tool::DeleteProfile, false),
        (Tool::Separator, false),
        (Tool::OpenProfile, false),
        (Tool::ClearTerminal, false),
        (Tool::Sftp, false),
        (Tool::Tunnels, false),
        (Tool::ToggleBroadcast, broadcast),
        (Tool::ToggleCommandWindow, command_window),
        (Tool::Separator, false),
    ];
    assert(tools@ =~= tools_of(broadcast, command_window));
    Toolbar {
        tools,
        form_state: if saved {
            "saved"
        } else {
            "modified"
        },
        theme_glyph: if dark {
            "☀"
        } else {
            "☾"
        },
    }
}

// Events.

/// Something that happened to the window. `ignored` says that no widget took it.
#[derive(Debug, Clone, Copy, PartialEq, Eq, Structural)]
pub enum RuntimeEvent {
    ModifiersChanged,
    Keyboard { ignored: bool },
    /// The window opened or has another size.
    Sized,
    CursorMoved,
    LeftReleased { ignored: bool },
    FileDropped,
    Other,
}

/// What the window does about it.
#[derive(Debug, Clone, Copy, PartialEq, Eq, Structural)]
pub enum RuntimeAction {
    TrackModifiers,
    TypeKey,
    Resize,
    TrackCursor,
    EndDrag,
    TakeFile,
}

/// What the window does about something that happened to it. Modifiers are always
/// tracked; a key, or a release of the button, only where no widget took it.
pub fn runtime_event(event: RuntimeEvent) -> (r: Option<RuntimeAction>)
    ensures
        r == match event {
            RuntimeEvent::ModifiersChanged => Some(RuntimeAction::TrackModifiers),
            RuntimeEvent::Keyboard { ignored } => if ignored {
                Some(RuntimeAction::TypeKey)
            } else {
                None
            },
            RuntimeEvent::Sized => Some(RuntimeAction::Resize),
            RuntimeEvent::CursorMoved => Some(RuntimeAction::TrackCursor),
            RuntimeEvent::LeftReleased { ignored } => if ignored {
                Some(RuntimeAction::EndDrag)
            } else {
                None
            },
            RuntimeEvent::FileDropped => Some(RuntimeAction::TakeFile),
            RuntimeEvent::Other => None,
        },
{
    match event {
        RuntimeEvent::ModifiersChanged => Some(RuntimeAction::TrackModifiers),
        RuntimeEvent::Keyboard { ignored } => if ignored {
            Some(RuntimeAction::TypeKey)
        } else {
            None
        },
        RuntimeEvent::Sized => Some(RuntimeAction::Resize),
        RuntimeEvent::CursorMoved => Some(RuntimeAction::TrackCursor),
        RuntimeEvent::LeftReleased { ignored } => if ignored {
            Some(RuntimeAction::EndDrag)
        } else {
            None
        },
        RuntimeEvent::FileDropped => Some(RuntimeAction::TakeFile),
        RuntimeEvent::Other => None,
    }
}

/// Something that the window listens to.
#[derive(Debug, Clone, Copy, PartialEq, Eq, Structural)]
pub enum Feed {
    /// Ten times a second.
    Tick,
    Events,
    /// Every frame, for a remote desktop.
    RdpFrames,
    /// Every frame, for cards on their way.
    CardFrames,
    CursorBlink,
    SidebarDrag,
    ScrollbarDrag,
    SelectionDrag,
    SelectionAutoScroll,
    TabRelease,
}

/// What is going on in the window.
#[derive(Debug, Clone, Copy, PartialEq, Eq, Structural)]
pub struct Activity {
    pub active_rdp_live: bool,
    pub cards_moving: bool,
    pub cursor_blinks: bool,
    pub sidebar_dragging: bool,
    pub scrollbar_dragging: bool,
    pub terminal_selecting: bool,
    pub selection_autoscroll: i32,
    pub tab_dragged: bool,
}

/// One feed where it is wanted.
pub open spec fn feed_if(wanted: bool, feed: Feed) -> Seq<Feed> {
    if wanted {
        seq![feed]
    } else {
        Seq::empty()
    }
}

/// What the window listens to: always the clock and the events, and the rest only
/// while there is something for it.
pub open spec fn feeds_of(a: Activity) -> Seq<Feed> {
    seq![Feed::Tick, Feed::Events] + feed_if(a.active_rdp_live, Feed::RdpFrames) + feed_if(
        a.cards_moving,
        Feed::CardFrames,
    ) + feed_if(a.cursor_blinks, Feed::CursorBlink) + feed_if(a.sidebar_dragging, Feed::SidebarDrag)
        + feed_if(a.scrollbar_dragging, Feed::ScrollbarDrag) + feed_if(
        a.terminal_selecting,
        Feed::SelectionDrag,
    ) + feed_if(
        a.terminal_selecting && a.selection_autoscroll != 0,
        Feed::SelectionAutoScroll,
    ) + feed_if(a.tab_dragged, Feed::TabRelease)
}

fn feed_on(feeds: &mut Vec<Feed>, wanted: bool, feed: Feed)
    ensures
        final(feeds)@ == old(feeds)@ + feed_if(wanted, feed),
{
    if wanted {
        feeds.push(feed);
        assert(feeds@ =~= old(feeds)@ + feed_if(wanted, feed));
    } else {
        assert(feeds@ =~= old(feeds)@ + feed_if(wanted, feed));
    }
}

/// What the window listens to.
pub fn subscription(a: &Activity) -> (r: Vec<Feed>)
    ensures
        r@ == feeds_of(*a),
{
    let mut feeds: Vec<Feed> = vec![Feed::Tick, Feed::Events];
    assert(feeds@ =~= seq![Feed::Tick, Feed::Events]);
    feed_on(&mut feeds, a.active_rdp_live, Feed::RdpFrames);
    feed_on(&mut feeds, a.cards_moving, Feed::CardFrames);
    feed_on(&mut feeds, a.cursor_blinks, Feed::CursorBlink);
    feed_on(&mut feeds, a.sidebar_dragging, Feed::SidebarDrag);
    feed_on(&mut feeds, a.scrollbar_dragging, Feed::ScrollbarDrag);
    feed_on(&mut feeds, a.terminal_selecting, Feed::SelectionDrag);
    feed_on(
        &mut feeds,
        a.terminal_selecting && a.selection_autoscroll != 0,
        Feed::SelectionAutoScroll,
    );
    feed_on(&mut feeds, a.tab_dragged, Feed::TabRelease);
    feeds
}

/// What a listener does with an event while something is dragged.
#[derive(Debug, Clone, Copy, PartialEq, Eq, Structural)]
pub enum DragStep {
    /// What is dragged follows the pointer.
    Follow,
    /// It is let go.
    End,
}

/// What the listener of a drag does with an event. The sidebar, the scrollbar and a
/// selection follow the pointer and end where the button is let go; a tab only waits
/// for that. Nobody else listens, and whether a widget took the event makes no
/// difference.
pub fn drag_event(feed: Feed, event: RuntimeEvent) -> (r: Option<DragStep>)
    ensures
        r == match (feed, event) {
            (
                Feed::SidebarDrag | Feed::ScrollbarDrag | Feed::SelectionDrag,
                RuntimeEvent::CursorMoved,
            ) => Some(DragStep::Follow),
            (
                Feed::SidebarDrag | Feed::ScrollbarDrag | Feed::SelectionDrag | Feed::TabRelease,
                RuntimeEvent::LeftReleased { .. },
            ) => Some(DragStep::End),
            _ => None,
        },
{
    match (feed, event) {
        (
            Feed::SidebarDrag | Feed::ScrollbarDrag | Feed::SelectionDrag,
            RuntimeEvent::CursorMoved,
        ) => Some(DragStep::Follow),
        (
            Feed::SidebarDrag | Feed::ScrollbarDrag | Feed::SelectionDrag | Feed::TabRelease,
            RuntimeEvent::LeftReleased { .. },
        ) => Some(DragStep::End),
        _ => None,
    }
}

// Laws.

proof fn lemma_either<A>(a: Seq<A>, b: Seq<A>, x: A)
    ensures
        (a + b).contains(x) <==> a.contains(x) || b.contains(x),
{
    let all = a + b;
    if a.contains(x) {
        let k = choose|k: int| 0 <= k < a.len() && a[k] == x;
        assert(all[k] == x);
    }
    if b.contains(x) {
        let k = choose|k: int| 0 <= k < b.len() && b[k] == x;
        assert(all[a.len() + k] == x);
    }
    if all.contains(x) {
        let k = choose|k: int| 0 <= k < all.len() && all[k] == x;
        if k < a.len() {
            assert(a[k] == x);
        } else {
            assert(b[k - a.len()] == x);
        }
    }
}

proof fn lemma_layer_if(open: bool, layer: Layer, x: Layer)
    ensures
        layer_if(open, layer).contains(x) <==> open && x == layer,
{
    if open {
        assert(layer_if(open, layer)[0] == layer);
    }
}

proof fn lemma_feed_if(wanted: bool, feed: Feed, x: Feed)
    ensures
        feed_if(wanted, feed).contains(x) <==> wanted && x == feed,
{
    if wanted {
        assert(feed_if(wanted, feed)[0] == feed);
    }
}

proof fn lemma_menus_hold(p: OpenPanels, x: Layer)
    ensures
        menus_of(p).contains(x) <==> {
            ||| p.active_menu is Some && x == Layer::Menu(p.active_menu->0)
            ||| p.profile_context_menu is Some && x == Layer::ProfileMenu(p.profile_context_menu->0)
            ||| p.tab_context_menu is Some && x == Layer::TabMenu(p.tab_context_menu->0)
            ||| p.group_context_menu is Some && x == Layer::GroupMenu(p.group_context_menu->0)
            ||| p.terminal_context_menu && x == Layer::TerminalMenu
            ||| p.profile_editor && x == Layer::ProfileEditor
            ||| p.connection_dialog && x == Layer::ConnectionDialog
            ||| p.pending_host_key is Some && x == Layer::HostKey(p.pending_host_key->0)
            ||| p.auth_prompt is Some && x == Layer::AuthPrompt(p.auth_prompt->0)
            ||| p.pending_hyperlink && x == Layer::HyperlinkConfirm
        },
{
    let m0 = layer_if(p.active_menu is Some, Layer::Menu(p.active_menu->0));
    lemma_layer_if(p.active_menu is Some, Layer::Menu(p.active_menu->0), x);
    let m1 = m0 + layer_if(p.profile_context_menu is Some, Layer::ProfileMenu(p.profile_context_menu->0));
    lemma_layer_if(
        p.profile_context_menu is Some,
        Layer::ProfileMenu(p.profile_context_menu->0),
        x,
    );
    lemma_either(
        m0,
        layer_if(p.profile_context_menu is Some, Layer::ProfileMenu(p.profile_context_menu->0)),
        x,
    );
    let m2 = m1 + layer_if(p.tab_context_menu is Some, Layer::TabMenu(p.tab_context_menu->0));
    lemma_layer_if(p.tab_context_menu is Some, Layer::TabMenu(p.tab_context_menu->0), x);
    lemma_either(
        m1,
        layer_if(p.tab_context_menu is Some, Layer::TabMenu(p.tab_context_menu->0)),
        x,
    );
    let m3 = m2 + layer_if(p.group_context_menu is Some, Layer::GroupMenu(p.group_context_menu->0));
    lemma_layer_if(p.group_context_menu is Some, Layer::GroupMenu(p.group_context_menu->0), x);
    lemma_either(
        m2,
        layer_if(p.group_context_menu is Some, Layer::GroupMenu(p.group_context_menu->0)),
        x,
    );
    let m4 = m3 + layer_if(p.terminal_context_menu, Layer::TerminalMenu);
    lemma_layer_if(p.terminal_context_menu, Layer::TerminalMenu, x);
    lemma_either(m3, layer_if(p.terminal_context_menu, Layer::TerminalMenu), x);
    let m5 = m4 + layer_if(p.profile_editor, Layer::ProfileEditor);
    lemma_layer_if(p.profile_editor, Layer::ProfileEditor, x);
    lemma_either(m4, layer_if(p.profile_editor, Layer::ProfileEditor), x);
    let m6 = m5 + layer_if(p.connection_dialog, Layer::ConnectionDialog);
    lemma_layer_if(p.connection_dialog, Layer::ConnectionDialog, x);
    lemma_either(m5, layer_if(p.connection_dialog, Layer::ConnectionDialog), x);
    let m7 = m6 + layer_if(p.pending_host_key is Some, Layer::HostKey(p.pending_host_key->0));
    lemma_layer_if(p.pending_host_key is Some, Layer::HostKey(p.pending_host_key->0), x);
    lemma_either(
        m6,
        layer_if(p.pending_host_key is Some, Layer::HostKey(p.pending_host_key->0)),
        x,
    );
    let m8 = m7 + layer_if(p.auth_prompt is Some, Layer::AuthPrompt(p.auth_prompt->0));
    lemma_layer_if(p.auth_prompt is Some, Layer::AuthPrompt(p.auth_prompt->0), x);
    lemma_either(m7, layer_if(p.auth_prompt is Some, Layer::AuthPrompt(p.auth_prompt->0)), x);
    let m9 = m8 + layer_if(p.pending_hyperlink, Layer::HyperlinkConfirm);
    lemma_layer_if(p.pending_hyperlink, Layer::HyperlinkConfirm, x);
    lemma_either(m8, layer_if(p.pending_hyperlink, Layer::HyperlinkConfirm), x);
}

proof fn lemma_panels_hold(p: OpenPanels, x: Layer)
    ensures
        panels_of(p).contains(x) <==> {
            ||| p.sftp_open && x == Layer::Sftp
            ||| p.sftp_open && p.sftp_context_menu && x == Layer::SftpMenu
            ||| p.tunnels_open && x == Layer::Tunnels
            ||| p.about_open && x == Layer::About
            ||| p.update_dialog_open && x == Layer::Update
            ||| p.paste_confirm_open && x == Layer::PasteConfirm
            ||| p.renaming_session && x == Layer::SessionRename
            ||| p.snippets_open && x == Layer::Snippets
            ||| p.appearance_open && x == Layer::Appearance
            ||| p.options_open && x == Layer::Options
            ||| p.known_hosts_open && x == Layer::KnownHosts
        },
{
    let m0 = layer_if(p.sftp_open, Layer::Sftp);
    lemma_layer_if(p.sftp_open, Layer::Sftp, x);
    let m1 = m0 + layer_if(p.sftp_open && p.sftp_context_menu, Layer::SftpMenu);
    lemma_layer_if(p.sftp_open && p.sftp_context_menu, Layer::SftpMenu, x);
    lemma_either(m0, layer_if(p.sftp_open && p.sftp_context_menu, Layer::SftpMenu), x);
    let m2 = m1 + layer_if(p.tunnels_open, Layer::Tunnels);
    lemma_layer_if(p.tunnels_open, Layer::Tunnels, x);
    lemma_either(m1, layer_if(p.tunnels_open, Layer::Tunnels), x);
    let m3 = m2 + layer_if(p.about_open, Layer::About);
    lemma_layer_if(p.about_open, Layer::About, x);
    lemma_either(m2, layer_if(p.about_open, Layer::About), x);
    let m4 = m3 + layer_if(p.update_dialog_open, Layer::Update);
    lemma_layer_if(p.update_dialog_open, Layer::Update, x);
    lemma_either(m3, layer_if(p.update_dialog_open, Layer::Update), x);
    let m5 = m4 + layer_if(p.paste_confirm_open, Layer::PasteConfirm);
    lemma_layer_if(p.paste_confirm_open, Layer::PasteConfirm, x);
    lemma_either(m4, layer_if(p.paste_confirm_open, Layer::PasteConfirm), x);
    let m6 = m5 + layer_if(p.renaming_session, Layer::SessionRename);
    lemma_layer_if(p.renaming_session, Layer::SessionRename, x);
    lemma_either(m5, layer_if(p.renaming_session, Layer::SessionRename), x);
    let m7 = m6 + layer_if(p.snippets_open, Layer::Snippets);
    lemma_layer_if(p.snippets_open, Layer::Snippets, x);
    lemma_either(m6, layer_if(p.snippets_open, Layer::Snippets), x);
    let m8 = m7 + layer_if(p.appearance_open, Layer::Appearance);
    lemma_layer_if(p.appearance_open, Layer::Appearance, x);
    lemma_either(m7, layer_if(p.appearance_open, Layer::Appearance), x);
    let m9 = m8 + layer_if(p.options_open, Layer::Options);
    lemma_layer_if(p.options_open, Layer::Options, x);
    lemma_either(m8, layer_if(p.options_open, Layer::Options), x);
    let m10 = m9 + layer_if(p.known_hosts_open, Layer::KnownHosts);
    lemma_layer_if(p.known_hosts_open, Layer::KnownHosts, x);
    lemma_either(m9, layer_if(p.known_hosts_open, Layer::KnownHosts), x);
}

/// Everything that is open is shown, and nothing else is.
pub proof fn law_what_is_open_is_shown(p: OpenPanels, x: Layer)
    ensures
        layers_of(p).contains(x) == (match x {
            Layer::Menu(kind) => p.active_menu == Some(kind),
            Layer::ProfileMenu(id) => p.profile_context_menu == Some(id),
            Layer::TabMenu(id) => p.tab_context_menu == Some(id),
            Layer::GroupMenu(folded) => p.group_context_menu == Some(folded),
            Layer::TerminalMenu => p.terminal_context_menu,
            Layer::ProfileEditor => p.profile_editor,
            Layer::ConnectionDialog => p.connection_dialog,
            Layer::HostKey(id) => p.pending_host_key == Some(id),
            Layer::AuthPrompt(id) => p.auth_prompt == Some(id),
            Layer::HyperlinkConfirm => p.pending_hyperlink,
            Layer::Sftp => p.sftp_open,
            Layer::SftpMenu => p.sftp_open && p.sftp_context_menu,
            Layer::Tunnels => p.tunnels_open,
            Layer::About => p.about_open,
            Layer::Update => p.update_dialog_open,
            Layer::PasteConfirm => p.paste_confirm_open,
            Layer::SessionRename => p.renaming_session,
            Layer::Snippets => p.snippets_open,
            Layer::Appearance => p.appearance_open,
            Layer::Options => p.options_open,
            Layer::KnownHosts => p.known_hosts_open,
        }),
{
    lemma_menus_hold(p, x);
    lemma_panels_hold(p, x);
    lemma_either(menus_of(p), panels_of(p), x);
}

proof fn lemma_constant_feeds(x: Feed)
    ensures
        seq![Feed::Tick, Feed::Events].contains(x) <==> x == Feed::Tick || x == Feed::Events,
{
    let first = seq![Feed::Tick, Feed::Events];
    assert(first[0] == Feed::Tick);
    assert(first[1] == Feed::Events);
}

proof fn lemma_feeds_hold(a: Activity, x: Feed)
    ensures
        feeds_of(a).contains(x) <==> {
            ||| x == Feed::Tick || x == Feed::Events
            ||| a.active_rdp_live && x == Feed::RdpFrames
            ||| a.cards_moving && x == Feed::CardFrames
            ||| a.cursor_blinks && x == Feed::CursorBlink
            ||| a.sidebar_dragging && x == Feed::SidebarDrag
            ||| a.scrollbar_dragging && x == Feed::ScrollbarDrag
            ||| a.terminal_selecting && x == Feed::SelectionDrag
            ||| a.terminal_selecting && a.selection_autoscroll != 0 && x == Feed::SelectionAutoScroll
            ||| a.tab_dragged && x == Feed::TabRelease
        },
{
    let f0 = seq![Feed::Tick, Feed::Events];
    lemma_constant_feeds(x);
    let f1 = f0 + feed_if(a.active_rdp_live, Feed::RdpFrames);
    lemma_feed_if(a.active_rdp_live, Feed::RdpFrames, x);
    lemma_either(f0, feed_if(a.active_rdp_live, Feed::RdpFrames), x);
    let f2 = f1 + feed_if(a.cards_moving, Feed::CardFrames);
    lemma_feed_if(a.cards_moving, Feed::CardFrames, x);
    lemma_either(f1, feed_if(a.cards_moving, Feed::CardFrames), x);
    let f3 = f2 + feed_if(a.cursor_blinks, Feed::CursorBlink);
    lemma_feed_if(a.cursor_blinks, Feed::CursorBlink, x);
    lemma_either(f2, feed_if(a.cursor_blinks, Feed::CursorBlink), x);
    let f4 = f3 + feed_if(a.sidebar_dragging, Feed::SidebarDrag);
    lemma_feed_if(a.sidebar_dragging, Feed::SidebarDrag, x);
    lemma_either(f3, feed_if(a.sidebar_dragging, Feed::SidebarDrag), x);
    let f5 = f4 + feed_if(a.scrollbar_dragging, Feed::ScrollbarDrag);
    lemma_feed_if(a.scrollbar_dragging, Feed::ScrollbarDrag, x);
    lemma_either(f4, feed_if(a.scrollbar_dragging, Feed::ScrollbarDrag), x);
    let f6 = f5 + feed_if(a.terminal_selecting, Feed::SelectionDrag);
    lemma_feed_if(a.terminal_selecting, Feed::SelectionDrag, x);
    lemma_either(f5, feed_if(a.terminal_selecting, Feed::SelectionDrag), x);
    let f7 = f6 + feed_if(a.terminal_selecting && a.selection_autoscroll != 0, Feed::SelectionAutoScroll);
    lemma_feed_if(
        a.terminal_selecting && a.selection_autoscroll != 0,
        Feed::SelectionAutoScroll,
        x,
    );
    lemma_either(
        f6,
        feed_if(a.terminal_selecting && a.selection_autoscroll != 0, Feed::SelectionAutoScroll),
        x,
    );
    let f8 = f7 + feed_if(a.tab_dragged, Feed::TabRelease);
    lemma_feed_if(a.tab_dragged, Feed::TabRelease, x);
    lemma_either(f7, feed_if(a.tab_dragged, Feed::TabRelease), x);
}

/// The window always listens to the clock and to the events, and to the rest only while
/// there is something for it.
pub proof fn law_the_window_listens_to_what_goes_on(a: Activity, x: Feed)
    ensures
        feeds_of(a).contains(x) == (match x {
            Feed::Tick => true,
            Feed::Events => true,
            Feed::RdpFrames => a.active_rdp_live,
            Feed::CardFrames => a.cards_moving,
            Feed::CursorBlink => a.cursor_blinks,
            Feed::SidebarDrag => a.sidebar_dragging,
            Feed::ScrollbarDrag => a.scrollbar_dragging,
            Feed::SelectionDrag => a.terminal_selecting,
            Feed::SelectionAutoScroll => a.terminal_selecting && a.selection_autoscroll != 0,
            Feed::TabRelease => a.tab_dragged,
        }),
{
    lemma_feeds_hold(a, x);
}

/// These commands of the menus do what they are called.
pub proof fn law_these_commands_do_this(flags: Flags, active: Option<SessionId>)
    ensures
        menu_task(flags, MenuCommand::TileVertical, active) == MenuTask::Tile(TileMode::Columns),
        menu_task(flags, MenuCommand::TileHorizontal, active) == MenuTask::Tile(TileMode::Rows),
        menu_task(flags, MenuCommand::TileGrid, active) == MenuTask::Tile(TileMode::Grid),
        menu_task(flags, MenuCommand::Untile, active) == MenuTask::Untile,
        menu_task(flags, MenuCommand::SplitPane, active) == MenuTask::SplitPane,
        menu_task(flags, MenuCommand::SortByName, active) == MenuTask::Sort(ProfileSortKey::Name),
        menu_task(flags, MenuCommand::SortByHost, active) == MenuTask::Sort(ProfileSortKey::Host),
        menu_task(flags, MenuCommand::Connect, active) == MenuTask::Connect,
        menu_task(flags, MenuCommand::Disconnect, active) == MenuTask::Disconnect,
        menu_task(flags, MenuCommand::NewProfile, active) == MenuTask::NewProfile,
        menu_task(flags, MenuCommand::NewGroup, active) == MenuTask::NewGroup,
        menu_task(flags, MenuCommand::SaveProfile, active) == MenuTask::SaveProfile,
        menu_task(flags, MenuCommand::DeleteProfile, active) == MenuTask::DeleteProfile,
        menu_task(flags, MenuCommand::ClearTerminal, active) == MenuTask::ClearTerminal,
        menu_task(flags, MenuCommand::ResizeDefault, active) == MenuTask::Resize(96, 28),
        menu_task(flags, MenuCommand::ResizeWide, active) == MenuTask::Resize(120, 36),
        menu_task(flags, MenuCommand::Sftp, active) == MenuTask::OpenSftp,
        menu_task(flags, MenuCommand::Logging, active) == MenuTask::ToggleLogging,
        menu_task(flags, MenuCommand::ToggleAutoReconnect, active) == MenuTask::SetAutoReconnect(
            !flags.auto_reconnect,
        ),
        active matches Some(id) ==> menu_task(flags, MenuCommand::CloseActiveTab, active)
            == MenuTask::Close(id),
        active is None ==> menu_task(flags, MenuCommand::CloseActiveTab, active)
            == MenuTask::Done && menu_error(MenuCommand::CloseActiveTab, active) is Some,
        active is None <==> menu_error(MenuCommand::Tunnels, active) is Some,
{
}

/// A switch turns over what it is called after, and nothing else; and a panel that is
/// asked for opens.
pub proof fn law_switches_and_panels(flags: Flags, active: Option<SessionId>)
    ensures
        menu_flags(flags, MenuCommand::ToggleSidebar, active) == (Flags {
            sidebar_visible: !flags.sidebar_visible,
            ..flags
        }),
        menu_flags(flags, MenuCommand::ToggleTheme, active) == (Flags {
            dark_mode: !flags.dark_mode,
            ..flags
        }),
        menu_flags(flags, MenuCommand::ToggleAutoReconnect, active) == (Flags {
            auto_reconnect: !flags.auto_reconnect,
            ..flags
        }),
        menu_flags(flags, MenuCommand::ToggleBroadcast, active) == (Flags {
            broadcast_input: !flags.broadcast_input,
            ..flags
        }),
        menu_flags(flags, MenuCommand::ToggleCommandWindow, active).command_window_open
            != flags.command_window_open,
        menu_flags(flags, MenuCommand::About, active).about_open,
        menu_flags(flags, MenuCommand::Snippets, active).snippets_open,
        menu_flags(flags, MenuCommand::KnownHosts, active).known_hosts_open,
        menu_flags(flags, MenuCommand::Options, active).settings_open,
        menu_flags(flags, MenuCommand::Options, active).settings_category
            == SettingsCategory::App,
        menu_flags(flags, MenuCommand::Appearance, active).settings_category
            == SettingsCategory::Appearance,
        menu_flags(flags, MenuCommand::SyncCloud, active).settings_category
            == SettingsCategory::Sync,
        menu_flags(flags, MenuCommand::Tunnels, active).tunnels_open == (active is Some
            || flags.tunnels_open),
        active is Some ==> {
            let after = menu_flags(flags, MenuCommand::CloseActiveTab, active);
            after.terminal_scroll_offset == 0 && after.terminal_selection is None
                && !after.terminal_context_menu
        },
        active is None ==> menu_flags(flags, MenuCommand::CloseActiveTab, active) == flags,
{
}

/// The menus drop down from left to right in the order of the bar.
pub proof fn law_menus_drop_from_left_to_right()
    ensures
        drop_offset(MenuKind::File) == 28,
        drop_offset(MenuKind::Session) == 72,
        drop_offset(MenuKind::Edit) == 138,
        drop_offset(MenuKind::View) == 184,
        drop_offset(MenuKind::Transfer) == 236,
        drop_offset(MenuKind::Script) == 318,
        drop_offset(MenuKind::Help) == 436,
{
}

} // verus!

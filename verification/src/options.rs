//! The pages of the settings: the program, its looks, the terminal and the logs.

use vstd::prelude::*;
use vstd::string::*;

use crate::calendar::{
    default_log_pattern, effective_log_pattern, log_name, now_local_parts, render_log_name_at,
    LocalZone, Moment,
};
use crate::chrome::SettingsCategory;
use crate::highlight::{rules, shipped, RuleSpec};
use crate::i18n::{filled, language_label, t, tf, translated, Language};
use crate::style::Rgba;
use crate::text::{blank, decimal, decimal_of, owned, same, texts};
use crate::theme::{
    active_scheme, color_scheme_index, first_named, font_family, font_label, font_name, font_names,
    font_preset_index, is_family, numbered_color, palette_color, scheme_ansi, scheme_background,
    scheme_foreground, scheme_in_use, scheme_name, scheme_names, ColorScheme, FONT_COUNT,
    SCHEME_COUNT,
};

verus! {

/// How a remote desktop trades looks for speed.
#[derive(Debug, Clone, Copy, PartialEq, Eq, Structural)]
pub enum RdpQuality {
    High,
    Balanced,
    Speed,
}

/// A switch of the settings.
#[derive(Debug, Clone, Copy, PartialEq, Eq, Structural)]
pub enum Switch {
    AutoLog,
    LogPlaintext,
    CopyOnSelect,
    RightClickPaste,
    ConfirmMultilinePaste,
    AutoCheckUpdates,
    AutoAcceptHostKeys,
    RdpClipboard,
}

/// A field of the settings.
#[derive(Debug, Clone, Copy, PartialEq, Eq, Structural)]
pub enum OptionField {
    ConnectTimeout,
    ScrollbackLines,
    LogDir,
    LogNamePattern,
}

/// A button beside the folder of the settings.
#[derive(Debug, Clone, Copy, PartialEq, Eq, Structural)]
pub enum FolderButton {
    Open,
    Change,
    Reset,
}

/// What the pages read.
pub struct OptionsState {
    pub config_dir: String,
    pub profiles_path: String,
    pub settings_path: String,
    pub logs_path: String,
    pub preview_path: String,
    /// The folder is set from outside, and cannot be changed here.
    pub overridden: bool,
    pub config_dir_custom: bool,
    /// A folder that is used from the next start on.
    pub pending_config_dir: Option<String>,
    pub connect_timeout_secs: u32,
    pub scrollback_lines: u32,
    pub auto_check_updates: bool,
    pub auto_accept_host_keys: bool,
    pub rdp_clipboard: bool,
    pub rdp_quality: RdpQuality,
    pub log_dir: String,
    pub log_name_pattern: String,
    pub auto_log_on_connect: bool,
    pub log_plaintext: bool,
    pub copy_on_select: bool,
    pub right_click_paste: bool,
    pub confirm_multiline_paste: bool,
}

/// A line of a page.
pub enum OptionLine {
    Heading(&'static str),
    Note(&'static str),
    /// Something that takes effect at the next start.
    Pending(String),
    Folder { label: &'static str, path: String, buttons: Vec<FolderButton> },
    Path { label: &'static str, path: String },
    Field { label: &'static str, placeholder: String, value: String, which: OptionField },
    Check { label: &'static str, on: bool, switch: Switch },
    Quality { label: &'static str, chosen: RdpQuality },
}

/// What a line says.
pub ghost enum OptionView {
    Heading(Seq<char>),
    Note(Seq<char>),
    Pending(Seq<char>),
    Folder(Seq<char>, Seq<char>, Seq<FolderButton>),
    Path(Seq<char>, Seq<char>),
    Field(Seq<char>, Seq<char>, Seq<char>, OptionField),
    Check(Seq<char>, bool, Switch),
    Quality(Seq<char>, RdpQuality),
}

/// What a line says.
pub open spec fn option_view(line: OptionLine) -> OptionView {
    match line {
        OptionLine::Heading(text) => OptionView::Heading(text@),
        OptionLine::Note(text) => OptionView::Note(text@),
        OptionLine::Pending(text) => OptionView::Pending(text@),
        OptionLine::Folder { label, path, buttons } => OptionView::Folder(
            label@,
            path@,
            buttons@,
        ),
        OptionLine::Path { label, path } => OptionView::Path(label@, path@),
        OptionLine::Field { label, placeholder, value, which } => OptionView::Field(
            label@,
            placeholder@,
            value@,
            which,
        ),
        OptionLine::Check { label, on, switch } => OptionView::Check(label@, on, switch),
        OptionLine::Quality { label, chosen } => OptionView::Quality(label@, chosen),
    }
}

/// What lines say.
pub open spec fn options_view(lines: Seq<OptionLine>) -> Seq<OptionView> {
    lines.map_values(|line: OptionLine| option_view(line))
}

/// What can be done with the folder of the settings: it can always be opened,
/// changed only where it is not set from outside, and set back only where it was
/// changed.
pub open spec fn folder_buttons(overridden: bool, custom: bool) -> Seq<FolderButton> {
    if overridden {
        seq![FolderButton::Open]
    } else if custom {
        seq![FolderButton::Open, FolderButton::Change, FolderButton::Reset]
    } else {
        seq![FolderButton::Open, FolderButton::Change]
    }
}

/// What is said of the folder of the settings.
pub open spec fn config_note(overridden: bool) -> Seq<char> {
    if overridden {
        "由环境变量 ADIT_CONFIG_DIR 指定（重启生效）"@
    } else {
        "指向 Dropbox 等同步盘可在多台机器间同步会话配置（密码仍保存在各机器本地凭据库）。更改后重启 Adit 生效。"@
    }
}

/// The page of the program up to its folders.
pub open spec fn folder_lines(language: Language, s: &OptionsState) -> Seq<OptionView> {
    seq![
        OptionView::Heading(translated(language, "配置目录"@)),
        OptionView::Folder(
            translated(language, "配置目录"@),
            s.config_dir@,
            folder_buttons(s.overridden, s.config_dir_custom),
        ),
        OptionView::Path(translated(language, "会话配置"@), s.profiles_path@),
        OptionView::Path(translated(language, "应用设置"@), s.settings_path@),
        OptionView::Note(translated(language, config_note(s.overridden))),
    ]
}

/// What is pending, where anything is.
pub open spec fn pending_lines(language: Language, pending: Option<String>) -> Seq<OptionView> {
    match pending {
        Some(path) => seq![
            OptionView::Pending(
                filled(translated(language, "重启后生效: {}"@), seq![path@]),
            ),
        ],
        None => Seq::empty(),
    }
}

/// The rest of the page of the program.
pub open spec fn program_lines(language: Language, s: &OptionsState) -> Seq<OptionView> {
    seq![
        OptionView::Field(
            translated(language, "连接超时（秒，0 = 不限）"@),
            "20"@,
            decimal(s.connect_timeout_secs as nat),
            OptionField::ConnectTimeout,
        ),
        OptionView::Field(
            translated(language, "滚动历史行数"@),
            "5000"@,
            decimal(s.scrollback_lines as nat),
            OptionField::ScrollbackLines,
        ),
        OptionView::Check(
            translated(language, "启动时自动检查更新"@),
            s.auto_check_updates,
            Switch::AutoCheckUpdates,
        ),
        OptionView::Check(
            translated(language, "自动信任新主机密钥（不逐个弹窗确认）"@),
            s.auto_accept_host_keys,
            Switch::AutoAcceptHostKeys,
        ),
        OptionView::Check(
            translated(language, "RDP 会话共享剪贴板（仅文本，下次连接生效）"@),
            s.rdp_clipboard,
            Switch::RdpClipboard,
        ),
        OptionView::Quality(translated(language, "RDP 画质"@), s.rdp_quality),
    ]
}

/// The page of the logs.
pub open spec fn log_lines(language: Language, s: &OptionsState) -> Seq<OptionView> {
    seq![
        OptionView::Heading(translated(language, "会话日志"@)),
        OptionView::Field(
            translated(language, "日志目录（留空 = 配置目录下的 logs）"@),
            s.logs_path@,
            s.log_dir@,
            OptionField::LogDir,
        ),
        OptionView::Field(
            translated(language, "日志文件名（留空 = 默认）"@),
            "%N_%Y-%M-%D_%h-%m-%s.log"@,
            s.log_name_pattern@,
            OptionField::LogNamePattern,
        ),
        OptionView::Note(
            translated(language, "可用变量：%N 会话名  %H 主机  %Y 年 %M 月 %D 日  %h 时 %m 分 %s 秒"@),
        ),
        OptionView::Path(translated(language, "预览"@), s.preview_path@),
        OptionView::Check(
            translated(language, "连接后自动开始记录日志"@),
            s.auto_log_on_connect,
            Switch::AutoLog,
        ),
        OptionView::Check(
            translated(language, "记录为纯文本（去除颜色/转义码，便于阅读和 grep）"@),
            s.log_plaintext,
            Switch::LogPlaintext,
        ),
    ]
}

/// The page of the terminal.
pub open spec fn mouse_lines(language: Language, s: &OptionsState) -> Seq<OptionView> {
    seq![
        OptionView::Heading(translated(language, "终端复制 / 粘贴（PuTTY 风格）"@)),
        OptionView::Check(
            translated(language, "选中内容即复制到剪贴板"@),
            s.copy_on_select,
            Switch::CopyOnSelect,
        ),
        OptionView::Check(
            translated(language, "右键直接粘贴（不弹出菜单）"@),
            s.right_click_paste,
            Switch::RightClickPaste,
        ),
        OptionView::Check(
            translated(language, "粘贴多行内容前先确认"@),
            s.confirm_multiline_paste,
            Switch::ConfirmMultilinePaste,
        ),
        OptionView::Note(
            translated(
                language,
                "提示：右键粘贴开启后，清屏 / 回到底部可用工具栏或 Edit 菜单。程序也支持 bracketed paste（应用开启后粘贴不会被自动执行）。"@,
            ),
        ),
    ]
}

fn folder_section(language: Language, s: &OptionsState) -> (r: Vec<OptionLine>)
    ensures
        options_view(r@) == folder_lines(language, s),
{
    let mut buttons: Vec<FolderButton> = vec![FolderButton::Open];
    if !s.overridden {
        buttons.push(FolderButton::Change);
        if s.config_dir_custom {
            buttons.push(FolderButton::Reset);
        }
    }
    assert(buttons@ =~= folder_buttons(s.overridden, s.config_dir_custom));
    let note: &'static str = if s.overridden {
        "由环境变量 ADIT_CONFIG_DIR 指定（重启生效）"
    } else {
        "指向 Dropbox 等同步盘可在多台机器间同步会话配置（密码仍保存在各机器本地凭据库）。更改后重启 Adit 生效。"
    };
    let lines: Vec<OptionLine> = vec![
        OptionLine::Heading(t(language, "配置目录")),
        OptionLine::Folder {
            label: t(language, "配置目录"),
            path: owned(s.config_dir.as_str()),
            buttons,
        },
        OptionLine::Path { label: t(language, "会话配置"), path: owned(s.profiles_path.as_str()) },
        OptionLine::Path { label: t(language, "应用设置"), path: owned(s.settings_path.as_str()) },
        OptionLine::Note(t(language, note)),
    ];
    assert(options_view(lines@) =~= folder_lines(language, s));
    lines
}

fn program_section(language: Language, s: &OptionsState) -> (r: Vec<OptionLine>)
    ensures
        options_view(r@) == program_lines(language, s),
{
    let lines: Vec<OptionLine> = vec![
        OptionLine::Field {
            label: t(language, "连接超时（秒，0 = 不限）"),
            placeholder: owned("20"),
            value: decimal_of(s.connect_timeout_secs as u64),
            which: OptionField::ConnectTimeout,
        },
        OptionLine::Field {
            label: t(language, "滚动历史行数"),
            placeholder: owned("5000"),
            value: decimal_of(s.scrollback_lines as u64),
            which: OptionField::ScrollbackLines,
        },
        OptionLine::Check {
            label: t(language, "启动时自动检查更新"),
            on: s.auto_check_updates,
            switch: Switch::AutoCheckUpdates,
        },
        OptionLine::Check {
            label: t(language, "自动信任新主机密钥（不逐个弹窗确认）"),
            on: s.auto_accept_host_keys,
            switch: Switch::AutoAcceptHostKeys,
        },
        OptionLine::Check {
            label: t(language, "RDP 会话共享剪贴板（仅文本，下次连接生效）"),
            on: s.rdp_clipboard,
            switch: Switch::RdpClipboard,
        },
        OptionLine::Quality { label: t(language, "RDP 画质"), chosen: s.rdp_quality },
    ];
    assert(options_view(lines@) =~= program_lines(language, s));
    lines
}

fn log_section(language: Language, s: &OptionsState) -> (r: Vec<OptionLine>)
    ensures
        options_view(r@) == log_lines(language, s),
{
    let lines: Vec<OptionLine> = vec![
        OptionLine::Heading(t(language, "会话日志")),
        OptionLine::Field {
            label: t(language, "日志目录（留空 = 配置目录下的 logs）"),
            placeholder: owned(s.logs_path.as_str()),
            value: owned(s.log_dir.as_str()),
            which: OptionField::LogDir,
        },
        OptionLine::Field {
            label: t(language, "日志文件名（留空 = 默认）"),
            placeholder: owned(default_log_pattern()),
            value: owned(s.log_name_pattern.as_str()),
            which: OptionField::LogNamePattern,
        },
        OptionLine::Note(t(language, "可用变量：%N 会话名  %H 主机  %Y 年 %M 月 %D 日  %h 时 %m 分 %s 秒")),
        OptionLine::Path { label: t(language, "预览"), path: owned(s.preview_path.as_str()) },
        OptionLine::Check {
            label: t(language, "连接后自动开始记录日志"),
            on: s.auto_log_on_connect,
            switch: Switch::AutoLog,
        },
        OptionLine::Check {
            label: t(language, "记录为纯文本（去除颜色/转义码，便于阅读和 grep）"),
            on: s.log_plaintext,
            switch: Switch::LogPlaintext,
        },
    ];
    assert(options_view(lines@) =~= log_lines(language, s));
    lines
}

fn mouse_section(language: Language, s: &OptionsState) -> (r: Vec<OptionLine>)
    ensures
        options_view(r@) == mouse_lines(language, s),
{
    let lines: Vec<OptionLine> = vec![
        OptionLine::Heading(t(language, "终端复制 / 粘贴（PuTTY 风格）")),
        OptionLine::Check {
            label: t(language, "选中内容即复制到剪贴板"),
            on: s.copy_on_select,
            switch: Switch::CopyOnSelect,
        },
        OptionLine::Check {
            label: t(language, "右键直接粘贴（不弹出菜单）"),
            on: s.right_click_paste,
            switch: Switch::RightClickPaste,
        },
        OptionLine::Check {
            label: t(language, "粘贴多行内容前先确认"),
            on: s.confirm_multiline_paste,
            switch: Switch::ConfirmMultilinePaste,
        },
        OptionLine::Note(
            t(
                language,
                "提示：右键粘贴开启后，清屏 / 回到底部可用工具栏或 Edit 菜单。程序也支持 bracketed paste（应用开启后粘贴不会被自动执行）。",
            ),
        ),
    ];
    assert(options_view(lines@) =~= mouse_lines(language, s));
    lines
}

fn config_section(language: Language, s: &OptionsState) -> (r: Vec<OptionLine>)
    ensures
        options_view(r@) == folder_lines(language, s) + pending_lines(
            language,
            s.pending_config_dir,
        ) + program_lines(language, s),
{
    let mut lines: Vec<OptionLine> = folder_section(language, s);
    let ghost before = lines@;
    match &s.pending_config_dir {
        Some(path) => {
            let args: Vec<String> = vec![owned(path.as_str())];
            assert(texts(args@) =~= seq![path@]);
            lines.push(OptionLine::Pending(tf(language, "重启后生效: {}", &args)));
        },
        None => {},
    }
    assert(options_view(lines@) =~= options_view(before) + pending_lines(
        language,
        s.pending_config_dir,
    ));
    let ghost middle = lines@;
    let mut rest: Vec<OptionLine> = program_section(language, s);
    let ghost after = rest@;
    lines.append(&mut rest);
    assert(options_view(lines@) =~= options_view(middle) + options_view(after));
    lines
}

/// The pages of the program, of the logs and of the terminal.
pub struct OptionsSections {
    pub config: Vec<OptionLine>,
    pub log: Vec<OptionLine>,
    pub mouse: Vec<OptionLine>,
}

/// The pages of the program, of the logs and of the terminal.
pub fn options_sections(language: Language, s: &OptionsState) -> (r: OptionsSections)
    ensures
        options_view(r.config@) == folder_lines(language, s) + pending_lines(
            language,
            s.pending_config_dir,
        ) + program_lines(language, s),
        options_view(r.log@) == log_lines(language, s),
        options_view(r.mouse@) == mouse_lines(language, s),
{
    OptionsSections {
        config: config_section(language, s),
        log: log_section(language, s),
        mouse: mouse_section(language, s),
    }
}

/// The session whose log is previewed: the active one, or a made-up one.
pub open spec fn sample_session(active: Option<(Seq<char>, Seq<char>)>) -> (Seq<char>, Seq<char>) {
    match active {
        Some(session) => session,
        None => ("web01"@, "root@10.0.0.5:22"@),
    }
}

/// The pattern that is on.
pub open spec fn pattern_in_use(chosen: Seq<char>) -> Seq<char> {
    if blank(chosen) {
        "%N_%Y-%M-%D_%h-%m-%s.log"@
    } else {
        chosen
    }
}

/// The name that a log of the active session would get at a moment.
pub open spec fn previewed(pattern: Seq<char>, active: Option<(&str, &str)>, at: Moment) -> Seq<char> {
    let session = sample_session(
        match active {
            Some((title, endpoint)) => Some((title@, endpoint@)),
            None => None,
        },
    );
    log_name(pattern_in_use(pattern), session.0, session.1, at)
}

/// The name that a log of the active session would get at a moment.
pub fn log_preview_at(pattern: &str, active: Option<(&str, &str)>, at: Moment) -> (r: String)
    requires
        at.year > i32::MIN,
    ensures
        r@ == previewed(pattern@, active, at),
{
    let (title, endpoint): (&str, &str) = match active {
        Some((title, endpoint)) => (title, endpoint),
        None => ("web01", "root@10.0.0.5:22"),
    };
    render_log_name_at(effective_log_pattern(pattern).as_str(), title, endpoint, at)
}

/// The name that a log of the active session would get now.
pub fn log_preview(zone: &mut LocalZone, pattern: &str, active: Option<(&str, &str)>) -> (r: String)
    requires
        old(zone).wf(),
    ensures
        exists|at: Moment| at.wf() && r@ == #[trigger] previewed(pattern@, active, at),
        final(zone).used_from(old(zone)),
{
    let at: Moment = now_local_parts(zone);
    let out: String = log_preview_at(pattern, active, at);
    assert(out@ == previewed(pattern@, active, at));
    out
}

// Looks.

/// The button of a font.
pub struct FontButton {
    pub index: u8,
    pub label: &'static str,
    /// The font that the label is set in; none is the system's fixed-width one.
    pub family: Option<&'static str>,
    pub selected: bool,
}

/// The button of a colour scheme.
pub struct SchemeButton {
    pub index: u8,
    pub name: &'static str,
    pub ground: Rgba,
    pub edge: Rgba,
    pub selected: bool,
}

/// The button of a highlight rule.
pub struct HighlightButton {
    pub id: &'static str,
    pub mark: &'static str,
    pub ansi: u8,
    /// What the rule paints, in the scheme that is on.
    pub swatch: Rgba,
    pub on: bool,
}

/// The page of the looks.
pub struct AppearanceSection {
    pub fonts: Vec<FontButton>,
    pub size: String,
    pub schemes: Vec<SchemeButton>,
    pub highlights: Vec<HighlightButton>,
    /// The preview: a line in the scheme's own colours, and its sixteen numbered ones.
    pub sample: &'static str,
    pub ground: Rgba,
    pub text: Rgba,
    pub swatches: Vec<Rgba>,
}

/// Whether a rule is on: as it was set, or else as it ships.
pub open spec fn rule_on(overrides: Seq<(String, bool)>, id: Seq<char>, shipped: bool) -> bool
    decreases overrides.len(),
{
    if overrides.len() == 0 {
        shipped
    } else if overrides[0].0@ == id {
        overrides[0].1
    } else {
        rule_on(overrides.drop_first(), id, shipped)
    }
}

/// Whether a rule is on: as it was set, or else as it ships.
pub fn rule_is_on(overrides: &Vec<(String, bool)>, id: &str, shipped: bool) -> (r: bool)
    ensures
        r == rule_on(overrides@, id@, shipped),
{
    let mut i: usize = 0;
    assert(overrides@.skip(0) =~= overrides@);
    while i < overrides.len()
        invariant
            i <= overrides.len(),
            rule_on(overrides@, id@, shipped) == rule_on(
                overrides@.skip(i as int),
                id@,
                shipped,
            ),
        decreases overrides.len() - i,
    {
        if same(overrides[i].0.as_str(), id) {
            return overrides[i].1;
        }
        assert(overrides@.skip(i as int).drop_first() =~= overrides@.skip(i + 1));
        i += 1;
    }
    shipped
}

proof fn lemma_rule_set(
    overrides: Seq<(String, bool)>,
    at: int,
    entry: (String, bool),
    id: Seq<char>,
    shipped: bool,
)
    requires
        0 <= at < overrides.len(),
        overrides[at].0@ == entry.0@,
        forall|j: int| 0 <= j < at ==> (#[trigger] overrides[j]).0@ != entry.0@,
    ensures
        rule_on(overrides.update(at, entry), id, shipped) == if id == entry.0@ {
            entry.1
        } else {
            rule_on(overrides, id, shipped)
        },
    decreases overrides.len(),
{
    let after = overrides.update(at, entry);
    if at > 0 {
        let rest = overrides.drop_first();
        assert forall|j: int| 0 <= j < at - 1 implies (#[trigger] rest[j]).0@ != entry.0@ by {
            assert(rest[j] == overrides[j + 1]);
        }
        assert(overrides[0].0@ != entry.0@);
        lemma_rule_set(rest, at - 1, entry, id, shipped);
        assert(after.drop_first() =~= rest.update(at - 1, entry));
    } else {
        assert(after.drop_first() =~= overrides.drop_first());
    }
}

proof fn lemma_rule_added(
    overrides: Seq<(String, bool)>,
    entry: (String, bool),
    id: Seq<char>,
    shipped: bool,
)
    requires
        forall|j: int| 0 <= j < overrides.len() ==> (#[trigger] overrides[j]).0@ != entry.0@,
    ensures
        rule_on(overrides.push(entry), id, shipped) == if id == entry.0@ {
            entry.1
        } else {
            rule_on(overrides, id, shipped)
        },
    decreases overrides.len(),
{
    let after = overrides.push(entry);
    if overrides.len() > 0 {
        let rest = overrides.drop_first();
        assert forall|j: int| 0 <= j < rest.len() implies (#[trigger] rest[j]).0@ != entry.0@ by {
            assert(rest[j] == overrides[j + 1]);
        }
        assert(overrides[0].0@ != entry.0@);
        lemma_rule_added(rest, entry, id, shipped);
        assert(after.drop_first() =~= rest.push(entry));
    } else {
        assert(after.drop_first() =~= overrides);
        assert(after[0] == entry);
    }
}

/// Turns a rule over: it is on where it was off, and every other rule stays as it is.
pub fn toggle_rule(overrides: &mut Vec<(String, bool)>, id: &str, shipped: bool)
    ensures
        forall|other: Seq<char>, ships: bool| #[trigger]
            rule_on(final(overrides)@, other, ships) == if other == id@ {
                !rule_on(old(overrides)@, id@, shipped)
            } else {
                rule_on(old(overrides)@, other, ships)
            },
{
    let on: bool = !rule_is_on(overrides, id, shipped);
    let ghost before = overrides@;
    let entry: (String, bool) = (owned(id), on);
    let mut i: usize = 0;
    while i < overrides.len()
        invariant
            i <= overrides.len(),
            overrides@ == before,
            before == old(overrides)@,
            entry.0@ == id@,
            entry.1 == on,
            on == !rule_on(before, id@, shipped),
            forall|j: int| 0 <= j < i ==> (#[trigger] before[j]).0@ != id@,
        decreases overrides.len() - i,
    {
        if same(overrides[i].0.as_str(), id) {
            overrides.set(i, entry);
            proof {
                assert forall|other: Seq<char>, ships: bool| #[trigger]
                    rule_on(overrides@, other, ships) == if other == id@ {
                        on
                    } else {
                        rule_on(before, other, ships)
                    } by {
                    lemma_rule_set(before, i as int, entry, other, ships);
                }
            }
            return;
        }
        i += 1;
    }
    overrides.push(entry);
    proof {
        assert forall|other: Seq<char>, ships: bool| #[trigger]
            rule_on(overrides@, other, ships) == if other == id@ {
                on
            } else {
                rule_on(before, other, ships)
            } by {
            lemma_rule_added(before, entry, other, ships);
        }
    }
}

/// Whether these are the buttons of the fonts, the one with this number selected.
pub open spec fn font_buttons(buttons: Seq<FontButton>, current: int) -> bool {
    &&& buttons.len() == FONT_COUNT
    &&& forall|i: int|
        0 <= i < FONT_COUNT ==> (#[trigger] buttons[i]).index == i && buttons[i].label@ == font_name(
            i,
        ) && is_family(buttons[i].family, i) && buttons[i].selected == (i == current)
}

/// Whether these are the buttons of the colour schemes, the one with this number
/// selected: each shows its ground, edged in its green.
pub open spec fn scheme_buttons(buttons: Seq<SchemeButton>, current: int) -> bool {
    &&& buttons.len() == SCHEME_COUNT
    &&& forall|i: int|
        0 <= i < SCHEME_COUNT ==> (#[trigger] buttons[i]).index == i && buttons[i].name@
            == scheme_name(i) && buttons[i].ground == scheme_background(i) && buttons[i].edge
            == scheme_ansi(i)[2] && buttons[i].selected == (i == current)
}

/// Whether these are the buttons of the rules that ship, each marked where it is on and
/// with the colour that it paints.
pub open spec fn highlight_buttons(
    buttons: Seq<HighlightButton>,
    scheme: int,
    specs: Seq<RuleSpec>,
    overrides: Seq<(String, bool)>,
) -> bool {
    &&& buttons.len() == specs.len()
    &&& forall|i: int|
        0 <= i < specs.len() ==> {
            let on = rule_on(overrides, specs[i].id@, specs[i].enabled);
            &&& (#[trigger] buttons[i]).id@ == specs[i].id@
            &&& buttons[i].ansi == specs[i].ansi
            &&& buttons[i].swatch == numbered_color(scheme, specs[i].ansi as int)
            &&& buttons[i].on == on
            &&& buttons[i].mark@ == if on {
                "✓"@
            } else {
                " "@
            }
        }
}

fn font_button_list(current: u8) -> (r: Vec<FontButton>)
    ensures
        font_buttons(r@, current as int),
{
    let mut out: Vec<FontButton> = Vec::new();
    let mut i: u8 = 0;
    while i < FONT_COUNT
        invariant
            i <= FONT_COUNT,
            out@.len() == i,
            forall|j: int|
                0 <= j < i ==> (#[trigger] out@[j]).index == j && out@[j].label@ == font_name(j)
                    && is_family(out@[j].family, j) && out@[j].selected == (j == current),
        decreases FONT_COUNT - i,
    {
        out.push(
            FontButton {
                index: i,
                label: font_label(i),
                family: font_family(i),
                selected: i == current,
            },
        );
        i += 1;
    }
    out
}

fn scheme_button_list(current: u8) -> (r: Vec<SchemeButton>)
    ensures
        scheme_buttons(r@, current as int),
{
    let mut out: Vec<SchemeButton> = Vec::new();
    let mut i: u8 = 0;
    while i < SCHEME_COUNT
        invariant
            i <= SCHEME_COUNT,
            out@.len() == i,
            forall|j: int|
                0 <= j < i ==> (#[trigger] out@[j]).index == j && out@[j].name@ == scheme_name(j)
                    && out@[j].ground == scheme_background(j) && out@[j].edge == scheme_ansi(j)[2]
                    && out@[j].selected == (j == current),
        decreases SCHEME_COUNT - i,
    {
        let scheme: ColorScheme = active_scheme(i);
        proof {
            crate::theme::law_every_scheme_has_sixteen_colors(i as int);
        }
        out.push(
            SchemeButton {
                index: i,
                name: scheme.name,
                ground: scheme.background,
                edge: scheme.ansi[2],
                selected: i == current,
            },
        );
        i += 1;
    }
    out
}

fn highlight_button_list(scheme: u8, overrides: &Vec<(String, bool)>) -> (r: Vec<HighlightButton>)
    ensures
        exists|specs: Seq<RuleSpec>|
            #[trigger] shipped(specs) && highlight_buttons(
                r@,
                scheme_in_use(scheme),
                specs,
                overrides@,
            ),
{
    let specs: Vec<RuleSpec> = rules();
    let mut out: Vec<HighlightButton> = Vec::new();
    let mut i: usize = 0;
    while i < specs.len()
        invariant
            i <= specs.len(),
            out@.len() == i,
            forall|j: int|
                0 <= j < i ==> {
                    let on = rule_on(overrides@, specs@[j].id@, specs@[j].enabled);
                    &&& (#[trigger] out@[j]).id@ == specs@[j].id@
                    &&& out@[j].ansi == specs@[j].ansi
                    &&& out@[j].swatch == numbered_color(
                        scheme_in_use(scheme),
                        specs@[j].ansi as int,
                    )
                    &&& out@[j].on == on
                    &&& out@[j].mark@ == if on {
                        "✓"@
                    } else {
                        " "@
                    }
                },
        decreases specs.len() - i,
    {
        let on: bool = rule_is_on(overrides, specs[i].id, specs[i].enabled);
        out.push(
            HighlightButton {
                id: specs[i].id,
                mark: if on {
                    "✓"
                } else {
                    " "
                },
                ansi: specs[i].ansi,
                swatch: palette_color(scheme, specs[i].ansi),
                on,
            },
        );
        i += 1;
    }
    assert(shipped(specs@) && highlight_buttons(
        out@,
        scheme_in_use(scheme),
        specs@,
        overrides@,
    ));
    out
}

/// Whether a page shows the rules and its preview in a scheme.
pub open spec fn in_scheme(
    page: &AppearanceSection,
    scheme: int,
    overrides: Seq<(String, bool)>,
) -> bool {
    &&& page.ground == scheme_background(scheme)
    &&& page.text == scheme_foreground(scheme)
    &&& page.swatches@ == scheme_ansi(scheme)
    &&& exists|specs: Seq<RuleSpec>|
        #[trigger] shipped(specs) && highlight_buttons(
            page.highlights@,
            scheme,
            specs,
            overrides,
        )
}

/// The page of the looks: the fonts, the size, the colour schemes and the rules.
pub fn appearance_section(
    family: &str,
    font_size: u32,
    color_scheme: &str,
    overrides: &Vec<(String, bool)>,
) -> (r: AppearanceSection)
    ensures
        exists|current: int|
            first_named(font_names(), FONT_COUNT as int, family@, current)
                && #[trigger] font_buttons(r.fonts@, current),
        r.size@ == decimal(font_size as nat) + " px"@,
        exists|current: int|
            first_named(scheme_names(), SCHEME_COUNT as int, color_scheme@, current)
                && #[trigger] scheme_buttons(r.schemes@, current) && in_scheme(
                &r,
                current,
                overrides@,
            ),
        r.sample@ == "adit@host:~/project$  ls -la  AaBbCc 0123"@,
{
    let font: u8 = font_preset_index(family);
    let scheme: u8 = color_scheme_index(color_scheme);
    let mut size: String = decimal_of(font_size as u64);
    size.append(" px");
    let active: ColorScheme = active_scheme(scheme);
    let fonts: Vec<FontButton> = font_button_list(font);
    let schemes: Vec<SchemeButton> = scheme_button_list(scheme);
    let out: AppearanceSection = AppearanceSection {
        fonts,
        size,
        schemes,
        highlights: highlight_button_list(scheme, overrides),
        sample: "adit@host:~/project$  ls -la  AaBbCc 0123",
        ground: active.background,
        text: active.foreground,
        swatches: active.ansi,
    };
    assert(first_named(font_names(), FONT_COUNT as int, family@, font as int)
        && font_buttons(out.fonts@, font as int));
    assert(first_named(scheme_names(), SCHEME_COUNT as int, color_scheme@, scheme as int)
        && scheme_buttons(out.schemes@, scheme as int) && in_scheme(
        &out,
        scheme as int,
        overrides@,
    ));
    out
}

// The dialog around the pages.

/// What a page is called.
pub open spec fn category_name(category: SettingsCategory) -> Seq<char> {
    match category {
        SettingsCategory::App => "应用"@,
        SettingsCategory::Appearance => "外观"@,
        SettingsCategory::Terminal => "终端"@,
        SettingsCategory::Logging => "日志"@,
        SettingsCategory::Sync => "同步与云"@,
    }
}

/// What a page is called.
pub fn category_label(category: SettingsCategory) -> (r: &'static str)
    ensures
        r@ == category_name(category),
{
    match category {
        SettingsCategory::App => "应用",
        SettingsCategory::Appearance => "外观",
        SettingsCategory::Terminal => "终端",
        SettingsCategory::Logging => "日志",
        SettingsCategory::Sync => "同步与云",
    }
}

/// The pages in their order.
pub open spec fn categories() -> Seq<SettingsCategory> {
    seq![
        SettingsCategory::App,
        SettingsCategory::Appearance,
        SettingsCategory::Terminal,
        SettingsCategory::Logging,
        SettingsCategory::Sync,
    ]
}

/// An item of the list of pages.
pub struct RailItem {
    pub category: SettingsCategory,
    pub label: &'static str,
    pub selected: bool,
}

/// The dialog of the settings, around the page that is chosen.
pub struct SettingsDialog {
    pub rail: Vec<RailItem>,
    /// What the languages call themselves, and which is on; only on the page of
    /// the program.
    pub languages: Option<((&'static str, bool), (&'static str, bool))>,
}

fn rail_item(language: Language, category: SettingsCategory, chosen: SettingsCategory) -> (r:
    RailItem)
    ensures
        r.category == category,
        r.label@ == translated(language, category_name(category)),
        r.selected == (category == chosen),
{
    RailItem {
        category,
        label: t(language, category_label(category)),
        selected: category == chosen,
    }
}

/// The dialog of the settings, around the page that is chosen.
pub fn settings_dialog_overlay(language: Language, chosen: SettingsCategory) -> (r: SettingsDialog)
    ensures
        r.rail@.len() == categories().len(),
        forall|i: int|
            0 <= i < categories().len() ==> (#[trigger] r.rail@[i]).category == categories()[i]
                && r.rail@[i].label@ == translated(language, category_name(categories()[i]))
                && r.rail@[i].selected == (categories()[i] == chosen),
        r.languages is Some == (chosen == SettingsCategory::App),
        r.languages matches Some((zh, en)) ==> zh.0@ == "中文"@ && zh.1 == (language
            == Language::Zh) && en.0@ == "English"@ && en.1 == (language == Language::En),
{
    let rail: Vec<RailItem> = vec![
        rail_item(language, SettingsCategory::App, chosen),
        rail_item(language, SettingsCategory::Appearance, chosen),
        rail_item(language, SettingsCategory::Terminal, chosen),
        rail_item(language, SettingsCategory::Logging, chosen),
        rail_item(language, SettingsCategory::Sync, chosen),
    ];
    SettingsDialog {
        rail,
        languages: if chosen == SettingsCategory::App {
            Some(
                (
                    (language_label(Language::Zh), language == Language::Zh),
                    (language_label(Language::En), language == Language::En),
                ),
            )
        } else {
            None
        },
    }
}

/// The folder of the settings can be set back only where it can be changed, and
/// never where it is set from outside.
pub proof fn law_an_overridden_folder_is_fixed(custom: bool)
    ensures
        folder_buttons(true, custom) == seq![FolderButton::Open],
        folder_buttons(false, custom).contains(FolderButton::Change),
{
    assert(folder_buttons(false, custom)[1] == FolderButton::Change);
}

/// A rule is as it was set first, and as it ships where it was not set.
pub proof fn law_a_rule_is_as_it_was_set(
    overrides: Seq<(String, bool)>,
    id: Seq<char>,
    ships: bool,
    k: int,
)
    requires
        0 <= k <= overrides.len(),
        forall|i: int| 0 <= i < k ==> (#[trigger] overrides[i]).0@ != id,
        k < overrides.len() ==> overrides[k].0@ == id,
    ensures
        k < overrides.len() ==> rule_on(overrides, id, ships) == overrides[k].1,
        k == overrides.len() ==> rule_on(overrides, id, ships) == ships,
    decreases k,
{
    if k > 0 {
        let rest = overrides.drop_first();
        assert(overrides[0].0@ != id);
        assert forall|i: int| 0 <= i < k - 1 implies (#[trigger] rest[i]).0@ != id by {
            assert(rest[i] == overrides[i + 1]);
        }
        if k < overrides.len() {
            assert(rest[k - 1] == overrides[k]);
        }
        law_a_rule_is_as_it_was_set(rest, id, ships, k - 1);
    }
}

/// A pattern that was chosen is on, and the one that ships where none was.
pub proof fn law_a_chosen_pattern_is_on(chosen: Seq<char>)
    ensures
        !blank(chosen) ==> pattern_in_use(chosen) == chosen,
        blank(chosen) ==> pattern_in_use(chosen) == "%N_%Y-%M-%D_%h-%m-%s.log"@,
{
}

/// Every font and every scheme has a button, and the one in use is marked.
pub proof fn law_what_is_in_use_is_marked(
    fonts: Seq<FontButton>,
    schemes: Seq<SchemeButton>,
    font: int,
    scheme: int,
    i: int,
)
    requires
        font_buttons(fonts, font),
        scheme_buttons(schemes, scheme),
    ensures
        0 <= i < FONT_COUNT ==> fonts[i].index == i && fonts[i].label@ == font_name(i) && (
        fonts[i].selected <==> i == font),
        0 <= i < SCHEME_COUNT ==> schemes[i].index == i && schemes[i].name@ == scheme_name(i)
            && schemes[i].ground == scheme_background(i) && (schemes[i].selected <==> i
            == scheme),
{
}

/// Every rule that ships has a button, which shows whether it is on and the colour that
/// it paints.
pub proof fn law_a_rule_shows_whether_it_is_on(
    buttons: Seq<HighlightButton>,
    scheme: int,
    specs: Seq<RuleSpec>,
    overrides: Seq<(String, bool)>,
    i: int,
)
    requires
        highlight_buttons(buttons, scheme, specs, overrides),
        0 <= i < specs.len(),
    ensures
        buttons.len() == specs.len(),
        buttons[i].id@ == specs[i].id@,
        buttons[i].on == rule_on(overrides, specs[i].id@, specs[i].enabled),
        buttons[i].swatch == numbered_color(scheme, specs[i].ansi as int),
        buttons[i].ansi == specs[i].ansi,
{
}

} // verus!

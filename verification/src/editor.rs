//! The session editor: the fields that each kind of session has, the folder
//! picker, and what is folded away.

use vstd::prelude::*;
use vstd::string::*;

use crate::form::ProfileForm;
use crate::hosts::{find_icon, icon_color, icon_glyph, icon_named};
use crate::i18n::{filled, t, tf, translated, Language};
use crate::profile::{AuthMethod, Environment, Protocol};
use crate::style::{opaque, rgb, Rgba};
use crate::text::{
    blank, contains_text, decimal, decimal_of, holds, is_blank, lowercase, lowercase_of, occurs,
    owned, same, texts, trim, trimmed,
};

verus! {

/// A field of the editor.
#[derive(Debug, Clone, Copy, PartialEq, Eq, Structural)]
pub enum FormField {
    Name,
    Host,
    Port,
    Username,
    Password,
    Passphrase,
    IdentityFile,
    Jumps,
    StartupCommand,
    TerminalType,
    AccentColor,
    Label,
}

/// What a field holds.
pub open spec fn form_value(form: &ProfileForm, field: FormField) -> Seq<char> {
    match field {
        FormField::Name => form.name@,
        FormField::Host => form.host@,
        FormField::Port => form.port@,
        FormField::Username => form.username@,
        FormField::Password => form.password@,
        FormField::Passphrase => form.passphrase@,
        FormField::IdentityFile => form.identity_file@,
        FormField::Jumps => form.jumps@,
        FormField::StartupCommand => form.startup_command@,
        FormField::TerminalType => form.terminal_type@,
        FormField::AccentColor => form.accent_color@,
        FormField::Label => form.label@,
    }
}

fn value_of(form: &ProfileForm, field: FormField) -> (r: String)
    ensures
        r@ == form_value(form, field),
{
    match field {
        FormField::Name => owned(form.name.as_str()),
        FormField::Host => owned(form.host.as_str()),
        FormField::Port => owned(form.port.as_str()),
        FormField::Username => owned(form.username.as_str()),
        FormField::Password => owned(form.password.as_str()),
        FormField::Passphrase => owned(form.passphrase.as_str()),
        FormField::IdentityFile => owned(form.identity_file.as_str()),
        FormField::Jumps => owned(form.jumps.as_str()),
        FormField::StartupCommand => owned(form.startup_command.as_str()),
        FormField::TerminalType => owned(form.terminal_type.as_str()),
        FormField::AccentColor => owned(form.accent_color.as_str()),
        FormField::Label => owned(form.label.as_str()),
    }
}

/// How a field behaves.
#[derive(Debug, Clone, Copy, PartialEq, Eq, Structural)]
pub struct FieldMode {
    /// Enter connects.
    pub submits: bool,
    /// What is typed is not shown.
    pub hidden: bool,
    /// A file can be picked for it.
    pub browse: bool,
}

/// A line of the editor.
pub enum EditorLine {
    Field {
        label: &'static str,
        placeholder: &'static str,
        value: String,
        which: FormField,
        mode: FieldMode,
    },
    Note(&'static str),
    /// The choice of what is spoken.
    Protocols(Protocol),
    /// The choice of an icon.
    Icons(String),
    /// The folder picker.
    Groups,
    /// The choice of how to prove who one is.
    Methods(AuthMethod),
    /// The choice of a kind of machine.
    Environments(Environment),
    /// Whether the connection outlives its shell.
    Keep { label: &'static str, on: bool },
    /// What is folded away.
    Advanced,
}

/// What a line says.
pub ghost enum EditorView {
    Field(Seq<char>, Seq<char>, Seq<char>, FormField, FieldMode),
    Note(Seq<char>),
    Protocols(Protocol),
    Icons(Seq<char>),
    Groups,
    Methods(AuthMethod),
    Environments(Environment),
    Keep(Seq<char>, bool),
    Advanced,
}

/// What a line says.
pub open spec fn editor_line_view(line: EditorLine) -> EditorView {
    match line {
        EditorLine::Field { label, placeholder, value, which, mode } => EditorView::Field(
            label@,
            placeholder@,
            value@,
            which,
            mode,
        ),
        EditorLine::Note(text) => EditorView::Note(text@),
        EditorLine::Protocols(protocol) => EditorView::Protocols(protocol),
        EditorLine::Icons(key) => EditorView::Icons(key@),
        EditorLine::Groups => EditorView::Groups,
        EditorLine::Methods(method) => EditorView::Methods(method),
        EditorLine::Environments(environment) => EditorView::Environments(environment),
        EditorLine::Keep { label, on } => EditorView::Keep(label@, on),
        EditorLine::Advanced => EditorView::Advanced,
    }
}

/// What lines say.
pub open spec fn editor_view(lines: Seq<EditorLine>) -> Seq<EditorView> {
    lines.map_values(|line: EditorLine| editor_line_view(line))
}

fn field(
    form: &ProfileForm,
    label: &'static str,
    placeholder: &'static str,
    which: FormField,
    mode: FieldMode,
) -> (r: EditorLine)
    ensures
        editor_line_view(r) == EditorView::Field(
            label@,
            placeholder@,
            form_value(form, which),
            which,
            mode,
        ),
{
    EditorLine::Field { label, placeholder, value: value_of(form, which), which, mode }
}

/// What every session has.
pub open spec fn common_lines(form: &ProfileForm) -> Seq<EditorView> {
    seq![
        EditorView::Protocols(form.protocol),
        EditorView::Icons(form.icon@),
        EditorView::Groups,
        EditorView::Field(
            "名称"@,
            "会话名称"@,
            form_value(form, FormField::Name),
            FormField::Name,
            FieldMode { submits: false, hidden: false, browse: false },
        ),
    ]
}

/// Where a session over SSH leads, and how it proves who it is.
pub open spec fn address_lines(form: &ProfileForm) -> Seq<EditorView> {
    seq![
        EditorView::Field(
            "主机"@,
            "10.0.0.5"@,
            form_value(form, FormField::Host),
            FormField::Host,
            FieldMode { submits: true, hidden: false, browse: false },
        ),
        EditorView::Field(
            "端口"@,
            "22"@,
            form_value(form, FormField::Port),
            FormField::Port,
            FieldMode { submits: false, hidden: false, browse: false },
        ),
        EditorView::Field(
            "用户名"@,
            "root"@,
            form_value(form, FormField::Username),
            FormField::Username,
            FieldMode { submits: false, hidden: false, browse: false },
        ),
        EditorView::Methods(form.auth_method),
    ]
}

/// The secret of a session that proves itself by a password.
pub open spec fn password_lines(form: &ProfileForm) -> Seq<EditorView> {
    seq![
        EditorView::Field(
            "密码（加密保存，可随配置目录同步）"@,
            "连接密码"@,
            form_value(form, FormField::Password),
            FormField::Password,
            FieldMode { submits: true, hidden: true, browse: false },
        ),
    ]
}

/// The secret of a session that proves itself by a key.
pub open spec fn passphrase_lines(form: &ProfileForm) -> Seq<EditorView> {
    seq![
        EditorView::Field(
            "密钥 passphrase（可选，加密保存；私钥加密时填写）"@,
            "私钥 passphrase"@,
            form_value(form, FormField::Passphrase),
            FormField::Passphrase,
            FieldMode { submits: false, hidden: true, browse: false },
        ),
    ]
}

/// The key of a session over SSH, and what is folded away.
pub open spec fn key_lines(form: &ProfileForm) -> Seq<EditorView> {
    seq![
        EditorView::Field(
            "密钥文件（可选，支持 OpenSSH 与 PuTTY .ppk）"@,
            "~/.ssh/id_ed25519"@,
            form_value(form, FormField::IdentityFile),
            FormField::IdentityFile,
            FieldMode { submits: false, hidden: false, browse: true },
        ),
        EditorView::Advanced,
    ]
}

/// What a shell of this machine has.
pub open spec fn shell_lines(form: &ProfileForm) -> Seq<EditorView> {
    seq![
        EditorView::Field(
            "Shell 程序（可选，留空用系统默认）"@,
            "powershell.exe / cmd.exe / bash"@,
            form_value(form, FormField::IdentityFile),
            FormField::IdentityFile,
            FieldMode { submits: true, hidden: false, browse: false },
        ),
    ]
}

/// What a serial line has.
pub open spec fn serial_lines(form: &ProfileForm) -> Seq<EditorView> {
    seq![
        EditorView::Field(
            "串口号"@,
            "COM3"@,
            form_value(form, FormField::Host),
            FormField::Host,
            FieldMode { submits: true, hidden: false, browse: false },
        ),
        EditorView::Field(
            "波特率（8N1，无流控）"@,
            "115200"@,
            form_value(form, FormField::IdentityFile),
            FormField::IdentityFile,
            FieldMode { submits: true, hidden: false, browse: false },
        ),
    ]
}

/// What a telnet session has: no secret, since nothing would send it.
pub open spec fn telnet_lines(language: Language, form: &ProfileForm) -> Seq<EditorView> {
    seq![
        EditorView::Field(
            "主机"@,
            "10.0.0.5"@,
            form_value(form, FormField::Host),
            FormField::Host,
            FieldMode { submits: true, hidden: false, browse: false },
        ),
        EditorView::Field(
            "端口"@,
            "23"@,
            form_value(form, FormField::Port),
            FormField::Port,
            FieldMode { submits: false, hidden: false, browse: false },
        ),
        EditorView::Note(
            translated(
                language,
                "Telnet 明文传输，用户名和密码都在终端里按提示输入，不经过凭据库。仅建议用于交换机、IPMI、串口服务器等只支持 telnet 的设备。"@,
            ),
        ),
    ]
}

/// What a remote desktop has.
pub open spec fn rdp_lines(form: &ProfileForm) -> Seq<EditorView> {
    seq![
        EditorView::Field(
            "主机"@,
            "10.0.0.5"@,
            form_value(form, FormField::Host),
            FormField::Host,
            FieldMode { submits: true, hidden: false, browse: false },
        ),
        EditorView::Field(
            "端口"@,
            "3389"@,
            form_value(form, FormField::Port),
            FormField::Port,
            FieldMode { submits: false, hidden: false, browse: false },
        ),
        EditorView::Field(
            "用户名"@,
            "Administrator"@,
            form_value(form, FormField::Username),
            FormField::Username,
            FieldMode { submits: false, hidden: false, browse: false },
        ),
        EditorView::Note(
            "原生 RDP（NLA/CredSSP）。用户名可用 域\\用户 形式指定域。微软账户请填本机账户名（远端 whoami 反斜杠后的那段，如 willz），不要填邮箱——邮箱能通过认证但无法登录桌面。连接时在弹出的密码框输入密码（可勾选记住，存入系统凭据）。"@,
        ),
    ]
}

/// The one secret that a way to prove who one is needs; an agent needs none.
pub open spec fn secret_lines(form: &ProfileForm) -> Seq<EditorView> {
    match form.auth_method {
        AuthMethod::Password => password_lines(form),
        AuthMethod::Key | AuthMethod::Auto => passphrase_lines(form),
        AuthMethod::Agent => Seq::empty(),
    }
}

/// What the kind of a session adds. Files are transferred over SSH, so both have
/// the same fields.
pub open spec fn protocol_lines(language: Language, form: &ProfileForm) -> Seq<EditorView> {
    match form.protocol {
        Protocol::Ssh | Protocol::Sftp => address_lines(form) + secret_lines(form,
        ) + key_lines(form),
        Protocol::LocalShell => shell_lines(form),
        Protocol::Serial => serial_lines(form),
        Protocol::Telnet => telnet_lines(language, form),
        Protocol::Rdp => rdp_lines(form),
    }
}

fn common_section(form: &ProfileForm) -> (r: Vec<EditorLine>)
    ensures
        editor_view(r@) == common_lines(form),
{
    let lines: Vec<EditorLine> = vec![
        EditorLine::Protocols(form.protocol),
        EditorLine::Icons(owned(form.icon.as_str())),
        EditorLine::Groups,
        field(
            form,
            "名称",
            "会话名称",
            FormField::Name,
            FieldMode { submits: false, hidden: false, browse: false },
        ),
    ];
    assert(editor_view(lines@) =~= common_lines(form));
    lines
}

fn address_section(form: &ProfileForm) -> (r: Vec<EditorLine>)
    ensures
        editor_view(r@) == address_lines(form),
{
    let lines: Vec<EditorLine> = vec![
        field(
            form,
            "主机",
            "10.0.0.5",
            FormField::Host,
            FieldMode { submits: true, hidden: false, browse: false },
        ),
        field(
            form,
            "端口",
            "22",
            FormField::Port,
            FieldMode { submits: false, hidden: false, browse: false },
        ),
        field(
            form,
            "用户名",
            "root",
            FormField::Username,
            FieldMode { submits: false, hidden: false, browse: false },
        ),
        EditorLine::Methods(form.auth_method),
    ];
    assert(editor_view(lines@) =~= address_lines(form));
    lines
}

fn password_section(form: &ProfileForm) -> (r: Vec<EditorLine>)
    ensures
        editor_view(r@) == password_lines(form),
{
    let lines: Vec<EditorLine> = vec![
        field(
            form,
            "密码（加密保存，可随配置目录同步）",
            "连接密码",
            FormField::Password,
            FieldMode { submits: true, hidden: true, browse: false },
        ),
    ];
    assert(editor_view(lines@) =~= password_lines(form));
    lines
}

fn passphrase_section(form: &ProfileForm) -> (r: Vec<EditorLine>)
    ensures
        editor_view(r@) == passphrase_lines(form),
{
    let lines: Vec<EditorLine> = vec![
        field(
            form,
            "密钥 passphrase（可选，加密保存；私钥加密时填写）",
            "私钥 passphrase",
            FormField::Passphrase,
            FieldMode { submits: false, hidden: true, browse: false },
        ),
    ];
    assert(editor_view(lines@) =~= passphrase_lines(form));
    lines
}

fn key_section(form: &ProfileForm) -> (r: Vec<EditorLine>)
    ensures
        editor_view(r@) == key_lines(form),
{
    let lines: Vec<EditorLine> = vec![
        field(
            form,
            "密钥文件（可选，支持 OpenSSH 与 PuTTY .ppk）",
            "~/.ssh/id_ed25519",
            FormField::IdentityFile,
            FieldMode { submits: false, hidden: false, browse: true },
        ),
        EditorLine::Advanced,
    ];
    assert(editor_view(lines@) =~= key_lines(form));
    lines
}

fn shell_section(form: &ProfileForm) -> (r: Vec<EditorLine>)
    ensures
        editor_view(r@) == shell_lines(form),
{
    let lines: Vec<EditorLine> = vec![
        field(
            form,
            "Shell 程序（可选，留空用系统默认）",
            "powershell.exe / cmd.exe / bash",
            FormField::IdentityFile,
            FieldMode { submits: true, hidden: false, browse: false },
        ),
    ];
    assert(editor_view(lines@) =~= shell_lines(form));
    lines
}

fn serial_section(form: &ProfileForm) -> (r: Vec<EditorLine>)
    ensures
        editor_view(r@) == serial_lines(form),
{
    let lines: Vec<EditorLine> = vec![
        field(
            form,
            "串口号",
            "COM3",
            FormField::Host,
            FieldMode { submits: true, hidden: false, browse: false },
        ),
        field(
            form,
            "波特率（8N1，无流控）",
            "115200",
            FormField::IdentityFile,
            FieldMode { submits: true, hidden: false, browse: false },
        ),
    ];
    assert(editor_view(lines@) =~= serial_lines(form));
    lines
}

fn telnet_section(language: Language, form: &ProfileForm) -> (r: Vec<EditorLine>)
    ensures
        editor_view(r@) == telnet_lines(language, form),
{
    let lines: Vec<EditorLine> = vec![
        field(
            form,
            "主机",
            "10.0.0.5",
            FormField::Host,
            FieldMode { submits: true, hidden: false, browse: false },
        ),
        field(
            form,
            "端口",
            "23",
            FormField::Port,
            FieldMode { submits: false, hidden: false, browse: false },
        ),
        EditorLine::Note(
            t(language, "Telnet 明文传输，用户名和密码都在终端里按提示输入，不经过凭据库。仅建议用于交换机、IPMI、串口服务器等只支持 telnet 的设备。"),
        ),
    ];
    assert(editor_view(lines@) =~= telnet_lines(language, form));
    lines
}

fn rdp_section(form: &ProfileForm) -> (r: Vec<EditorLine>)
    ensures
        editor_view(r@) == rdp_lines(form),
{
    let lines: Vec<EditorLine> = vec![
        field(
            form,
            "主机",
            "10.0.0.5",
            FormField::Host,
            FieldMode { submits: true, hidden: false, browse: false },
        ),
        field(
            form,
            "端口",
            "3389",
            FormField::Port,
            FieldMode { submits: false, hidden: false, browse: false },
        ),
        field(
            form,
            "用户名",
            "Administrator",
            FormField::Username,
            FieldMode { submits: false, hidden: false, browse: false },
        ),
        EditorLine::Note(
            "原生 RDP（NLA/CredSSP）。用户名可用 域\\用户 形式指定域。微软账户请填本机账户名（远端 whoami 反斜杠后的那段，如 willz），不要填邮箱——邮箱能通过认证但无法登录桌面。连接时在弹出的密码框输入密码（可勾选记住，存入系统凭据）。",
        ),
    ];
    assert(editor_view(lines@) =~= rdp_lines(form));
    lines
}

fn join_lines(lines: &mut Vec<EditorLine>, more: Vec<EditorLine>)
    ensures
        editor_view(final(lines)@) == editor_view(old(lines)@) + editor_view(more@),
{
    let mut more: Vec<EditorLine> = more;
    let ghost added = more@;
    lines.append(&mut more);
    assert(editor_view(lines@) =~= editor_view(old(lines)@) + editor_view(added));
}

fn protocol_section(language: Language, form: &ProfileForm) -> (r: Vec<EditorLine>)
    ensures
        editor_view(r@) == protocol_lines(language, form),
{
    match form.protocol {
        Protocol::Ssh | Protocol::Sftp => {
            let mut lines: Vec<EditorLine> = address_section(form);
            match form.auth_method {
                AuthMethod::Password => join_lines(&mut lines, password_section(form)),
                AuthMethod::Key | AuthMethod::Auto => join_lines(
                    &mut lines,
                    passphrase_section(form),
                ),
                AuthMethod::Agent => {},
            }
            assert(editor_view(lines@) =~= address_lines(form) + secret_lines(form,
            ));
            join_lines(&mut lines, key_section(form));
            lines
        },
        Protocol::LocalShell => shell_section(form),
        Protocol::Serial => serial_section(form),
        Protocol::Telnet => telnet_section(language, form),
        Protocol::Rdp => rdp_section(form),
    }
}

/// The editor.
pub struct ProfileEditor {
    pub status: &'static str,
    pub lines: Vec<EditorLine>,
}

/// The editor, for what is typed. `saved` says whether that is what is saved.
pub fn profile_editor_overlay(language: Language, form: &ProfileForm, saved: bool) -> (r:
    ProfileEditor)
    ensures
        r.status@ == if saved {
            "已保存"@
        } else {
            "未保存"@
        },
        editor_view(r.lines@) == common_lines(form) + protocol_lines(language, form),
{
    let mut lines: Vec<EditorLine> = common_section(form);
    join_lines(&mut lines, protocol_section(language, form));
    ProfileEditor {
        status: if saved {
            "已保存"
        } else {
            "未保存"
        },
        lines,
    }
}

/// Whether a line asks for a secret.
pub open spec fn asks_for_secret(line: EditorView) -> bool {
    line matches EditorView::Field(_, _, _, which, _) && (which == FormField::Password || which
        == FormField::Passphrase)
}

/// What is secret is never shown while it is typed.
pub proof fn law_secrets_are_hidden(language: Language, form: &ProfileForm, i: int)
    requires
        0 <= i < protocol_lines(language, form).len(),
        asks_for_secret(protocol_lines(language, form)[i]),
    ensures
        protocol_lines(language, form)[i] matches EditorView::Field(_, _, _, _, mode)
            && mode.hidden,
{
}

/// Only a session over SSH is ever asked for a secret, and never for two.
pub proof fn law_one_secret_at_most(language: Language, form: &ProfileForm, i: int, j: int)
    requires
        0 <= i < j < protocol_lines(language, form).len(),
        asks_for_secret(protocol_lines(language, form)[i]),
    ensures
        form.protocol == Protocol::Ssh || form.protocol == Protocol::Sftp,
        !asks_for_secret(protocol_lines(language, form)[j]),
{
}

// What is folded away.

/// What stands in the fold.
pub open spec fn unfolded_lines(language: Language, form: &ProfileForm, keep_connection: bool) -> Seq<EditorView> {
    seq![
        EditorView::Field(
            "跳板机 ProxyJump（可选，user@bastion:22，多个用逗号按顺序；各跳板机复用本会话的密码/密钥）"@,
            "jump@bastion.example.com:22"@,
            form_value(form, FormField::Jumps),
            FormField::Jumps,
            FieldMode { submits: false, hidden: false, browse: false },
        ),
        EditorView::Field(
            "启动命令（可选，连接后自动执行，如 tmux attach）"@,
            "tmux new -A -s main"@,
            form_value(form, FormField::StartupCommand),
            FormField::StartupCommand,
            FieldMode { submits: false, hidden: false, browse: false },
        ),
        EditorView::Field(
            "终端类型 TERM（可选，默认 xterm-256color）"@,
            "xterm-256color"@,
            form_value(form, FormField::TerminalType),
            FormField::TerminalType,
            FieldMode { submits: false, hidden: false, browse: false },
        ),
        EditorView::Environments(form.environment),
        EditorView::Keep(
            translated(language, "退出 shell 后保留 SSH 连接，供 SFTP/隧道复用（MFA 主机需要；连接会一直挂着）"@),
            keep_connection,
        ),
    ]
}

/// The colour of a machine of one's own kind.
pub open spec fn color_lines(form: &ProfileForm) -> Seq<EditorView> {
    seq![
        EditorView::Field(
            "自定义颜色（#RRGGBB）"@,
            "#3f7fd1"@,
            form_value(form, FormField::AccentColor),
            FormField::AccentColor,
            FieldMode { submits: false, hidden: false, browse: false },
        ),
    ]
}

/// The badge of a session.
pub open spec fn label_lines(form: &ProfileForm) -> Seq<EditorView> {
    seq![
        EditorView::Field(
            "标签徽标（可选，如 PROD；留空用环境名）"@,
            "PROD"@,
            form_value(form, FormField::Label),
            FormField::Label,
            FieldMode { submits: false, hidden: false, browse: false },
        ),
    ]
}

fn unfolded_section(language: Language, form: &ProfileForm, keep_connection: bool) -> (r: Vec<EditorLine>)
    ensures
        editor_view(r@) == unfolded_lines(language, form, keep_connection),
{
    let lines: Vec<EditorLine> = vec![
        field(
            form,
            "跳板机 ProxyJump（可选，user@bastion:22，多个用逗号按顺序；各跳板机复用本会话的密码/密钥）",
            "jump@bastion.example.com:22",
            FormField::Jumps,
            FieldMode { submits: false, hidden: false, browse: false },
        ),
        field(
            form,
            "启动命令（可选，连接后自动执行，如 tmux attach）",
            "tmux new -A -s main",
            FormField::StartupCommand,
            FieldMode { submits: false, hidden: false, browse: false },
        ),
        field(
            form,
            "终端类型 TERM（可选，默认 xterm-256color）",
            "xterm-256color",
            FormField::TerminalType,
            FieldMode { submits: false, hidden: false, browse: false },
        ),
        EditorLine::Environments(form.environment),
        EditorLine::Keep {
            label: t(language, "退出 shell 后保留 SSH 连接，供 SFTP/隧道复用（MFA 主机需要；连接会一直挂着）"),
            on: keep_connection,
        },
    ];
    assert(editor_view(lines@) =~= unfolded_lines(language, form, keep_connection));
    lines
}

fn color_section(form: &ProfileForm) -> (r: Vec<EditorLine>)
    ensures
        editor_view(r@) == color_lines(form),
{
    let lines: Vec<EditorLine> = vec![
        field(
            form,
            "自定义颜色（#RRGGBB）",
            "#3f7fd1",
            FormField::AccentColor,
            FieldMode { submits: false, hidden: false, browse: false },
        ),
    ];
    assert(editor_view(lines@) =~= color_lines(form));
    lines
}

fn label_section(form: &ProfileForm) -> (r: Vec<EditorLine>)
    ensures
        editor_view(r@) == label_lines(form),
{
    let lines: Vec<EditorLine> = vec![
        field(
            form,
            "标签徽标（可选，如 PROD；留空用环境名）",
            "PROD",
            FormField::Label,
            FieldMode { submits: false, hidden: false, browse: false },
        ),
    ];
    assert(editor_view(lines@) =~= label_lines(form));
    lines
}

/// How many fields in the fold are set.
pub open spec fn set_fields(form: &ProfileForm, keep_connection: bool) -> nat {
    one_if(!blank(form.jumps@)) + one_if(!blank(form.startup_command@)) + one_if(
        !blank(form.terminal_type@),
    ) + one_if(form.environment != Environment::Unset) + one_if(!blank(form.label@)) + one_if(
        keep_connection,
    )
}

/// One where something holds.
pub open spec fn one_if(holds: bool) -> nat {
    if holds {
        1
    } else {
        0
    }
}

fn count_if(holds: bool) -> (r: usize)
    ensures
        r == one_if(holds),
        r <= 1,
{
    if holds {
        1
    } else {
        0
    }
}

/// How many fields in the fold are set.
pub fn advanced_field_count(form: &ProfileForm, keep_connection: bool) -> (r: usize)
    ensures
        r == set_fields(form, keep_connection),
{
    count_if(!is_blank(form.jumps.as_str())) + count_if(!is_blank(form.startup_command.as_str()))
        + count_if(!is_blank(form.terminal_type.as_str())) + count_if(
        form.environment != Environment::Unset,
    ) + count_if(!is_blank(form.label.as_str())) + count_if(keep_connection)
}

/// The fold.
pub struct AdvancedSection {
    pub arrow: &'static str,
    pub title: &'static str,
    pub contents: &'static str,
    /// How many of its fields are set, where any is.
    pub badge: Option<String>,
    /// Its lines; none while it is folded.
    pub lines: Vec<EditorLine>,
}

/// What the fold shows.
pub open spec fn fold_lines(
    language: Language,
    form: &ProfileForm,
    keep_connection: bool,
    open: bool,
) -> Seq<EditorView> {
    if !open {
        Seq::empty()
    } else if form.environment == Environment::Custom {
        unfolded_lines(language, form, keep_connection) + color_lines(form)
            + label_lines(form)
    } else {
        unfolded_lines(language, form, keep_connection) + label_lines(form)
    }
}

/// The fold. It says how many of its fields are set, open or not.
pub fn advanced_section(language: Language, form: &ProfileForm, keep_connection: bool, open: bool)
    -> (r: AdvancedSection)
    ensures
        r.arrow@ == if open {
            "▾"@
        } else {
            "▸"@
        },
        r.title@ == translated(language, "高级"@),
        r.contents@ == translated(
            language,
            "跳板机、启动命令、TERM、环境色标、标签徽标、连接保留"@,
        ),
        r.badge is Some == (set_fields(form, keep_connection) > 0),
        r.badge matches Some(text) ==> text@ == filled(
            translated(language, "已设置 {} 项"@),
            seq![decimal(set_fields(form, keep_connection))],
        ),
        editor_view(r.lines@) == fold_lines(language, form, keep_connection, open),
{
    let set: usize = advanced_field_count(form, keep_connection);
    let badge: Option<String> = if set > 0 {
        let args: Vec<String> = vec![decimal_of(set as u64)];
        assert(texts(args@) =~= seq![decimal(set as nat)]);
        Some(tf(language, "已设置 {} 项", &args))
    } else {
        None
    };
    let lines: Vec<EditorLine> = if open {
        let mut lines: Vec<EditorLine> = unfolded_section(language, form, keep_connection);
        if form.environment == Environment::Custom {
            join_lines(&mut lines, color_section(form));
        }
        join_lines(&mut lines, label_section(form));
        lines
    } else {
        let none: Vec<EditorLine> = Vec::new();
        assert(editor_view(none@) =~= Seq::empty());
        none
    };
    AdvancedSection {
        arrow: if open {
            "▾"
        } else {
            "▸"
        },
        title: t(language, "高级"),
        contents: t(language, "跳板机、启动命令、TERM、环境色标、标签徽标、连接保留"),
        badge,
        lines,
    }
}

// The folder picker.

/// How many folders the picker offers at once.
pub const GROUP_SUGGESTION_LIMIT: usize = 12;

/// Whether what is typed is a finished choice: no folder, or one that exists.
pub open spec fn settled(typed: Seq<char>, groups: Seq<Seq<char>>) -> bool {
    trimmed(typed).len() == 0 || groups.contains(trimmed(typed))
}

/// What narrows the folders: nothing once the choice is finished, so that the
/// others stay in reach.
pub open spec fn group_needle(typed: Seq<char>, groups: Seq<Seq<char>>) -> Seq<char> {
    if settled(typed, groups) {
        Seq::empty()
    } else {
        lowercase_of(trimmed(typed))
    }
}

/// The folders that what is typed still matches; before them, while nothing
/// narrows them, no folder at all.
pub open spec fn candidates(groups: Seq<Seq<char>>, needle: Seq<char>) -> Seq<Seq<char>>
    decreases groups.len(),
{
    if groups.len() == 0 {
        if needle.len() == 0 {
            seq![Seq::empty()]
        } else {
            Seq::empty()
        }
    } else {
        let before = candidates(groups.drop_last(), needle);
        if needle.len() == 0 || occurs(lowercase_of(groups.last()), needle) {
            before.push(groups.last())
        } else {
            before
        }
    }
}

/// What the picker offers.
pub struct GroupChip {
    /// The folder; empty for none.
    pub group: String,
    pub label: String,
    /// The mark of the folder's own icon and the colour it is drawn in, where it has one.
    pub icon: Option<(&'static str, Rgba)>,
    pub selected: bool,
}

/// The key of the icon of a folder: that of its first entry, where it has one.
pub open spec fn folder_icon(icons: Seq<(String, String)>, group: Seq<char>) -> Option<Seq<char>>
    decreases icons.len(),
{
    if icons.len() == 0 {
        None
    } else if icons[0].0@ == group {
        Some(icons[0].1@)
    } else {
        folder_icon(icons.drop_first(), group)
    }
}

/// Whether this is how the icon of a folder is drawn: in its own colour, or in white on
/// a chip that is filled.
pub open spec fn is_folder_mark(
    mark: Option<(&'static str, Rgba)>,
    icons: Seq<(String, String)>,
    group: Seq<char>,
    selected: bool,
) -> bool {
    let known = match folder_icon(icons, group) {
        Some(key) => icon_named(key),
        None => None,
    };
    match known {
        Some(i) => {
            &&& mark is Some
            &&& (mark->0).0@ == icon_glyph(i)
            &&& (mark->0).1 == if selected {
                opaque(255, 255, 255)
            } else {
                icon_color(i)
            }
        },
        None => mark is None,
    }
}

fn folder_mark(icons: &Vec<(String, String)>, group: &str, selected: bool) -> (r: Option<
    (&'static str, Rgba),
>)
    ensures
        is_folder_mark(r, icons@, group@, selected),
{
    let mut i: usize = 0;
    assert(icons@.skip(0) =~= icons@);
    while i < icons.len()
        invariant
            i <= icons.len(),
            folder_icon(icons@, group@) == folder_icon(icons@.skip(i as int), group@),
        decreases icons.len() - i,
    {
        assert(icons@.skip(i as int)[0] == icons@[i as int]);
        assert(icons@.skip(i as int).drop_first() =~= icons@.skip(i + 1));
        if same(icons[i].0.as_str(), group) {
            return match find_icon(icons[i].1.as_str()) {
                Some(icon) => Some(
                    (
                        icon.glyph,
                        if selected {
                            rgb(255, 255, 255)
                        } else {
                            icon.color
                        },
                    ),
                ),
                None => None,
            };
        }
        i += 1;
    }
    None
}

/// The folder picker.
pub struct GroupPicker {
    pub chips: Vec<GroupChip>,
    /// How many folders are not shown, where any is not.
    pub more: Option<String>,
    /// The folder that saving would make.
    pub creates: Option<String>,
}

/// Whether this is what the picker offers of a folder.
pub open spec fn is_chip(
    chip: &GroupChip,
    language: Language,
    typed: Seq<char>,
    icons: Seq<(String, String)>,
    group: Seq<char>,
    first: bool,
) -> bool {
    &&& chip.group@ == group
    &&& chip.label@ == if first {
        translated(language, "未分组"@)
    } else {
        group
    }
    &&& chip.selected == (trimmed(typed) == group)
    &&& if first {
        chip.icon is None
    } else {
        is_folder_mark(chip.icon, icons, group, chip.selected)
    }
}

fn candidate_list(groups: &Vec<String>, needle: &str) -> (r: Vec<String>)
    ensures
        texts(r@) == candidates(texts(groups@), needle@),
{
    let ghost all = texts(groups@);
    let mut out: Vec<String> = Vec::new();
    if needle.is_empty() {
        out.push(String::new());
    }
    assert(texts(out@) =~= candidates(all.take(0), needle@));
    let mut i: usize = 0;
    while i < groups.len()
        invariant
            i <= groups.len(),
            all == texts(groups@),
            texts(out@) == candidates(all.take(i as int), needle@),
        decreases groups.len() - i,
    {
        let ghost before = texts(out@);
        assert(all.take(i + 1).drop_last() =~= all.take(i as int));
        if needle.is_empty() || contains_text(lowercase(groups[i].as_str()).as_str(), needle) {
            out.push(owned(groups[i].as_str()));
            assert(texts(out@) =~= before.push(groups@[i as int]@));
        }
        i += 1;
    }
    assert(all.take(i as int) =~= all);
    out
}

/// How many of so many candidates are shown.
pub open spec fn chips_shown(count: nat) -> nat {
    if count > GROUP_SUGGESTION_LIMIT {
        GROUP_SUGGESTION_LIMIT as nat
    } else {
        count
    }
}

/// The folder picker, where what is typed narrows the folders to `needle`.
pub fn group_picker_for(
    language: Language,
    typed: &str,
    groups: &Vec<String>,
    icons: &Vec<(String, String)>,
    needle: &str,
) -> (r: GroupPicker)
    ensures
        ({
            let all = candidates(texts(groups@), needle@);
            &&& r.chips@.len() == chips_shown(all.len())
            &&& forall|i: int|
                0 <= i < r.chips@.len() ==> is_chip(
                    &#[trigger] r.chips@[i],
                    language,
                    typed@,
                    icons@,
                    all[i],
                    i == 0 && needle@.len() == 0,
                )
            &&& r.more is Some == (all.len() > GROUP_SUGGESTION_LIMIT)
            &&& r.more matches Some(text) ==> text@ == filled(
                translated(language, "还有 {} 个分组未显示，继续输入以筛选"@),
                seq![decimal((all.len() - GROUP_SUGGESTION_LIMIT) as nat)],
            )
        }),
        r.creates is Some == !settled(typed@, texts(groups@)),
        r.creates matches Some(text) ==> text@ == filled(
            translated(language, "保存后将新建分组：{}"@),
            seq![trimmed(typed@)],
        ),
{
    let name: String = trim(typed);
    let all: Vec<String> = candidate_list(groups, needle);
    let ghost names = texts(all@);
    assert(names.len() == all@.len());
    let shown: usize = if all.len() > GROUP_SUGGESTION_LIMIT {
        GROUP_SUGGESTION_LIMIT
    } else {
        all.len()
    };
    let mut chips: Vec<GroupChip> = Vec::new();
    let mut i: usize = 0;
    while i < shown
        invariant
            i <= shown,
            shown <= all.len(),
            names == texts(all@),
            name@ == trimmed(typed@),
            chips@.len() == i,
            forall|j: int|
                0 <= j < i ==> is_chip(
                    &#[trigger] chips@[j],
                    language,
                    typed@,
                    icons@,
                    names[j],
                    j == 0 && needle@.len() == 0,
                ),
        decreases shown - i,
    {
        let label: String = if i == 0 && needle.is_empty() {
            owned(t(language, "未分组"))
        } else {
            owned(all[i].as_str())
        };
        let selected: bool = same(name.as_str(), all[i].as_str());
        let icon: Option<(&'static str, Rgba)> = if i == 0 && needle.is_empty() {
            None
        } else {
            folder_mark(icons, all[i].as_str(), selected)
        };
        let chip: GroupChip = GroupChip { group: owned(all[i].as_str()), label, icon, selected };
        assert(is_chip(
            &chip,
            language,
            typed@,
            icons@,
            names[i as int],
            i == 0 && needle@.len() == 0,
        ));
        chips.push(chip);
        i += 1;
    }
    let more: Option<String> = if all.len() > GROUP_SUGGESTION_LIMIT {
        let left: usize = all.len() - GROUP_SUGGESTION_LIMIT;
        let args: Vec<String> = vec![decimal_of(left as u64)];
        assert(texts(args@) =~= seq![decimal(left as nat)]);
        Some(tf(language, "还有 {} 个分组未显示，继续输入以筛选", &args))
    } else {
        None
    };
    let creates: Option<String> = if name.as_str().is_empty() || holds(groups, name.as_str()) {
        None
    } else {
        let args: Vec<String> = vec![owned(name.as_str())];
        assert(texts(args@) =~= seq![trimmed(typed@)]);
        Some(tf(language, "保存后将新建分组：{}", &args))
    };
    GroupPicker { chips, more, creates }
}

/// The folder picker: what is typed is the folder, over the folders that it still
/// matches without regard to case.
/// `icons` gives the folders that have an icon of their own its key.
pub fn group_picker(
    language: Language,
    typed: &str,
    groups: &Vec<String>,
    icons: &Vec<(String, String)>,
) -> (r: GroupPicker)
    ensures
        ({
            let needle = group_needle(typed@, texts(groups@));
            let all = candidates(texts(groups@), needle);
            &&& r.chips@.len() == chips_shown(all.len())
            &&& forall|i: int|
                0 <= i < r.chips@.len() ==> is_chip(
                    &#[trigger] r.chips@[i],
                    language,
                    typed@,
                    icons@,
                    all[i],
                    i == 0 && needle.len() == 0,
                )
            &&& r.more is Some == (all.len() > GROUP_SUGGESTION_LIMIT)
            &&& r.more matches Some(text) ==> text@ == filled(
                translated(language, "还有 {} 个分组未显示，继续输入以筛选"@),
                seq![decimal((all.len() - GROUP_SUGGESTION_LIMIT) as nat)],
            )
        }),
        r.creates is Some == !settled(typed@, texts(groups@)),
        r.creates matches Some(text) ==> text@ == filled(
            translated(language, "保存后将新建分组：{}"@),
            seq![trimmed(typed@)],
        ),
{
    let name: String = trim(typed);
    let needle: String = if name.as_str().is_empty() || holds(groups, name.as_str()) {
        String::new()
    } else {
        lowercase(name.as_str())
    };
    assert(needle@ =~= group_needle(typed@, texts(groups@)));
    group_picker_for(language, typed, groups, icons, needle.as_str())
}

proof fn lemma_candidates(groups: Seq<Seq<char>>)
    ensures
        candidates(groups, Seq::empty()) == seq![Seq::<char>::empty()] + groups,
    decreases groups.len(),
{
    if groups.len() > 0 {
        lemma_candidates(groups.drop_last());
        assert(candidates(groups, Seq::empty()) =~= seq![Seq::<char>::empty()] + groups);
    } else {
        assert(candidates(groups, Seq::empty()) =~= seq![Seq::<char>::empty()] + groups);
    }
}

/// Once a folder is chosen every other one is still offered, after none at all.
pub proof fn law_a_finished_choice_hides_no_folder(typed: Seq<char>, groups: Seq<Seq<char>>)
    requires
        settled(typed, groups),
    ensures
        candidates(groups, group_needle(typed, groups)) == seq![Seq::<char>::empty()] + groups,
{
    lemma_candidates(groups);
}

/// Each field shows its own part of the form.
pub proof fn law_fields_hold_their_own(form: &ProfileForm)
    ensures
        form_value(form, FormField::Name) == form.name@,
        form_value(form, FormField::Host) == form.host@,
        form_value(form, FormField::Port) == form.port@,
        form_value(form, FormField::Username) == form.username@,
        form_value(form, FormField::Password) == form.password@,
        form_value(form, FormField::Passphrase) == form.passphrase@,
        form_value(form, FormField::IdentityFile) == form.identity_file@,
        form_value(form, FormField::Jumps) == form.jumps@,
        form_value(form, FormField::StartupCommand) == form.startup_command@,
        form_value(form, FormField::TerminalType) == form.terminal_type@,
        form_value(form, FormField::AccentColor) == form.accent_color@,
        form_value(form, FormField::Label) == form.label@,
{
}

/// Every field that the editor shows for a kind of session shows the part of the form
/// that it writes.
pub proof fn law_a_field_shows_what_it_writes(language: Language, form: &ProfileForm, i: int)
    requires
        0 <= i < protocol_lines(language, form).len(),
    ensures
        protocol_lines(language, form)[i] matches EditorView::Field(_, _, value, which, _)
            ==> value == form_value(form, which),
{
}

/// While nothing narrows them, the folders are offered as they stand, behind no folder at
/// all; and once something does, those whose names hold it, without regard to case.
pub proof fn law_the_folders_that_match_are_offered(groups: Seq<Seq<char>>, needle: Seq<char>)
    ensures
        needle.len() == 0 ==> candidates(groups, needle) == seq![Seq::<char>::empty()] + groups,
        needle.len() > 0 ==> candidates(groups, needle) == groups.filter(
            |group: Seq<char>| occurs(lowercase_of(group), needle),
        ),
    decreases groups.len(),
{
    reveal(Seq::filter);
    let none = seq![Seq::<char>::empty()];
    if groups.len() == 0 {
        assert(none + groups =~= none);
    } else {
        law_the_folders_that_match_are_offered(groups.drop_last(), needle);
        assert((none + groups.drop_last()).push(groups.last()) =~= none + groups);
    }
}

/// A folder has the icon that its first entry gives it, and none without an entry.
pub proof fn law_a_folder_has_its_own_icon(
    icons: Seq<(String, String)>,
    group: Seq<char>,
    k: int,
)
    requires
        0 <= k <= icons.len(),
        forall|i: int| 0 <= i < k ==> (#[trigger] icons[i]).0@ != group,
        k < icons.len() ==> icons[k].0@ == group,
    ensures
        k < icons.len() ==> folder_icon(icons, group) == Some(icons[k].1@),
        k == icons.len() ==> folder_icon(icons, group) is None,
    decreases k,
{
    if k > 0 {
        let rest = icons.drop_first();
        assert(icons[0].0@ != group);
        assert forall|i: int| 0 <= i < k - 1 implies (#[trigger] rest[i]).0@ != group by {
            assert(rest[i] == icons[i + 1]);
        }
        if k < icons.len() {
            assert(rest[k - 1] == icons[k]);
        }
        law_a_folder_has_its_own_icon(rest, group, k - 1);
    }
}

/// A folder that is offered is marked where it is the one that is typed, and stands under
/// its own name.
pub proof fn law_the_typed_folder_is_marked(
    chip: &GroupChip,
    language: Language,
    typed: Seq<char>,
    icons: Seq<(String, String)>,
    group: Seq<char>,
    first: bool,
)
    requires
        is_chip(chip, language, typed, icons, group, first),
    ensures
        chip.group@ == group,
        chip.selected <==> trimmed(typed) == group,
        !first ==> chip.label@ == group,
{
}

} // verus!

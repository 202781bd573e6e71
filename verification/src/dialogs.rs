//! What the dialogs say: connecting, an unknown host key, a question of the
//! server, an update, a paste of several lines, snippets and trusted hosts.

use vstd::prelude::*;
use vstd::string::*;

use crate::connect::ConnectionDialog;
use crate::i18n::{filled, t, tf, translated, Language};
use crate::panes::SessionId;
use crate::profile::{AuthMethod, Protocol};
use crate::style::Tone;
use crate::text::{
    blank, chars_of, decimal, decimal_of, is_blank, join, joined, lines, owned, string_between,
    text_lines, texts,
};

verus! {

// Connecting.

/// What the dialog that connects says.
pub struct ConnectionDialogView {
    pub heading: &'static str,
    /// The session's name and where it leads.
    pub title: String,
    pub endpoint: String,
    pub hint: &'static str,
    /// The key that is used, where one is set.
    pub identity: Option<String>,
    pub keep_label: &'static str,
    /// Whether the password is to be kept.
    pub keep: bool,
    pub keep_note: &'static str,
}

/// How a session proves who it is, in words.
pub open spec fn auth_hint(protocol: Protocol, method: AuthMethod) -> Seq<char> {
    if protocol == Protocol::Rdp {
        "密码认证：请输入远程桌面 (RDP) 登录密码"@
    } else {
        match method {
            AuthMethod::Auto => "自动认证：密码可选，会先尝试密码、agent 和默认密钥"@,
            AuthMethod::Password => "密码认证：请输入 SSH 密码"@,
            AuthMethod::Key => "密钥认证：passphrase 建议在会话设置里保存；未保存时可在此临时输入"@,
            AuthMethod::Agent => "Agent 认证：通常不需要密码"@,
        }
    }
}

/// What the dialog that connects says. A session that no longer exists is taken
/// for one that speaks SSH.
pub fn connection_dialog_overlay(
    language: Language,
    dialog: &ConnectionDialog,
    protocol: Option<Protocol>,
    remember: bool,
) -> (r: ConnectionDialogView)
    ensures
        ({
            let spoken = match protocol {
                Some(protocol) => protocol,
                None => Protocol::Ssh,
            };
            &&& r.heading@ == if spoken == Protocol::Rdp {
                "连接 RDP"@
            } else {
                "连接 SSH"@
            }
            &&& r.hint@ == auth_hint(spoken, dialog.auth_method)
        }),
        r.title@ == dialog.title@,
        r.endpoint@ == dialog.endpoint@,
        r.identity is Some == !blank(dialog.identity_file@),
        r.identity matches Some(text) ==> text@ == "Identity: "@ + dialog.identity_file@,
        r.keep_label@ == translated(language, "保存密码"@),
        r.keep == remember,
        r.keep_note@ == translated(
            language,
            "加密保存在配置目录，可随 Dropbox 等同步到其他电脑"@,
        ),
{
    let spoken: Protocol = match protocol {
        Some(protocol) => protocol,
        None => Protocol::Ssh,
    };
    let hint: &'static str = if spoken == Protocol::Rdp {
        "密码认证：请输入远程桌面 (RDP) 登录密码"
    } else {
        match dialog.auth_method {
            AuthMethod::Auto => "自动认证：密码可选，会先尝试密码、agent 和默认密钥",
            AuthMethod::Password => "密码认证：请输入 SSH 密码",
            AuthMethod::Key => "密钥认证：passphrase 建议在会话设置里保存；未保存时可在此临时输入",
            AuthMethod::Agent => "Agent 认证：通常不需要密码",
        }
    };
    let identity: Option<String> = if is_blank(dialog.identity_file.as_str()) {
        None
    } else {
        let mut text: String = owned("Identity: ");
        text.append(dialog.identity_file.as_str());
        Some(text)
    };
    ConnectionDialogView {
        title: owned(dialog.title.as_str()),
        endpoint: owned(dialog.endpoint.as_str()),
        heading: if spoken == Protocol::Rdp {
            "连接 RDP"
        } else {
            "连接 SSH"
        },
        hint,
        identity,
        keep_label: t(language, "保存密码"),
        keep: remember,
        keep_note: t(language, "加密保存在配置目录，可随 Dropbox 等同步到其他电脑"),
    }
}

// An unknown host key.

/// A host key that is to be trusted or not.
pub struct HostKeyPrompt {
    pub host: String,
    pub port: u16,
    pub key_type: String,
    pub fingerprint: String,
    /// What was on record for the host, where that differs.
    pub previous_fingerprint: Option<String>,
}

/// What the question says.
pub struct HostKeyView {
    pub title: &'static str,
    pub title_tone: Tone,
    pub address: String,
    pub key_type: String,
    pub fingerprint_label: &'static str,
    pub fingerprint: String,
    /// What was on record, under its label, where that differs.
    pub previous: Option<(&'static str, String)>,
    pub warning: &'static str,
    pub warning_tone: Tone,
    pub accept: &'static str,
}

/// What the question about a host key says. A key that has changed is a warning;
/// one that is new is not.
pub fn host_key_dialog_overlay(language: Language, prompt: &HostKeyPrompt) -> (r: HostKeyView)
    ensures
        r.address@ == prompt.host@ + ":"@ + decimal(prompt.port as nat),
        r.key_type@ == filled(translated(language, "密钥类型: {}"@), seq![prompt.key_type@]),
        r.fingerprint_label@ == translated(language, "SHA256 指纹"@),
        r.fingerprint@ == prompt.fingerprint@,
        match prompt.previous_fingerprint {
            Some(before) => {
                &&& r.previous is Some
                &&& (r.previous->0).0@ == translated(language, "此前记录的指纹"@)
                &&& (r.previous->0).1@ == before@
            },
            None => r.previous is None,
        },
        prompt.previous_fingerprint is Some ==> {
            &&& r.title@ == "⚠ 主机密钥已变更"@
            &&& r.title_tone == Tone::Danger
            &&& r.warning@ == translated(
                language,
                "密钥变更可能意味着中间人攻击。仅在你确知服务器更换过密钥时才接受。"@,
            )
            &&& r.warning_tone == Tone::Danger
            &&& r.accept@ == "更新并继续"@
        },
        prompt.previous_fingerprint is None ==> {
            &&& r.title@ == "确认主机密钥"@
            &&& r.title_tone == Tone::Primary
            &&& r.warning@ == translated(
                language,
                "首次连接此主机。请通过其它可信渠道核对指纹后再信任。"@,
            )
            &&& r.warning_tone == Tone::Muted
            &&& r.accept@ == "信任并继续"@
        },
{
    let mut address: String = owned(prompt.host.as_str());
    address.append(":");
    address.append(decimal_of(prompt.port as u64).as_str());
    let args: Vec<String> = vec![owned(prompt.key_type.as_str())];
    assert(texts(args@) =~= seq![prompt.key_type@]);
    let key_type: String = tf(language, "密钥类型: {}", &args);
    let fingerprint_label: &'static str = t(language, "SHA256 指纹");
    let fingerprint: String = owned(prompt.fingerprint.as_str());
    if let Some(before) = &prompt.previous_fingerprint {
        HostKeyView {
            title: "⚠ 主机密钥已变更",
            title_tone: Tone::Danger,
            address,
            key_type,
            fingerprint_label,
            fingerprint,
            previous: Some((t(language, "此前记录的指纹"), owned(before.as_str()))),
            warning: t(
                language,
                "密钥变更可能意味着中间人攻击。仅在你确知服务器更换过密钥时才接受。",
            ),
            warning_tone: Tone::Danger,
            accept: "更新并继续",
        }
    } else {
        HostKeyView {
            title: "确认主机密钥",
            title_tone: Tone::Primary,
            address,
            key_type,
            fingerprint_label,
            fingerprint,
            previous: None,
            warning: t(language, "首次连接此主机。请通过其它可信渠道核对指纹后再信任。"),
            warning_tone: Tone::Muted,
            accept: "信任并继续",
        }
    }
}

// A link.

/// What is asked before a link is opened.
pub struct HyperlinkView {
    pub title: &'static str,
    pub note: &'static str,
    /// Where the link really leads.
    pub url: String,
    pub accept: &'static str,
}

/// What is asked before a link is opened: it came with the output of a terminal, so the
/// address it really leads to is shown.
pub fn hyperlink_confirm_overlay(language: Language, url: &str) -> (r: HyperlinkView)
    ensures
        r.title@ == translated(language, "打开链接？"@),
        r.note@ == translated(language, "此链接来自终端输出，请确认目标地址后再打开："@),
        r.url@ == url@,
        r.accept@ == translated(language, "打开"@),
{
    HyperlinkView {
        title: t(language, "打开链接？"),
        note: t(language, "此链接来自终端输出，请确认目标地址后再打开："),
        url: owned(url),
        accept: t(language, "打开"),
    }
}

// A question of the server.

/// A field that the server asks for.
pub struct AuthField {
    pub prompt: String,
    /// Whether what is typed may be shown.
    pub echo: bool,
}

/// What the server asks for.
pub struct AuthPromptInfo {
    pub name: String,
    pub instructions: String,
    pub prompts: Vec<AuthField>,
}

/// The question that is open, and what has been typed so far.
pub struct AuthPrompt {
    pub prompt: Option<(SessionId, AuthPromptInfo)>,
    pub answers: Vec<String>,
}

/// As many empty texts.
pub open spec fn all_empty(answers: Seq<Seq<char>>, count: nat) -> bool {
    answers.len() == count && forall|i: int|
        0 <= i < answers.len() ==> (#[trigger] answers[i]).len() == 0
}

fn empty_answers(count: usize) -> (r: Vec<String>)
    ensures
        all_empty(texts(r@), count as nat),
{
    let mut answers: Vec<String> = Vec::new();
    let mut i: usize = 0;
    while i < count
        invariant
            i <= count,
            answers@.len() == i,
            forall|j: int| 0 <= j < i ==> (#[trigger] answers@[j])@.len() == 0,
        decreases count - i,
    {
        answers.push(String::new());
        i += 1;
    }
    answers
}

impl AuthPrompt {
    /// Whether a question is another one than the one that is open: it is another
    /// session's, or it has another number of fields.
    pub open spec fn is_new(&self, session: SessionId, info: &AuthPromptInfo) -> bool {
        !(self.prompt is Some && (self.prompt->0).0 == session && self.answers@.len()
            == info.prompts@.len())
    }

    /// Follows the question that is pending. Another question starts with empty
    /// answers, the same one keeps what was typed, and none leaves nothing.
    pub fn sync_auth_prompt(&mut self, pending: Option<(SessionId, AuthPromptInfo)>)
        ensures
            final(self).prompt == pending,
            match pending {
                Some((session, info)) => if old(self).is_new(session, &info) {
                    all_empty(texts(final(self).answers@), info.prompts@.len())
                } else {
                    final(self).answers == old(self).answers
                },
                None => if old(self).prompt is Some {
                    final(self).answers@.len() == 0
                } else {
                    final(self).answers == old(self).answers
                },
            },
    {
        match &pending {
            Some((session, info)) => {
                let fresh: bool = match &self.prompt {
                    Some((open, _)) => *open != *session || self.answers.len()
                        != info.prompts.len(),
                    None => true,
                };
                if fresh {
                    self.answers = empty_answers(info.prompts.len());
                }
            },
            None => {
                if self.prompt.is_some() {
                    self.answers = Vec::new();
                }
            },
        }
        self.prompt = pending;
    }

    /// Whether there is an answer for every field of the question that is open.
    pub open spec fn wf(&self) -> bool {
        match self.prompt {
            Some((_, info)) => self.answers@.len() == info.prompts@.len(),
            None => true,
        }
    }
}

/// After following a question there is an answer for each of its fields.
pub proof fn law_every_field_has_an_answer(before: AuthPrompt, after: AuthPrompt)
    requires
        match after.prompt {
            Some((session, info)) => if before.is_new(session, &info) {
                all_empty(texts(after.answers@), info.prompts@.len())
            } else {
                after.answers == before.answers
            },
            None => true,
        },
    ensures
        after.wf(),
{
    if after.prompt is Some {
        assert(texts(after.answers@).len() == after.answers@.len());
    }
}

/// A field of the question.
pub struct AuthFieldView {
    pub label: String,
    pub value: String,
    /// Whether Enter answers the question. Only the last field does, so that none
    /// is sent while later ones are still blank.
    pub submits: bool,
    pub hidden: bool,
}

/// What the question says.
pub struct AuthPromptView {
    pub title: &'static str,
    pub name: Option<String>,
    pub instructions: Option<String>,
    pub fields: Vec<AuthFieldView>,
}

/// Whether this is a field of the question.
pub open spec fn is_auth_field(
    view: &AuthFieldView,
    language: Language,
    info: &AuthPromptInfo,
    answers: Seq<String>,
    i: int,
) -> bool {
    let field = info.prompts@[i];
    &&& view.label@ == if blank(field.prompt@) {
        translated(language, "请输入"@)
    } else {
        field.prompt@
    }
    &&& view.value@ == if i < answers.len() {
        answers[i]@
    } else {
        Seq::empty()
    }
    &&& view.submits == (i == info.prompts@.len() - 1)
    &&& view.hidden == !field.echo
}

/// What a question of the server says.
pub fn auth_prompt_dialog_overlay(
    language: Language,
    info: &AuthPromptInfo,
    answers: &Vec<String>,
) -> (r: AuthPromptView)
    ensures
        r.title@ == translated(language, "需要交互式验证"@),
        r.name is Some == !blank(info.name@),
        r.name matches Some(text) ==> text@ == info.name@,
        r.instructions is Some == !blank(info.instructions@),
        r.instructions matches Some(text) ==> text@ == info.instructions@,
        r.fields@.len() == info.prompts@.len(),
        forall|i: int|
            0 <= i < r.fields@.len() ==> is_auth_field(
                &#[trigger] r.fields@[i],
                language,
                info,
                answers@,
                i,
            ),
{
    let mut fields: Vec<AuthFieldView> = Vec::new();
    let mut i: usize = 0;
    let count: usize = info.prompts.len();
    while i < count
        invariant
            i <= count,
            count == info.prompts.len(),
            fields@.len() == i,
            forall|j: int|
                0 <= j < i ==> is_auth_field(
                    &#[trigger] fields@[j],
                    language,
                    info,
                    answers@,
                    j,
                ),
        decreases count - i,
    {
        let label: String = if is_blank(info.prompts[i].prompt.as_str()) {
            owned(t(language, "请输入"))
        } else {
            owned(info.prompts[i].prompt.as_str())
        };
        let value: String = if i < answers.len() {
            owned(answers[i].as_str())
        } else {
            String::new()
        };
        let view: AuthFieldView = AuthFieldView {
            label,
            value,
            submits: i == count - 1,
            hidden: !info.prompts[i].echo,
        };
        assert(is_auth_field(&view, language, info, answers@, i as int));
        fields.push(view);
        i += 1;
    }
    AuthPromptView {
        title: t(language, "需要交互式验证"),
        name: if is_blank(info.name.as_str()) {
            None
        } else {
            Some(owned(info.name.as_str()))
        },
        instructions: if is_blank(info.instructions.as_str()) {
            None
        } else {
            Some(owned(info.instructions.as_str()))
        },
        fields,
    }
}

// A paste of several lines.

/// What is shown of a paste before it is done.
pub struct PasteConfirmView {
    pub count: String,
    pub preview: String,
}

/// How many lines a paste has: at least one.
pub open spec fn paste_line_count(contents: Seq<char>) -> nat {
    if text_lines(contents).len() == 0 {
        1
    } else {
        text_lines(contents).len()
    }
}

/// The first lines of a paste.
pub open spec fn first_lines(contents: Seq<char>) -> Seq<char> {
    let all = text_lines(contents);
    joined(
        if all.len() > 8 {
            all.take(8)
        } else {
            all
        },
        "\n"@,
    )
}

/// What is shown of a paste: its first eight lines, and of those at most four
/// hundred characters.
pub open spec fn paste_preview(contents: Seq<char>) -> Seq<char> {
    let first = first_lines(contents);
    if first.len() > 400 {
        first.take(400) + "…"@
    } else {
        first
    }
}

/// What is shown of a paste before it is done.
pub fn paste_confirm_overlay(language: Language, contents: &str) -> (r: PasteConfirmView)
    ensures
        r.count@ == filled(
            translated(language, "将向当前终端粘贴 {} 行内容："@),
            seq![decimal(paste_line_count(contents@))],
        ),
        r.preview@ == paste_preview(contents@),
{
    let mut all: Vec<String> = lines(contents);
    assert(texts(all@).len() == all@.len());
    let count: usize = if all.len() == 0 {
        1
    } else {
        all.len()
    };
    let args: Vec<String> = vec![decimal_of(count as u64)];
    assert(texts(args@) =~= seq![decimal(count as nat)]);
    let ghost whole = all@;
    if all.len() > 8 {
        all.truncate(8);
        assert(texts(all@) =~= texts(whole).take(8));
    }
    let first: String = join(&all, "\n");
    let chars: Vec<char> = chars_of(first.as_str());
    let preview: String = if chars.len() > 400 {
        let mut text: String = string_between(chars.as_slice(), 0, 400);
        assert(text@ =~= first@.take(400));
        text.append("…");
        text
    } else {
        first
    };
    PasteConfirmView { count: tf(language, "将向当前终端粘贴 {} 行内容：", &args), preview }
}

/// What is shown of a paste is never long.
pub proof fn law_a_preview_is_short(contents: Seq<char>)
    ensures
        paste_preview(contents).len() <= 401,
        paste_line_count(contents) >= 1,
{
    reveal_strlit("…");
}

// Updates.

/// A newer release.
#[derive(Debug, Clone)]
pub struct UpdateInfo {
    pub tag: String,
    pub installer_url: String,
    pub installer_name: String,
    pub notes_url: String,
}

/// Where an update stands.
pub enum UpdateState {
    Idle,
    Checking,
    UpToDate,
    Available(UpdateInfo),
    Downloading,
    Launched,
    Error(String),
}

/// What the dialog of an update says.
pub struct UpdateView {
    pub headline: String,
    pub headline_tone: Tone,
    pub detail: Option<String>,
    /// Where the notes of the release are.
    pub notes: Option<String>,
    pub action: UpdateAction,
}

/// What can be done about an update.
#[derive(Debug, Clone, Copy, PartialEq, Eq, Structural)]
pub enum UpdateAction {
    Nothing,
    Download,
    /// The release cannot be installed here.
    NoInstaller,
    Retry,
}

/// The headline of an update.
pub open spec fn update_headline(
    language: Language,
    current: Seq<char>,
    state: UpdateState,
) -> Seq<char> {
    match state {
        UpdateState::Idle | UpdateState::Checking => translated(language, "正在检查更新…"@),
        UpdateState::UpToDate => filled(
            translated(language, "已是最新版本（v{}）"@),
            seq![current],
        ),
        UpdateState::Available(info) => filled(
            translated(language, "发现新版本 {}"@),
            seq![info.tag@],
        ),
        UpdateState::Downloading => translated(language, "正在下载安装包…"@),
        UpdateState::Launched => translated(language, "正在后台安装更新…"@),
        UpdateState::Error(_) => translated(language, "检查/更新失败"@),
    }
}

/// What is said below the headline.
pub open spec fn update_detail(
    language: Language,
    current: Seq<char>,
    state: UpdateState,
) -> Option<Seq<char>> {
    match state {
        UpdateState::Idle | UpdateState::Checking | UpdateState::UpToDate => None,
        UpdateState::Available(_) => Some(
            filled(translated(language, "当前版本 v{}"@), seq![current]),
        ),
        UpdateState::Downloading => Some(translated(language, "完成后会自动启动安装程序"@)),
        UpdateState::Launched => Some(
            translated(
                language,
                "无需操作，安装完成后 Adit 会自动关闭并重启（可能需要确认一次 UAC）"@,
            ),
        ),
        UpdateState::Error(error) => Some(error@),
    }
}

fn one_arg(language: Language, zh: &'static str, arg: &str) -> (r: String)
    ensures
        r@ == filled(translated(language, zh@), seq![arg@]),
{
    let args: Vec<String> = vec![owned(arg)];
    assert(texts(args@) =~= seq![arg@]);
    tf(language, zh, &args)
}

/// What the dialog of an update says, in a build of the version `current`.
pub fn update_dialog_overlay(language: Language, current: &str, state: &UpdateState) -> (r:
    UpdateView)
    ensures
        r.headline@ == update_headline(language, current@, *state),
        r.headline_tone == match *state {
            UpdateState::Available(_) => Tone::Accent,
            UpdateState::Error(_) => Tone::Danger,
            _ => Tone::Primary,
        },
        r.detail is Some == update_detail(language, current@, *state) is Some,
        r.detail matches Some(text) ==> update_detail(language, current@, *state) == Some(text@),
        match *state {
            UpdateState::Available(info) => {
                &&& r.notes is Some == (info.notes_url@.len() > 0)
                &&& r.notes matches Some(url) ==> url@ == info.notes_url@
                &&& r.action == if info.installer_url@.len() == 0 {
                    UpdateAction::NoInstaller
                } else {
                    UpdateAction::Download
                }
            },
            UpdateState::Error(_) => r.notes is None && r.action == UpdateAction::Retry,
            _ => r.notes is None && r.action == UpdateAction::Nothing,
        },
{
    match state {
        UpdateState::Idle | UpdateState::Checking => UpdateView {
            headline: owned(t(language, "正在检查更新…")),
            headline_tone: Tone::Primary,
            detail: None,
            notes: None,
            action: UpdateAction::Nothing,
        },
        UpdateState::UpToDate => UpdateView {
            headline: one_arg(language, "已是最新版本（v{}）", current),
            headline_tone: Tone::Primary,
            detail: None,
            notes: None,
            action: UpdateAction::Nothing,
        },
        UpdateState::Available(info) => UpdateView {
            headline: one_arg(language, "发现新版本 {}", info.tag.as_str()),
            headline_tone: Tone::Accent,
            detail: Some(one_arg(language, "当前版本 v{}", current)),
            notes: if info.notes_url.as_str().unicode_len() > 0 {
                Some(owned(info.notes_url.as_str()))
            } else {
                None
            },
            action: if info.installer_url.as_str().unicode_len() == 0 {
                UpdateAction::NoInstaller
            } else {
                UpdateAction::Download
            },
        },
        UpdateState::Downloading => UpdateView {
            headline: owned(t(language, "正在下载安装包…")),
            headline_tone: Tone::Primary,
            detail: Some(owned(t(language, "完成后会自动启动安装程序"))),
            notes: None,
            action: UpdateAction::Nothing,
        },
        UpdateState::Launched => UpdateView {
            headline: owned(t(language, "正在后台安装更新…")),
            headline_tone: Tone::Primary,
            detail: Some(
                owned(
                    t(
                        language,
                        "无需操作，安装完成后 Adit 会自动关闭并重启（可能需要确认一次 UAC）",
                    ),
                ),
            ),
            notes: None,
            action: UpdateAction::Nothing,
        },
        UpdateState::Error(error) => UpdateView {
            headline: owned(t(language, "检查/更新失败")),
            headline_tone: Tone::Danger,
            detail: Some(owned(error.as_str())),
            notes: None,
            action: UpdateAction::Retry,
        },
    }
}

// Snippets and trusted hosts.

/// A command that is kept for use.
#[derive(Debug, Clone)]
pub struct Snippet {
    pub name: String,
    pub command: String,
}

/// The list of a dialog: its rows, or what stands in their place.
pub struct RowList {
    /// A first and a second line for each.
    pub rows: Vec<(String, String)>,
    pub empty: Option<&'static str>,
}

/// The snippets, in order.
pub fn snippets_panel_overlay(language: Language, snippets: &Vec<Snippet>) -> (r: RowList)
    ensures
        r.rows@.len() == snippets@.len(),
        forall|i: int|
            0 <= i < r.rows@.len() ==> (#[trigger] r.rows@[i]).0@ == snippets@[i].name@
                && r.rows@[i].1@ == snippets@[i].command@,
        r.empty is Some == (snippets@.len() == 0),
        r.empty matches Some(text) ==> text@ == translated(
            language,
            "还没有片段。在下方添加常用命令，一键发送到当前终端。"@,
        ),
{
    let mut rows: Vec<(String, String)> = Vec::new();
    let mut i: usize = 0;
    while i < snippets.len()
        invariant
            i <= snippets.len(),
            rows@.len() == i,
            forall|j: int|
                0 <= j < i ==> (#[trigger] rows@[j]).0@ == snippets@[j].name@ && rows@[j].1@
                    == snippets@[j].command@,
        decreases snippets.len() - i,
    {
        rows.push((owned(snippets[i].name.as_str()), owned(snippets[i].command.as_str())));
        i += 1;
    }
    RowList {
        rows,
        empty: if snippets.len() == 0 {
            Some(t(language, "还没有片段。在下方添加常用命令，一键发送到当前终端。"))
        } else {
            None
        },
    }
}

/// A host that is trusted.
#[derive(Debug, Clone)]
pub struct KnownHost {
    pub host: String,
    pub key_type: String,
    pub fingerprint: String,
}

/// What the row of a trusted host says of its key.
pub open spec fn known_host_text(entry: &KnownHost) -> Seq<char> {
    entry.key_type@ + " · "@ + entry.fingerprint@
}

/// The trusted hosts, in order.
pub fn known_hosts_overlay(language: Language, hosts: &Vec<KnownHost>) -> (r: RowList)
    ensures
        r.rows@.len() == hosts@.len(),
        forall|i: int|
            0 <= i < r.rows@.len() ==> (#[trigger] r.rows@[i]).0@ == hosts@[i].host@
                && r.rows@[i].1@ == known_host_text(&hosts@[i]),
        r.empty is Some == (hosts@.len() == 0),
        r.empty matches Some(text) ==> text@ == translated(
            language,
            "尚无受信主机密钥（首次连接会自动信任并记录）"@,
        ),
{
    let mut rows: Vec<(String, String)> = Vec::new();
    let mut i: usize = 0;
    while i < hosts.len()
        invariant
            i <= hosts.len(),
            rows@.len() == i,
            forall|j: int|
                0 <= j < i ==> (#[trigger] rows@[j]).0@ == hosts@[j].host@ && rows@[j].1@
                    == known_host_text(&hosts@[j]),
        decreases hosts.len() - i,
    {
        let mut key: String = owned(hosts[i].key_type.as_str());
        key.append(" · ");
        key.append(hosts[i].fingerprint.as_str());
        rows.push((owned(hosts[i].host.as_str()), key));
        i += 1;
    }
    RowList {
        rows,
        empty: if hosts.len() == 0 {
            Some(t(language, "尚无受信主机密钥（首次连接会自动信任并记录）"))
        } else {
            None
        },
    }
}

/// What the dialog about the program says.
pub fn about_dialog_overlay(language: Language, version: &str) -> (r: Vec<String>)
    ensures
        texts(r@) == seq![
            filled(translated(language, "版本 v{}"@), seq![version@]),
            translated(language, "原生 Rust 桌面 SSH 终端"@),
            translated(language, "iced · russh · vte 终端核心 — 无 WebView，无 JavaScript"@),
            "github.com/weironz/adit"@,
        ],
{
    let lines: Vec<String> = vec![
        one_arg(language, "版本 v{}", version),
        owned(t(language, "原生 Rust 桌面 SSH 终端")),
        owned(t(language, "iced · russh · vte 终端核心 — 无 WebView，无 JavaScript")),
        owned("github.com/weironz/adit"),
    ];
    assert(texts(lines@) =~= seq![
        filled(translated(language, "版本 v{}"@), seq![version@]),
        translated(language, "原生 Rust 桌面 SSH 终端"@),
        translated(language, "iced · russh · vte 终端核心 — 无 WebView，无 JavaScript"@),
        "github.com/weironz/adit"@,
    ]);
    lines
}

/// A paste of up to eight lines and four hundred characters is shown as it is, line by
/// line; of a longer one the first eight lines are shown, and of those the first four
/// hundred characters with an ellipsis behind them.
pub proof fn law_a_preview_starts_like_its_paste(contents: Seq<char>)
    ensures
        ({
            let lines = text_lines(contents);
            let all = joined(lines, seq!['\n']);
            let first = joined(lines.take(8), seq!['\n']);
            &&& lines.len() <= 8 && all.len() <= 400 ==> paste_preview(contents) == all
            &&& lines.len() > 8 && first.len() <= 400 ==> paste_preview(contents) == first
            &&& lines.len() <= 8 && all.len() > 400 ==> paste_preview(contents) == all.take(
                400,
            ).push('…')
            &&& lines.len() > 8 && first.len() > 400 ==> paste_preview(contents) == first.take(
                400,
            ).push('…')
        }),
        text_lines(contents).len() > 0 ==> paste_line_count(contents) == text_lines(
            contents,
        ).len(),
{
    reveal_strlit("\n");
    reveal_strlit("…");
    assert("\n"@ =~= seq!['\n']);
    let first = first_lines(contents);
    if first.len() > 400 {
        assert(first.take(400) + "…"@ =~= first.take(400).push('…'));
    }
}

/// A question has a field for each thing that is asked: it shows what is asked and what
/// was answered so far, hides the answer unless it may be seen, and the last one submits.
pub proof fn law_a_field_shows_its_question(
    view: &AuthFieldView,
    language: Language,
    info: &AuthPromptInfo,
    answers: Seq<String>,
    i: int,
)
    requires
        0 <= i < info.prompts@.len(),
        is_auth_field(view, language, info, answers, i),
    ensures
        !blank(info.prompts@[i].prompt@) ==> view.label@ == info.prompts@[i].prompt@,
        i < answers.len() ==> view.value@ == answers[i]@,
        i >= answers.len() ==> view.value@.len() == 0,
        view.hidden <==> !info.prompts@[i].echo,
        view.submits <==> i + 1 == info.prompts@.len(),
{
}

/// A question is the one that is open where it is of the same session and has as many
/// fields as there are answers; any other starts afresh.
pub proof fn law_the_same_question_keeps_its_answers(
    prompt: &AuthPrompt,
    session: SessionId,
    info: &AuthPromptInfo,
)
    ensures
        prompt.prompt is None ==> prompt.is_new(session, info),
        prompt.prompt matches Some((open, _)) ==> (prompt.is_new(session, info) <==> open
            != session || prompt.answers@.len() != info.prompts@.len()),
{
}

} // verus!

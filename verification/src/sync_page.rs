//! The page of the settings that is about cloud services: a card for each
//! service, what there is to fill in for the chosen one, and how the last attempt
//! went.

use vstd::prelude::*;
use vstd::string::*;

use crate::i18n::{filled, t, tf, translated, Language};
use crate::sync::{client_id, sync_client_id, BuiltIn, SyncProvider, SyncSettings};
use crate::text::{blank, copy_texts, is_blank, owned, texts};

verus! {

/// A field of the page.
#[derive(Debug, Clone, Copy, PartialEq, Eq, Structural)]
pub enum SyncField {
    GistId,
    GitHubClientId,
    WebDavUrl,
    WebDavUsername,
    S3Endpoint,
    S3Region,
    S3Bucket,
    S3Key,
    S3AccessKey,
    GoogleClientId,
    GoogleClientSecret,
    OneDriveClientId,
    DropboxClientId,
}

/// The two halves of the page.
#[derive(Debug, Clone, Copy, PartialEq, Eq, Structural)]
pub enum SyncTab {
    Services,
    Status,
}

/// A code that the user enters in a browser.
#[derive(Debug, Clone)]
pub struct DevicePrompt {
    pub user_code: String,
    pub verification_uri: String,
}

/// What the page knows of itself.
pub struct SyncPageState {
    pub tab: SyncTab,
    /// Whether a secret is kept for the chosen service.
    pub secret_saved: bool,
    /// An authorisation is under way.
    pub connecting: bool,
    pub device_prompt: Option<DevicePrompt>,
    /// A synchronisation is under way.
    pub busy: bool,
    pub status: String,
    pub conflicts: Vec<String>,
}

/// The card of a service.
pub struct ProviderCard {
    pub provider: SyncProvider,
    pub label: &'static str,
    pub state: &'static str,
    pub pick: &'static str,
    pub selected: bool,
}

/// What state a service is in.
pub open spec fn provider_state(
    provider: SyncProvider,
    chosen: SyncProvider,
    secret_saved: bool,
) -> Seq<char> {
    if provider == SyncProvider::Off {
        "不同步，配置只留在本机"@
    } else if provider != chosen {
        "未使用"@
    } else if secret_saved {
        "已连接"@
    } else if provider.oauth() {
        "尚未授权"@
    } else {
        "尚未填写凭据"@
    }
}

/// Whether this is the card of a service: the chosen one cannot be picked again.
pub open spec fn is_card(
    card: &ProviderCard,
    language: Language,
    provider: SyncProvider,
    chosen: SyncProvider,
    secret_saved: bool,
) -> bool {
    &&& card.provider == provider
    &&& card.label@ == translated(language, provider.name())
    &&& card.state@ == translated(language, provider_state(provider, chosen, secret_saved))
    &&& card.pick@ == translated(
        language,
        if provider == chosen {
            "使用中"@
        } else {
            "使用"@
        },
    )
    &&& card.selected == (provider == chosen)
}

fn provider_card(
    language: Language,
    provider: SyncProvider,
    chosen: SyncProvider,
    secret_saved: bool,
) -> (r: ProviderCard)
    ensures
        is_card(&r, language, provider, chosen, secret_saved),
{
    let selected: bool = provider == chosen;
    let state: &'static str = if provider == SyncProvider::Off {
        "不同步，配置只留在本机"
    } else if !selected {
        "未使用"
    } else if secret_saved {
        "已连接"
    } else if provider.is_oauth() {
        "尚未授权"
    } else {
        "尚未填写凭据"
    };
    ProviderCard {
        provider,
        label: t(language, provider.label()),
        state: t(language, state),
        pick: t(
            language,
            if selected {
                "使用中"
            } else {
                "使用"
            },
        ),
        selected,
    }
}

/// The services in the order of their cards.
pub open spec fn providers() -> Seq<SyncProvider> {
    seq![
        SyncProvider::Off,
        SyncProvider::Gist,
        SyncProvider::WebDav,
        SyncProvider::S3,
        SyncProvider::GoogleDrive,
        SyncProvider::OneDrive,
        SyncProvider::Dropbox,
    ]
}

/// A line of what there is to fill in.
pub enum SyncLine {
    Note(&'static str),
    Field { label: &'static str, value: String, placeholder: &'static str, which: SyncField },
    /// What is kept is never shown: an empty box keeps it.
    Secret { label: &'static str, placeholder: &'static str },
    Connect { status: &'static str, label: &'static str, enabled: bool },
    Device { code: String, hint: String },
}

/// What a line says.
pub ghost enum LineView {
    Note(Seq<char>),
    Field(Seq<char>, Seq<char>, Seq<char>, SyncField),
    Secret(Seq<char>, Seq<char>),
    Connect(Seq<char>, Seq<char>, bool),
    Device(Seq<char>, Seq<char>),
}

/// What a line says.
pub open spec fn line_view(line: SyncLine) -> LineView {
    match line {
        SyncLine::Note(text) => LineView::Note(text@),
        SyncLine::Field { label, value, placeholder, which } => LineView::Field(
            label@,
            value@,
            placeholder@,
            which,
        ),
        SyncLine::Secret { label, placeholder } => LineView::Secret(label@, placeholder@),
        SyncLine::Connect { status, label, enabled } => LineView::Connect(
            status@,
            label@,
            enabled,
        ),
        SyncLine::Device { code, hint } => LineView::Device(code@, hint@),
    }
}

/// What lines say.
pub open spec fn lines_view(lines: Seq<SyncLine>) -> Seq<LineView> {
    lines.map_values(|line: SyncLine| line_view(line))
}

/// What stands in the box of a secret.
pub open spec fn secret_hint(saved: bool) -> Seq<char> {
    if saved {
        "已保存（留空则不修改）"@
    } else {
        "必填"@
    }
}

fn note(language: Language, zh: &'static str) -> (r: SyncLine)
    ensures
        line_view(r) == LineView::Note(translated(language, zh@)),
{
    SyncLine::Note(t(language, zh))
}

fn field(
    label: &'static str,
    value: &str,
    placeholder: &'static str,
    which: SyncField,
) -> (r: SyncLine)
    ensures
        line_view(r) == LineView::Field(label@, value@, placeholder@, which),
{
    SyncLine::Field { label, value: owned(value), placeholder, which }
}

fn secret_line(label: &'static str, saved: bool) -> (r: SyncLine)
    ensures
        line_view(r) == LineView::Secret(label@, secret_hint(saved)),
{
    SyncLine::Secret {
        label,
        placeholder: if saved {
            "已保存（留空则不修改）"
        } else {
            "必填"
        },
    }
}

/// What is said of the connection to a service.
pub open spec fn connection_status(
    provider: SyncProvider,
    p: &SyncPageState,
    configured: bool,
) -> Seq<char> {
    if provider == SyncProvider::Gist {
        if p.device_prompt is Some {
            "正在等待你在浏览器中确认…"@
        } else if p.connecting {
            "正在向 GitHub 申请设备码…"@
        } else if !configured {
            "此构建未内置 GitHub 的 client id — 可填写自己的，或直接粘贴令牌"@
        } else if p.secret_saved {
            "已连接"@
        } else {
            "尚未连接"@
        }
    } else {
        if p.connecting {
            "正在等待浏览器授权…"@
        } else if !configured {
            "此构建未内置该云服务的 client id — 请在下方填写自己的"@
        } else if p.secret_saved {
            "已连接"@
        } else {
            "尚未连接"@
        }
    }
}

/// The line from which an account is connected: dead while that is under way, and
/// where there is no client id to do it with.
pub open spec fn connect_line(
    language: Language,
    s: &SyncSettings,
    b: &BuiltIn,
    p: &SyncPageState,
) -> LineView {
    let configured = !blank(client_id(s, b, s.provider));
    LineView::Connect(
        translated(language, connection_status(s.provider, p, configured)),
        translated(
            language,
            if p.secret_saved {
                "重新连接账号"@
            } else {
                "连接账号"@
            },
        ),
        !p.connecting && configured,
    )
}

fn connect(language: Language, s: &SyncSettings, b: &BuiltIn, p: &SyncPageState) -> (r: SyncLine)
    ensures
        line_view(r) == connect_line(language, s, b, p),
{
    let configured: bool = !is_blank(sync_client_id(s, b, s.provider).as_str());
    let status: &'static str = if s.provider == SyncProvider::Gist {
        if p.device_prompt.is_some() {
            "正在等待你在浏览器中确认…"
        } else if p.connecting {
            "正在向 GitHub 申请设备码…"
        } else if !configured {
            "此构建未内置 GitHub 的 client id — 可填写自己的，或直接粘贴令牌"
        } else if p.secret_saved {
            "已连接"
        } else {
            "尚未连接"
        }
    } else {
        if p.connecting {
            "正在等待浏览器授权…"
        } else if !configured {
            "此构建未内置该云服务的 client id — 请在下方填写自己的"
        } else if p.secret_saved {
            "已连接"
        } else {
            "尚未连接"
        }
    };
    SyncLine::Connect {
        status: t(language, status),
        label: t(
            language,
            if p.secret_saved {
                "重新连接账号"
            } else {
                "连接账号"
            },
        ),
        enabled: !p.connecting && configured,
    }
}

/// The code that is to be entered in a browser, where there is one.
pub open spec fn device_lines(language: Language, prompt: Option<DevicePrompt>) -> Seq<LineView> {
    match prompt {
        Some(prompt) => seq![
            LineView::Device(
                prompt.user_code@,
                filled(
                    translated(
                        language,
                        "在浏览器中打开 {} 并输入以上用户码。完成后本页会自动继续。"@,
                    ),
                    seq![prompt.verification_uri@],
                ),
            ),
        ],
        None => Seq::empty(),
    }
}

/// The lines of a service that are the same whatever its state.
pub open spec fn fixed_lines(
    language: Language,
    s: &SyncSettings,
    p: &SyncPageState,
) -> Seq<LineView> {
    match s.provider {
        SyncProvider::Off => seq![
            LineView::Note(translated(language, "选择一个云服务后，会话、分组与设置会在多台机器间合并同步。"@)),
        ],
        SyncProvider::Gist => seq![
            LineView::Field("Gist ID"@, s.gist_id@, "留空则首次同步时自动创建"@, SyncField::GistId),
            LineView::Note(translated(language, "授权只申请 gist 权限，看不到你的仓库。GitHub 自带版本历史，可在网页端回滚。"@)),
            LineView::Note(translated(language, "浏览器不可用时，也可以直接粘贴一个带 gist 权限的个人访问令牌："@)),
            LineView::Secret("访问令牌"@, secret_hint(p.secret_saved)),
            LineView::Field(
                "client id"@,
                s.github_client_id@,
                "留空则用本应用内置的"@,
                SyncField::GitHubClientId,
            ),
        ],
        SyncProvider::WebDav => seq![
            LineView::Field(
                "文件 URL"@,
                s.webdav_url@,
                "https://dav.example.com/.../adit-sync.json"@,
                SyncField::WebDavUrl,
            ),
            LineView::Field("用户名"@, s.webdav_username@, "alice"@, SyncField::WebDavUsername),
            LineView::Secret("密码"@, secret_hint(p.secret_saved)),
            LineView::Note(translated(language, "填到文件而不是目录。Nextcloud、坚果云、群晖均可；该方式支持并发写检测，最安全。"@)),
        ],
        SyncProvider::S3 => seq![
            LineView::Field(
                "Endpoint"@,
                s.s3_endpoint@,
                "s3.amazonaws.com / play.min.io"@,
                SyncField::S3Endpoint,
            ),
            LineView::Field("区域"@, s.s3_region@, "us-east-1"@, SyncField::S3Region),
            LineView::Field("存储桶"@, s.s3_bucket@, "adit"@, SyncField::S3Bucket),
            LineView::Field("对象键"@, s.s3_key@, "adit/adit-sync.json"@, SyncField::S3Key),
            LineView::Field("Access Key"@, s.s3_access_key@, "AKIA..."@, SyncField::S3AccessKey),
            LineView::Secret("Secret Key"@, secret_hint(p.secret_saved)),
            LineView::Note(
                translated(language, "兼容 AWS S3、MinIO、Cloudflare R2、阿里云 OSS。MinIO 等自建网关需要路径风格寻址。"@),
            ),
        ],
        SyncProvider::GoogleDrive => seq![
            LineView::Note(translated(language, "仅访问本应用创建的文件，看不到你云端硬盘里的其他内容。"@)),
            LineView::Field(
                "client id"@,
                s.google_client_id@,
                "留空则用本应用内置的"@,
                SyncField::GoogleClientId,
            ),
            LineView::Note(translated(language, "填写自己的 client id 可避开共享配额；本地或自行编译的版本也需要它。"@)),
            LineView::Field(
                "client secret"@,
                s.google_client_secret@,
                "Google 桌面客户端必需，留空则用内置的"@,
                SyncField::GoogleClientSecret,
            ),
        ],
        SyncProvider::OneDrive => seq![
            LineView::Note(translated(language, "仅访问 Adit 自己的应用文件夹，碰不到其他文件。"@)),
            LineView::Field(
                "client id"@,
                s.onedrive_client_id@,
                "留空则用本应用内置的"@,
                SyncField::OneDriveClientId,
            ),
            LineView::Note(translated(language, "填写自己的 client id 可避开共享配额；本地或自行编译的版本也需要它。"@)),
        ],
        SyncProvider::Dropbox => seq![
            LineView::Note(translated(language, "仅访问 Apps/Adit 文件夹，碰不到其他文件。"@)),
            LineView::Field(
                "client id"@,
                s.dropbox_client_id@,
                "留空则用本应用内置的"@,
                SyncField::DropboxClientId,
            ),
            LineView::Note(translated(language, "填写自己的 client id 可避开共享配额；本地或自行编译的版本也需要它。"@)),
        ],
    }
}

/// What there is to fill in for the chosen service.
pub open spec fn service_lines(
    language: Language,
    s: &SyncSettings,
    b: &BuiltIn,
    p: &SyncPageState,
) -> Seq<LineView> {
    if s.provider == SyncProvider::Gist {
        seq![connect_line(language, s, b, p)] + device_lines(language, p.device_prompt)
            + fixed_lines(language, s, p)
    } else if s.provider.oauth() {
        seq![connect_line(language, s, b, p)] + fixed_lines(language, s, p)
    } else {
        fixed_lines(language, s, p)
    }
}

fn fixed(language: Language, s: &SyncSettings, p: &SyncPageState) -> (r: Vec<SyncLine>)
    ensures
        lines_view(r@) == fixed_lines(language, s, p),
{
    let lines: Vec<SyncLine> = match s.provider {
        SyncProvider::Off => vec![
            note(language, "选择一个云服务后，会话、分组与设置会在多台机器间合并同步。"),
        ],
        SyncProvider::Gist => vec![
            field("Gist ID", s.gist_id.as_str(), "留空则首次同步时自动创建", SyncField::GistId),
            note(language, "授权只申请 gist 权限，看不到你的仓库。GitHub 自带版本历史，可在网页端回滚。"),
            note(language, "浏览器不可用时，也可以直接粘贴一个带 gist 权限的个人访问令牌："),
            secret_line("访问令牌", p.secret_saved),
            field(
                "client id",
                s.github_client_id.as_str(),
                "留空则用本应用内置的",
                SyncField::GitHubClientId,
            ),
        ],
        SyncProvider::WebDav => vec![
            field(
                "文件 URL",
                s.webdav_url.as_str(),
                "https://dav.example.com/.../adit-sync.json",
                SyncField::WebDavUrl,
            ),
            field("用户名", s.webdav_username.as_str(), "alice", SyncField::WebDavUsername),
            secret_line("密码", p.secret_saved),
            note(language, "填到文件而不是目录。Nextcloud、坚果云、群晖均可；该方式支持并发写检测，最安全。"),
        ],
        SyncProvider::S3 => vec![
            field(
                "Endpoint",
                s.s3_endpoint.as_str(),
                "s3.amazonaws.com / play.min.io",
                SyncField::S3Endpoint,
            ),
            field("区域", s.s3_region.as_str(), "us-east-1", SyncField::S3Region),
            field("存储桶", s.s3_bucket.as_str(), "adit", SyncField::S3Bucket),
            field("对象键", s.s3_key.as_str(), "adit/adit-sync.json", SyncField::S3Key),
            field("Access Key", s.s3_access_key.as_str(), "AKIA...", SyncField::S3AccessKey),
            secret_line("Secret Key", p.secret_saved),
            note(language, "兼容 AWS S3、MinIO、Cloudflare R2、阿里云 OSS。MinIO 等自建网关需要路径风格寻址。"),
        ],
        SyncProvider::GoogleDrive => vec![
            note(language, "仅访问本应用创建的文件，看不到你云端硬盘里的其他内容。"),
            field(
                "client id",
                s.google_client_id.as_str(),
                "留空则用本应用内置的",
                SyncField::GoogleClientId,
            ),
            note(language, "填写自己的 client id 可避开共享配额；本地或自行编译的版本也需要它。"),
            field(
                "client secret",
                s.google_client_secret.as_str(),
                "Google 桌面客户端必需，留空则用内置的",
                SyncField::GoogleClientSecret,
            ),
        ],
        SyncProvider::OneDrive => vec![
            note(language, "仅访问 Adit 自己的应用文件夹，碰不到其他文件。"),
            field(
                "client id",
                s.onedrive_client_id.as_str(),
                "留空则用本应用内置的",
                SyncField::OneDriveClientId,
            ),
            note(language, "填写自己的 client id 可避开共享配额；本地或自行编译的版本也需要它。"),
        ],
        SyncProvider::Dropbox => vec![
            note(language, "仅访问 Apps/Adit 文件夹，碰不到其他文件。"),
            field(
                "client id",
                s.dropbox_client_id.as_str(),
                "留空则用本应用内置的",
                SyncField::DropboxClientId,
            ),
            note(language, "填写自己的 client id 可避开共享配额；本地或自行编译的版本也需要它。"),
        ],
    };
    assert(lines_view(lines@) =~= fixed_lines(language, s, p));
    lines
}

fn services(language: Language, s: &SyncSettings, b: &BuiltIn, p: &SyncPageState) -> (r: Vec<
    SyncLine,
>)
    ensures
        lines_view(r@) == service_lines(language, s, b, p),
{
    let mut lines: Vec<SyncLine> = Vec::new();
    if s.provider == SyncProvider::Gist || s.provider.is_oauth() {
        lines.push(connect(language, s, b, p));
        assert(lines_view(lines@) =~= seq![connect_line(language, s, b, p)]);
    }
    if s.provider == SyncProvider::Gist {
        match &p.device_prompt {
            Some(prompt) => {
                let args: Vec<String> = vec![owned(prompt.verification_uri.as_str())];
                assert(texts(args@) =~= seq![prompt.verification_uri@]);
                lines.push(
                    SyncLine::Device {
                        code: owned(prompt.user_code.as_str()),
                        hint: tf(
                            language,
                            "在浏览器中打开 {} 并输入以上用户码。完成后本页会自动继续。",
                            &args,
                        ),
                    },
                );
            },
            None => {},
        }
        assert(lines_view(lines@) =~= seq![connect_line(language, s, b, p)] + device_lines(
            language,
            p.device_prompt,
        ));
    }
    let ghost before = lines@;
    let mut rest: Vec<SyncLine> = fixed(language, s, p);
    let ghost after = rest@;
    lines.append(&mut rest);
    assert(lines_view(lines@) =~= lines_view(before) + lines_view(after));
    assert(lines_view(lines@) =~= service_lines(language, s, b, p));
    lines
}

/// How the last attempt went, and how to make another.
pub struct SyncStatus {
    /// Whether saved passwords go along; not asked where there is no service.
    pub include_credentials: Option<bool>,
    pub status: Option<String>,
    pub conflicts: Vec<String>,
    pub button: &'static str,
    pub enabled: bool,
}

fn status_of(language: Language, s: &SyncSettings, p: &SyncPageState) -> (r: SyncStatus)
    ensures
        is_status(&r, language, s, p),
{
    SyncStatus {
        include_credentials: if s.provider == SyncProvider::Off {
            None
        } else {
            Some(s.include_credentials)
        },
        status: if p.status.unicode_len() > 0 {
            Some(owned(p.status.as_str()))
        } else {
            None
        },
        conflicts: copy_texts(&p.conflicts),
        button: t(
            language,
            if p.busy {
                "同步中…"
            } else {
                "立即同步"
            },
        ),
        enabled: !p.busy && s.provider != SyncProvider::Off,
    }
}

/// Whether this says how the last attempt went.
pub open spec fn is_status(
    status: &SyncStatus,
    language: Language,
    s: &SyncSettings,
    p: &SyncPageState,
) -> bool {
    &&& status.include_credentials == if s.provider == SyncProvider::Off {
        None
    } else {
        Some(s.include_credentials)
    }
    &&& status.status is Some == (p.status@.len() > 0)
    &&& status.status matches Some(text) ==> text@ == p.status@
    &&& texts(status.conflicts@) == texts(p.conflicts@)
    &&& status.button@ == translated(
        language,
        if p.busy {
            "同步中…"@
        } else {
            "立即同步"@
        },
    )
    &&& status.enabled == (!p.busy && s.provider != SyncProvider::Off)
}

/// The page.
pub enum SyncPage {
    Services { cards: Vec<ProviderCard>, lines: Vec<SyncLine> },
    Status(SyncStatus),
}

/// The page about cloud services: its services, or how it went.
pub fn sync_section(language: Language, s: &SyncSettings, b: &BuiltIn, p: &SyncPageState) -> (r:
    SyncPage)
    ensures
        match r {
            SyncPage::Services { cards, lines } => {
                &&& p.tab == SyncTab::Services
                &&& cards@.len() == providers().len()
                &&& forall|i: int|
                    0 <= i < providers().len() ==> is_card(
                        &#[trigger] cards@[i],
                        language,
                        providers()[i],
                        s.provider,
                        p.secret_saved,
                    )
                &&& lines_view(lines@) == service_lines(language, s, b, p)
            },
            SyncPage::Status(status) => {
                &&& p.tab == SyncTab::Status
                &&& is_status(&status, language, s, p)
            },
        },
{
    match p.tab {
        SyncTab::Services => {
            let saved: bool = p.secret_saved;
            let cards: Vec<ProviderCard> = vec![
                provider_card(language, SyncProvider::Off, s.provider, saved),
                provider_card(language, SyncProvider::Gist, s.provider, saved),
                provider_card(language, SyncProvider::WebDav, s.provider, saved),
                provider_card(language, SyncProvider::S3, s.provider, saved),
                provider_card(language, SyncProvider::GoogleDrive, s.provider, saved),
                provider_card(language, SyncProvider::OneDrive, s.provider, saved),
                provider_card(language, SyncProvider::Dropbox, s.provider, saved),
            ];
            SyncPage::Services { cards, lines: services(language, s, b, p) }
        },
        SyncTab::Status => SyncPage::Status(status_of(language, s, p)),
    }
}

/// Exactly one card is in use, and it is the only one that cannot be picked.
pub proof fn law_one_service_is_in_use(chosen: SyncProvider)
    ensures
        exists|i: int|
            0 <= i < providers().len() && #[trigger] providers()[i] == chosen && forall|j: int|
                0 <= j < providers().len() && #[trigger] providers()[j] == chosen ==> j == i,
{
    let at: int = match chosen {
        SyncProvider::Off => 0,
        SyncProvider::Gist => 1,
        SyncProvider::WebDav => 2,
        SyncProvider::S3 => 3,
        SyncProvider::GoogleDrive => 4,
        SyncProvider::OneDrive => 5,
        SyncProvider::Dropbox => 6,
    };
    assert(providers()[at] == chosen);
}

/// The card of a service shows whether it is the one in use; and it can be synchronised
/// at once unless that is under way or nothing is chosen.
pub proof fn law_the_page_shows_what_is_in_use(
    card: &ProviderCard,
    status: &SyncStatus,
    language: Language,
    provider: SyncProvider,
    s: &SyncSettings,
    p: &SyncPageState,
    secret_saved: bool,
)
    requires
        is_card(card, language, provider, s.provider, secret_saved),
        is_status(status, language, s, p),
    ensures
        card.provider == provider,
        card.selected <==> provider == s.provider,
        card.label@ == translated(language, provider.name()),
        status.enabled <==> !p.busy && s.provider != SyncProvider::Off,
        status.status is None <==> p.status@.len() == 0,
        status.status matches Some(text) ==> text@ == p.status@,
        texts(status.conflicts@) == texts(p.conflicts@),
        status.include_credentials is None <==> s.provider == SyncProvider::Off,
        status.include_credentials matches Some(kept) ==> kept == s.include_credentials,
{
}

} // verus!

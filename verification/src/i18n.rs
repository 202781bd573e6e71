//! The language of the interface.
//!
//! Every text was written in Chinese first, so a text that has no translation is
//! shown as it was written, and the table can grow on its own.

use vstd::prelude::*;
use vstd::string::*;

use crate::text::same;

verus! {

/// The languages of the interface.
#[derive(Debug, Clone, Copy, PartialEq, Eq, Structural)]
pub enum Language {
    Zh,
    En,
}

/// What the table holds for a text, where it holds anything.
pub open spec fn translation(zh: Seq<char>) -> Option<Seq<char>> {
    if zh == "RDP 会话共享剪贴板（仅文本，下次连接生效）"@ {
        Some("Share the clipboard with RDP sessions (text only, applies to the next connection)"@)
    } else if zh == "SHA256 指纹"@ {
        Some("SHA256 fingerprint"@)
    } else if zh == "iced · russh · vte 终端核心 — 无 WebView，无 JavaScript"@ {
        Some("iced · russh · vte terminal core — no WebView, no JavaScript"@)
    } else if zh == "下载并更新"@ {
        Some("Download and update"@)
    } else if zh == "仅对服务端未着色的文本生效，全屏程序（vim、less 等）中不启用"@ {
        Some("Applies only to text the server left uncoloured; off inside full-screen programs such as vim and less"@)
    } else if zh == "会话日志"@ {
        Some("Session logs"@)
    } else if zh == "保存到会话配置（连接时自动开启）"@ {
        Some("Save to the session profile (on automatically when it connects)"@)
    } else if zh == "保存密码"@ {
        Some("Save password"@)
    } else if zh == "关闭"@ {
        Some("Close"@)
    } else if zh == "兼容 AWS S3、MinIO、Cloudflare R2、阿里云 OSS。MinIO 等自建网关需要路径风格寻址。"@ {
        Some("Works with AWS S3, MinIO, Cloudflare R2 and Alibaba OSS. Self-hosted gateways such as MinIO need path-style addressing."@)
    } else if zh == "删除"@ {
        Some("Delete"@)
    } else if zh == "删除某台主机后，下次连接会重新记录其密钥；密钥被更改（可能的中间人）时仍会拦截。"@ {
        Some("Removing a host makes the next connection record its key afresh; a key that has changed — a possible man-in-the-middle — is still refused."@)
    } else if zh == "加密保存在配置目录，可随 Dropbox 等同步到其他电脑"@ {
        Some("Stored encrypted in the config folder, and can travel to other machines through Dropbox or similar"@)
    } else if zh == "即时"@ {
        Some("Immediately"@)
    } else if zh == "原生 Rust 桌面 SSH 终端"@ {
        Some("A native Rust desktop SSH terminal"@)
    } else if zh == "发送"@ {
        Some("Send"@)
    } else if zh == "取消"@ {
        Some("Cancel"@)
    } else if zh == "受信主机密钥"@ {
        Some("Trusted host keys"@)
    } else if zh == "可用变量：%N 会话名  %H 主机  %Y 年 %M 月 %D 日  %h 时 %m 分 %s 秒"@ {
        Some("Variables: %N session  %H host  %Y year %M month %D day  %h hour %m minute %s second"@)
    } else if zh == "右键直接粘贴（不弹出菜单）"@ {
        Some("Right-click pastes straight away (no menu)"@)
    } else if zh == "同时同步已保存的密码（加密后上传，主密码不出本机）"@ {
        Some("Also sync saved passwords (uploaded encrypted; the master passphrase never leaves this machine)"@)
    } else if zh == "启动时自动检查更新"@ {
        Some("Check for updates on startup"@)
    } else if zh == "命令片段"@ {
        Some("Snippets"@)
    } else if zh == "填写自己的 client id 可避开共享配额；本地或自行编译的版本也需要它。"@ {
        Some("Your own client id avoids the shared quota; a local or self-built copy needs one anyway."@)
    } else if zh == "填到文件而不是目录。Nextcloud、坚果云、群晖均可；该方式支持并发写检测，最安全。"@ {
        Some("Point this at a file, not a folder. Nextcloud, Jianguoyun and Synology all work; this backend detects concurrent writes, which makes it the safest of the six."@)
    } else if zh == "字体"@ {
        Some("Font"@)
    } else if zh == "字号"@ {
        Some("Size"@)
    } else if zh == "完成后会自动启动安装程序"@ {
        Some("The installer starts by itself once the download finishes"@)
    } else if zh == "密钥变更可能意味着中间人攻击。仅在你确知服务器更换过密钥时才接受。"@ {
        Some("A changed key can mean a man-in-the-middle. Accept only if you know the server's key was replaced."@)
    } else if zh == "尚无受信主机密钥（首次连接会自动信任并记录）"@ {
        Some("No trusted host keys yet (the first connection trusts and records one)"@)
    } else if zh == "已保存（连接时自动开启）"@ {
        Some("Saved (on automatically when it connects)"@)
    } else if zh == "恢复默认"@ {
        Some("Reset to default"@)
    } else if zh == "打开"@ {
        Some("Open"@)
    } else if zh == "打开链接？"@ {
        Some("Open this link?"@)
    } else if zh == "提示：右键粘贴开启后，清屏 / 回到底部可用工具栏或 Edit 菜单。程序也支持 bracketed paste（应用开启后粘贴不会被自动执行）。"@ {
        Some("Note: with right-click paste on, clear the screen and jump to the bottom from the Edit menu. Bracketed paste is supported, so once the remote program asks for it a paste is not executed on its own."@)
    } else if zh == "新增片段"@ {
        Some("New snippet"@)
    } else if zh == "无需操作，安装完成后 Adit 会自动关闭并重启（可能需要确认一次 UAC）"@ {
        Some("Nothing to do — Adit closes and restarts itself when the install finishes (UAC may ask once)"@)
    } else if zh == "日志文件名（留空 = 默认）"@ {
        Some("Log file name (blank = default)"@)
    } else if zh == "日志目录（留空 = 配置目录下的 logs）"@ {
        Some("Log folder (blank = logs under the config folder)"@)
    } else if zh == "更改…"@ {
        Some("Change…"@)
    } else if zh == "查找"@ {
        Some("Find"@)
    } else if zh == "查看发布说明"@ {
        Some("Release notes"@)
    } else if zh == "检查/更新失败"@ {
        Some("Update check failed"@)
    } else if zh == "检查更新"@ {
        Some("Check for updates"@)
    } else if zh == "正在下载安装包…"@ {
        Some("Downloading the installer…"@)
    } else if zh == "正在后台安装更新…"@ {
        Some("Installing the update…"@)
    } else if zh == "正在检查更新…"@ {
        Some("Checking for updates…"@)
    } else if zh == "正在连接 RDP…"@ {
        Some("Connecting over RDP…"@)
    } else if zh == "此前记录的指纹"@ {
        Some("Fingerprint recorded earlier"@)
    } else if zh == "此链接来自终端输出，请确认目标地址后再打开："@ {
        Some("This link came from terminal output. Check where it goes before opening it:"@)
    } else if zh == "活动转发"@ {
        Some("Active forwards"@)
    } else if zh == "浏览…"@ {
        Some("Browse…"@)
    } else if zh == "添加"@ {
        Some("Add"@)
    } else if zh == "添加转发"@ {
        Some("Add forward"@)
    } else if zh == "滚动历史行数"@ {
        Some("Scrollback lines"@)
    } else if zh == "确定"@ {
        Some("OK"@)
    } else if zh == "确认粘贴"@ {
        Some("Confirm paste"@)
    } else if zh == "端口转发"@ {
        Some("Port forwarding"@)
    } else if zh == "类型"@ {
        Some("Type"@)
    } else if zh == "粘贴"@ {
        Some("Paste"@)
    } else if zh == "粘贴多行内容前先确认"@ {
        Some("Confirm before pasting more than one line"@)
    } else if zh == "终端复制 / 粘贴（PuTTY 风格）"@ {
        Some("Terminal copy / paste (PuTTY style)"@)
    } else if zh == "自动信任新主机密钥（不逐个弹窗确认）"@ {
        Some("Trust new host keys automatically (no prompt each time)"@)
    } else if zh == "记录为纯文本（去除颜色/转义码，便于阅读和 grep）"@ {
        Some("Log as plain text (colours and escapes stripped, so it reads and greps cleanly)"@)
    } else if zh == "设置"@ {
        Some("Settings"@)
    } else if zh == "该版本暂无 Windows 安装包"@ {
        Some("That release has no Windows installer"@)
    } else if zh == "输出高亮"@ {
        Some("Output highlighting"@)
    } else if zh == "还没有片段。在下方添加常用命令，一键发送到当前终端。"@ {
        Some("No snippets yet. Add the commands you type often and send them to the terminal in one click."@)
    } else if zh == "连接后自动开始记录日志"@ {
        Some("Start logging as soon as a session connects"@)
    } else if zh == "连接超时（秒，0 = 不限）"@ {
        Some("Connect timeout (seconds, 0 = no limit)"@)
    } else if zh == "选中内容即复制到剪贴板"@ {
        Some("Copy to the clipboard on selection"@)
    } else if zh == "选择一个云服务后，会话、分组与设置会在多台机器间合并同步。"@ {
        Some("Pick a cloud service and your sessions, groups and settings merge across machines."@)
    } else if zh == "配置目录"@ {
        Some("Config folder"@)
    } else if zh == "配色方案"@ {
        Some("Colour scheme"@)
    } else if zh == "重命名标签"@ {
        Some("Rename tab"@)
    } else if zh == "重试"@ {
        Some("Retry"@)
    } else if zh == "重连"@ {
        Some("Reconnect"@)
    } else if zh == "需要一个带 gist 权限的 GitHub 个人访问令牌。GitHub 自带版本历史，可在网页端回滚。"@ {
        Some("Needs a GitHub personal access token with the gist scope. GitHub keeps version history, so you can roll back from the web."@)
    } else if zh == "需要交互式验证"@ {
        Some("Interactive authentication required"@)
    } else if zh == "预览"@ {
        Some("Preview"@)
    } else if zh == "首次连接此主机。请通过其它可信渠道核对指纹后再信任。"@ {
        Some("First connection to this host. Check the fingerprint through another trusted channel before you trust it."@)
    } else if zh == "（无）"@ {
        Some("(none)"@)
    } else if zh == "（暂无转发）"@ {
        Some("(no forwards)"@)
    } else if zh == "界面语言"@ {
        Some("Language"@)
    } else if zh == "切换后立即生效"@ {
        Some("Takes effect immediately"@)
    } else if zh == "应用"@ {
        Some("App"@)
    } else if zh == "外观"@ {
        Some("Appearance"@)
    } else if zh == "终端"@ {
        Some("Terminal"@)
    } else if zh == "日志"@ {
        Some("Logs"@)
    } else if zh == "同步与云"@ {
        Some("Sync & cloud"@)
    } else if zh == "云服务"@ {
        Some("Cloud services"@)
    } else if zh == "同步状态"@ {
        Some("Sync status"@)
    } else if zh == "未启用"@ {
        Some("Off"@)
    } else if zh == "S3 兼容存储"@ {
        Some("S3-compatible"@)
    } else if zh == "不同步，配置只留在本机"@ {
        Some("Not syncing; everything stays on this machine"@)
    } else if zh == "未使用"@ {
        Some("Not in use"@)
    } else if zh == "已连接"@ {
        Some("Connected"@)
    } else if zh == "尚未授权"@ {
        Some("Not authorised"@)
    } else if zh == "尚未填写凭据"@ {
        Some("No credentials yet"@)
    } else if zh == "使用中"@ {
        Some("In use"@)
    } else if zh == "使用"@ {
        Some("Use"@)
    } else if zh == "立即同步"@ {
        Some("Sync now"@)
    } else if zh == "同步中…"@ {
        Some("Syncing…"@)
    } else if zh == "连接账号"@ {
        Some("Connect account"@)
    } else if zh == "重新连接账号"@ {
        Some("Reconnect account"@)
    } else if zh == "正在等待浏览器授权…"@ {
        Some("Waiting for the browser…"@)
    } else if zh == "尚未连接"@ {
        Some("Not connected"@)
    } else if zh == "此构建未内置该云服务的 client id — 请在下方填写自己的"@ {
        Some("This build has no client id for that service — enter your own below"@)
    } else if zh == "留空则用本应用内置的"@ {
        Some("Blank uses the one built in"@)
    } else if zh == "Google 桌面客户端必需，留空则用内置的"@ {
        Some("Required for a Google desktop client; blank uses the built-in one"@)
    } else if zh == "仅访问本应用创建的文件，看不到你云端硬盘里的其他内容。"@ {
        Some("Reaches only files this app created; the rest of your Drive stays invisible to it."@)
    } else if zh == "仅访问 Adit 自己的应用文件夹，碰不到其他文件。"@ {
        Some("Reaches only Adit's own app folder and nothing else."@)
    } else if zh == "仅访问 Apps/Adit 文件夹，碰不到其他文件。"@ {
        Some("Reaches only the Apps/Adit folder and nothing else."@)
    } else if zh == "侧边栏开关"@ {
        Some("Toggle sidebar"@)
    } else if zh == "深色模式开关"@ {
        Some("Toggle dark mode"@)
    } else if zh == "分屏（添加窗格）"@ {
        Some("Split pane"@)
    } else if zh == "垂直平铺（并排）"@ {
        Some("Tile vertically"@)
    } else if zh == "水平平铺（上下）"@ {
        Some("Tile horizontally"@)
    } else if zh == "网格平铺"@ {
        Some("Tile as grid"@)
    } else if zh == "合并为标签"@ {
        Some("Merge into tabs"@)
    } else if zh == "命令窗口"@ {
        Some("Command window"@)
    } else if zh == "输入广播开关"@ {
        Some("Toggle broadcast"@)
    } else if zh == "新建会话"@ {
        Some("New session"@)
    } else if zh == "新建分组"@ {
        Some("New group"@)
    } else if zh == "保存会话"@ {
        Some("Save session"@)
    } else if zh == "删除会话"@ {
        Some("Delete session"@)
    } else if zh == "按名称排序"@ {
        Some("Sort by name"@)
    } else if zh == "按主机排序"@ {
        Some("Sort by host"@)
    } else if zh == "导入 SecureCRT 会话…"@ {
        Some("Import SecureCRT sessions…"@)
    } else if zh == "设置…"@ {
        Some("Settings…"@)
    } else if zh == "关闭标签"@ {
        Some("Close tab"@)
    } else if zh == "连接"@ {
        Some("Connect"@)
    } else if zh == "断开"@ {
        Some("Disconnect"@)
    } else if zh == "自动重连开关"@ {
        Some("Toggle auto-reconnect"@)
    } else if zh == "主机密钥…"@ {
        Some("Host keys…"@)
    } else if zh == "打开演示标签"@ {
        Some("Open demo tab"@)
    } else if zh == "清屏"@ {
        Some("Clear screen"@)
    } else if zh == "记录日志开关"@ {
        Some("Toggle session log"@)
    } else if zh == "检查更新…"@ {
        Some("Check for updates…"@)
    } else if zh == "关于"@ {
        Some("About"@)
    } else {
        None
    }
}

/// A text in English, or itself where there is no translation.
pub open spec fn english(zh: Seq<char>) -> Seq<char> {
    match translation(zh) {
        Some(en) => en,
        None => zh,
    }
}

/// A text in English, or itself where there is no translation.
#[verifier::rlimit(60)]
pub fn en(zh: &'static str) -> (r: &'static str)
    ensures
        r@ == english(zh@),
{
    if same(zh, "RDP 会话共享剪贴板（仅文本，下次连接生效）") {
        "Share the clipboard with RDP sessions (text only, applies to the next connection)"
    } else if same(zh, "SHA256 指纹") {
        "SHA256 fingerprint"
    } else if same(zh, "iced · russh · vte 终端核心 — 无 WebView，无 JavaScript") {
        "iced · russh · vte terminal core — no WebView, no JavaScript"
    } else if same(zh, "下载并更新") {
        "Download and update"
    } else if same(zh, "仅对服务端未着色的文本生效，全屏程序（vim、less 等）中不启用") {
        "Applies only to text the server left uncoloured; off inside full-screen programs such as vim and less"
    } else if same(zh, "会话日志") {
        "Session logs"
    } else if same(zh, "保存到会话配置（连接时自动开启）") {
        "Save to the session profile (on automatically when it connects)"
    } else if same(zh, "保存密码") {
        "Save password"
    } else if same(zh, "关闭") {
        "Close"
    } else if same(zh, "兼容 AWS S3、MinIO、Cloudflare R2、阿里云 OSS。MinIO 等自建网关需要路径风格寻址。") {
        "Works with AWS S3, MinIO, Cloudflare R2 and Alibaba OSS. Self-hosted gateways such as MinIO need path-style addressing."
    } else if same(zh, "删除") {
        "Delete"
    } else if same(zh, "删除某台主机后，下次连接会重新记录其密钥；密钥被更改（可能的中间人）时仍会拦截。") {
        "Removing a host makes the next connection record its key afresh; a key that has changed — a possible man-in-the-middle — is still refused."
    } else if same(zh, "加密保存在配置目录，可随 Dropbox 等同步到其他电脑") {
        "Stored encrypted in the config folder, and can travel to other machines through Dropbox or similar"
    } else if same(zh, "即时") {
        "Immediately"
    } else if same(zh, "原生 Rust 桌面 SSH 终端") {
        "A native Rust desktop SSH terminal"
    } else if same(zh, "发送") {
        "Send"
    } else if same(zh, "取消") {
        "Cancel"
    } else if same(zh, "受信主机密钥") {
        "Trusted host keys"
    } else if same(zh, "可用变量：%N 会话名  %H 主机  %Y 年 %M 月 %D 日  %h 时 %m 分 %s 秒") {
        "Variables: %N session  %H host  %Y year %M month %D day  %h hour %m minute %s second"
    } else if same(zh, "右键直接粘贴（不弹出菜单）") {
        "Right-click pastes straight away (no menu)"
    } else if same(zh, "同时同步已保存的密码（加密后上传，主密码不出本机）") {
        "Also sync saved passwords (uploaded encrypted; the master passphrase never leaves this machine)"
    } else if same(zh, "启动时自动检查更新") {
        "Check for updates on startup"
    } else if same(zh, "命令片段") {
        "Snippets"
    } else if same(zh, "填写自己的 client id 可避开共享配额；本地或自行编译的版本也需要它。") {
        "Your own client id avoids the shared quota; a local or self-built copy needs one anyway."
    } else if same(zh, "填到文件而不是目录。Nextcloud、坚果云、群晖均可；该方式支持并发写检测，最安全。") {
        "Point this at a file, not a folder. Nextcloud, Jianguoyun and Synology all work; this backend detects concurrent writes, which makes it the safest of the six."
    } else if same(zh, "字体") {
        "Font"
    } else if same(zh, "字号") {
        "Size"
    } else if same(zh, "完成后会自动启动安装程序") {
        "The installer starts by itself once the download finishes"
    } else if same(zh, "密钥变更可能意味着中间人攻击。仅在你确知服务器更换过密钥时才接受。") {
        "A changed key can mean a man-in-the-middle. Accept only if you know the server's key was replaced."
    } else if same(zh, "尚无受信主机密钥（首次连接会自动信任并记录）") {
        "No trusted host keys yet (the first connection trusts and records one)"
    } else if same(zh, "已保存（连接时自动开启）") {
        "Saved (on automatically when it connects)"
    } else if same(zh, "恢复默认") {
        "Reset to default"
    } else if same(zh, "打开") {
        "Open"
    } else if same(zh, "打开链接？") {
        "Open this link?"
    } else if same(zh, "提示：右键粘贴开启后，清屏 / 回到底部可用工具栏或 Edit 菜单。程序也支持 bracketed paste（应用开启后粘贴不会被自动执行）。") {
        "Note: with right-click paste on, clear the screen and jump to the bottom from the Edit menu. Bracketed paste is supported, so once the remote program asks for it a paste is not executed on its own."
    } else if same(zh, "新增片段") {
        "New snippet"
    } else if same(zh, "无需操作，安装完成后 Adit 会自动关闭并重启（可能需要确认一次 UAC）") {
        "Nothing to do — Adit closes and restarts itself when the install finishes (UAC may ask once)"
    } else if same(zh, "日志文件名（留空 = 默认）") {
        "Log file name (blank = default)"
    } else if same(zh, "日志目录（留空 = 配置目录下的 logs）") {
        "Log folder (blank = logs under the config folder)"
    } else if same(zh, "更改…") {
        "Change…"
    } else if same(zh, "查找") {
        "Find"
    } else if same(zh, "查看发布说明") {
        "Release notes"
    } else if same(zh, "检查/更新失败") {
        "Update check failed"
    } else if same(zh, "检查更新") {
        "Check for updates"
    } else if same(zh, "正在下载安装包…") {
        "Downloading the installer…"
    } else if same(zh, "正在后台安装更新…") {
        "Installing the update…"
    } else if same(zh, "正在检查更新…") {
        "Checking for updates…"
    } else if same(zh, "正在连接 RDP…") {
        "Connecting over RDP…"
    } else if same(zh, "此前记录的指纹") {
        "Fingerprint recorded earlier"
    } else if same(zh, "此链接来自终端输出，请确认目标地址后再打开：") {
        "This link came from terminal output. Check where it goes before opening it:"
    } else if same(zh, "活动转发") {
        "Active forwards"
    } else if same(zh, "浏览…") {
        "Browse…"
    } else if same(zh, "添加") {
        "Add"
    } else if same(zh, "添加转发") {
        "Add forward"
    } else if same(zh, "滚动历史行数") {
        "Scrollback lines"
    } else if same(zh, "确定") {
        "OK"
    } else if same(zh, "确认粘贴") {
        "Confirm paste"
    } else if same(zh, "端口转发") {
        "Port forwarding"
    } else if same(zh, "类型") {
        "Type"
    } else if same(zh, "粘贴") {
        "Paste"
    } else if same(zh, "粘贴多行内容前先确认") {
        "Confirm before pasting more than one line"
    } else if same(zh, "终端复制 / 粘贴（PuTTY 风格）") {
        "Terminal copy / paste (PuTTY style)"
    } else if same(zh, "自动信任新主机密钥（不逐个弹窗确认）") {
        "Trust new host keys automatically (no prompt each time)"
    } else if same(zh, "记录为纯文本（去除颜色/转义码，便于阅读和 grep）") {
        "Log as plain text (colours and escapes stripped, so it reads and greps cleanly)"
    } else if same(zh, "设置") {
        "Settings"
    } else if same(zh, "该版本暂无 Windows 安装包") {
        "That release has no Windows installer"
    } else if same(zh, "输出高亮") {
        "Output highlighting"
    } else if same(zh, "还没有片段。在下方添加常用命令，一键发送到当前终端。") {
        "No snippets yet. Add the commands you type often and send them to the terminal in one click."
    } else if same(zh, "连接后自动开始记录日志") {
        "Start logging as soon as a session connects"
    } else if same(zh, "连接超时（秒，0 = 不限）") {
        "Connect timeout (seconds, 0 = no limit)"
    } else if same(zh, "选中内容即复制到剪贴板") {
        "Copy to the clipboard on selection"
    } else if same(zh, "选择一个云服务后，会话、分组与设置会在多台机器间合并同步。") {
        "Pick a cloud service and your sessions, groups and settings merge across machines."
    } else if same(zh, "配置目录") {
        "Config folder"
    } else if same(zh, "配色方案") {
        "Colour scheme"
    } else if same(zh, "重命名标签") {
        "Rename tab"
    } else if same(zh, "重试") {
        "Retry"
    } else if same(zh, "重连") {
        "Reconnect"
    } else if same(zh, "需要一个带 gist 权限的 GitHub 个人访问令牌。GitHub 自带版本历史，可在网页端回滚。") {
        "Needs a GitHub personal access token with the gist scope. GitHub keeps version history, so you can roll back from the web."
    } else if same(zh, "需要交互式验证") {
        "Interactive authentication required"
    } else if same(zh, "预览") {
        "Preview"
    } else if same(zh, "首次连接此主机。请通过其它可信渠道核对指纹后再信任。") {
        "First connection to this host. Check the fingerprint through another trusted channel before you trust it."
    } else if same(zh, "（无）") {
        "(none)"
    } else if same(zh, "（暂无转发）") {
        "(no forwards)"
    } else if same(zh, "界面语言") {
        "Language"
    } else if same(zh, "切换后立即生效") {
        "Takes effect immediately"
    } else if same(zh, "应用") {
        "App"
    } else if same(zh, "外观") {
        "Appearance"
    } else if same(zh, "终端") {
        "Terminal"
    } else if same(zh, "日志") {
        "Logs"
    } else if same(zh, "同步与云") {
        "Sync & cloud"
    } else if same(zh, "云服务") {
        "Cloud services"
    } else if same(zh, "同步状态") {
        "Sync status"
    } else if same(zh, "未启用") {
        "Off"
    } else if same(zh, "S3 兼容存储") {
        "S3-compatible"
    } else if same(zh, "不同步，配置只留在本机") {
        "Not syncing; everything stays on this machine"
    } else if same(zh, "未使用") {
        "Not in use"
    } else if same(zh, "已连接") {
        "Connected"
    } else if same(zh, "尚未授权") {
        "Not authorised"
    } else if same(zh, "尚未填写凭据") {
        "No credentials yet"
    } else if same(zh, "使用中") {
        "In use"
    } else if same(zh, "使用") {
        "Use"
    } else if same(zh, "立即同步") {
        "Sync now"
    } else if same(zh, "同步中…") {
        "Syncing…"
    } else if same(zh, "连接账号") {
        "Connect account"
    } else if same(zh, "重新连接账号") {
        "Reconnect account"
    } else if same(zh, "正在等待浏览器授权…") {
        "Waiting for the browser…"
    } else if same(zh, "尚未连接") {
        "Not connected"
    } else if same(zh, "此构建未内置该云服务的 client id — 请在下方填写自己的") {
        "This build has no client id for that service — enter your own below"
    } else if same(zh, "留空则用本应用内置的") {
        "Blank uses the one built in"
    } else if same(zh, "Google 桌面客户端必需，留空则用内置的") {
        "Required for a Google desktop client; blank uses the built-in one"
    } else if same(zh, "仅访问本应用创建的文件，看不到你云端硬盘里的其他内容。") {
        "Reaches only files this app created; the rest of your Drive stays invisible to it."
    } else if same(zh, "仅访问 Adit 自己的应用文件夹，碰不到其他文件。") {
        "Reaches only Adit's own app folder and nothing else."
    } else if same(zh, "仅访问 Apps/Adit 文件夹，碰不到其他文件。") {
        "Reaches only the Apps/Adit folder and nothing else."
    } else if same(zh, "侧边栏开关") {
        "Toggle sidebar"
    } else if same(zh, "深色模式开关") {
        "Toggle dark mode"
    } else if same(zh, "分屏（添加窗格）") {
        "Split pane"
    } else if same(zh, "垂直平铺（并排）") {
        "Tile vertically"
    } else if same(zh, "水平平铺（上下）") {
        "Tile horizontally"
    } else if same(zh, "网格平铺") {
        "Tile as grid"
    } else if same(zh, "合并为标签") {
        "Merge into tabs"
    } else if same(zh, "命令窗口") {
        "Command window"
    } else if same(zh, "输入广播开关") {
        "Toggle broadcast"
    } else if same(zh, "新建会话") {
        "New session"
    } else if same(zh, "新建分组") {
        "New group"
    } else if same(zh, "保存会话") {
        "Save session"
    } else if same(zh, "删除会话") {
        "Delete session"
    } else if same(zh, "按名称排序") {
        "Sort by name"
    } else if same(zh, "按主机排序") {
        "Sort by host"
    } else if same(zh, "导入 SecureCRT 会话…") {
        "Import SecureCRT sessions…"
    } else if same(zh, "设置…") {
        "Settings…"
    } else if same(zh, "关闭标签") {
        "Close tab"
    } else if same(zh, "连接") {
        "Connect"
    } else if same(zh, "断开") {
        "Disconnect"
    } else if same(zh, "自动重连开关") {
        "Toggle auto-reconnect"
    } else if same(zh, "主机密钥…") {
        "Host keys…"
    } else if same(zh, "打开演示标签") {
        "Open demo tab"
    } else if same(zh, "清屏") {
        "Clear screen"
    } else if same(zh, "记录日志开关") {
        "Toggle session log"
    } else if same(zh, "检查更新…") {
        "Check for updates…"
    } else if same(zh, "关于") {
        "About"
    } else {
        zh
    }
}

/// A text in a language.
pub open spec fn translated(language: Language, zh: Seq<char>) -> Seq<char> {
    match language {
        Language::Zh => zh,
        Language::En => english(zh),
    }
}

/// A text in a language, or itself where there is no translation.
pub fn t(language: Language, zh: &'static str) -> (r: &'static str)
    ensures
        r@ == translated(language, zh@),
{
    match language {
        Language::Zh => zh,
        Language::En => en(zh),
    }
}

/// What a language calls itself: a reader who cannot read the current language
/// still recognises the name of their own.
pub fn language_label(language: Language) -> (r: &'static str)
    ensures
        r@ == match language {
            Language::Zh => "中文"@,
            Language::En => "English"@,
        },
{
    match language {
        Language::Zh => "中文",
        Language::En => "English",
    }
}

/// A text with each `{}` in it, from left to right, replaced by the next of
/// these, as far as they go.
pub open spec fn filled(template: Seq<char>, args: Seq<Seq<char>>) -> Seq<char>
    decreases template.len(),
{
    if template.len() == 0 {
        Seq::empty()
    } else if template.len() >= 2 && template[0] == '{' && template[1] == '}' && args.len() > 0 {
        args[0] + filled(template.skip(2), args.drop_first())
    } else {
        seq![template[0]] + filled(template.skip(1), args)
    }
}

/// A text in a language, with each `{}` replaced by the next of these.
pub fn tf(language: Language, zh: &'static str, args: &Vec<String>) -> (r: String)
    ensures
        r@ == filled(translated(language, zh@), crate::text::texts(args@)),
{
    let template: &'static str = t(language, zh);
    let chars: Vec<char> = crate::text::chars_of(template);
    let ghost all = crate::text::texts(args@);
    let ghost whole = filled(chars@, all);
    let mut out: String = String::new();
    let mut i: usize = 0;
    let mut next: usize = 0;
    assert(chars@.skip(0) =~= chars@);
    assert(all.skip(0) =~= all);
    while i < chars.len()
        invariant
            i <= chars.len(),
            next <= args.len(),
            all == crate::text::texts(args@),
            out@ + filled(chars@.skip(i as int), all.skip(next as int)) == whole,
        decreases chars.len() - i,
    {
        let ghost rest = chars@.skip(i as int);
        let ghost left = all.skip(next as int);
        let ghost before = out@;
        if chars.len() - i >= 2 && chars[i] == '{' && chars[i + 1] == '}' && next < args.len() {
            out.append(args[next].as_str());
            i += 2;
            next += 1;
            assert(rest.skip(2) =~= chars@.skip(i as int));
            assert(left.drop_first() =~= all.skip(next as int));
            assert(out@ + filled(chars@.skip(i as int), all.skip(next as int)) =~= before + filled(
                rest,
                left,
            ));
        } else {
            out.push(chars[i]);
            i += 1;
            assert(rest.skip(1) =~= chars@.skip(i as int));
            assert(out@ + filled(chars@.skip(i as int), all.skip(next as int)) =~= before + filled(
                rest,
                left,
            ));
        }
    }
    assert(out@ =~= whole);
    out
}

/// A text is shown as it was written in Chinese, and in every language where the table
/// does not hold it.
pub proof fn law_an_untranslated_text_is_shown_as_written(language: Language, zh: Seq<char>)
    ensures
        translated(Language::Zh, zh) == zh,
        translation(zh) is None ==> translated(language, zh) == zh,
{
}

/// The first place of a text is filled with the first of the values, what stands before it
/// stays, and the rest is filled with the other values. A text without a place stays as it
/// is, and so does one for which no value is left.
pub proof fn law_places_are_filled_in_order(
    before: Seq<char>,
    after: Seq<char>,
    value: Seq<char>,
    values: Seq<Seq<char>>,
)
    requires
        forall|i: int| 0 <= i < before.len() ==> before[i] != '{',
    ensures
        filled(before + seq!['{', '}'] + after, seq![value] + values) == before + value + filled(
            after,
            values,
        ),
        filled(before, values) == before,
        filled(after, Seq::empty()) == after,
    decreases before.len(),
{
    lemma_nothing_left(after);
    lemma_no_place(before, values);
    lemma_first_place(before, after, value, values);
}

proof fn lemma_nothing_left(template: Seq<char>)
    ensures
        filled(template, Seq::empty()) == template,
    decreases template.len(),
{
    if template.len() > 0 {
        lemma_nothing_left(template.skip(1));
        assert(seq![template[0]] + template.skip(1) =~= template);
    } else {
        assert(template =~= Seq::empty());
    }
}

proof fn lemma_no_place(before: Seq<char>, values: Seq<Seq<char>>)
    requires
        forall|i: int| 0 <= i < before.len() ==> before[i] != '{',
    ensures
        filled(before, values) == before,
    decreases before.len(),
{
    if before.len() > 0 {
        let rest = before.skip(1);
        assert forall|i: int| 0 <= i < rest.len() implies rest[i] != '{' by {
            assert(rest[i] == before[i + 1]);
        }
        lemma_no_place(rest, values);
        assert(seq![before[0]] + rest =~= before);
    } else {
        assert(before =~= Seq::empty());
    }
}

proof fn lemma_first_place(
    before: Seq<char>,
    after: Seq<char>,
    value: Seq<char>,
    values: Seq<Seq<char>>,
)
    requires
        forall|i: int| 0 <= i < before.len() ==> before[i] != '{',
    ensures
        filled(before + seq!['{', '}'] + after, seq![value] + values) == before + value + filled(
            after,
            values,
        ),
    decreases before.len(),
{
    let whole = before + seq!['{', '}'] + after;
    let all = seq![value] + values;
    if before.len() == 0 {
        assert(whole[0] == '{' && whole[1] == '}');
        assert(whole.skip(2) =~= after);
        assert(all.drop_first() =~= values);
        assert(before + value + filled(after, values) =~= value + filled(after, values));
    } else {
        let rest = before.skip(1);
        assert forall|i: int| 0 <= i < rest.len() implies rest[i] != '{' by {
            assert(rest[i] == before[i + 1]);
        }
        lemma_first_place(rest, after, value, values);
        assert(whole[0] == before[0]);
        assert(whole.skip(1) =~= rest + seq!['{', '}'] + after);
        assert(seq![before[0]] + (rest + value + filled(after, values)) =~= before + value + filled(
            after,
            values,
        ));
    }
}

/// In Chinese a text is said as it is written; in English by its translation, and as it
/// is written where it has none.
pub proof fn law_texts_are_said_in_the_language(zh: Seq<char>)
    ensures
        translated(Language::Zh, zh) == zh,
        translation(zh) matches Some(en) ==> translated(Language::En, zh) == en,
        translation(zh) is None ==> translated(Language::En, zh) == zh,
{
}

} // verus!

//! The settings: what is kept of the window between two runs, and when it is
//! written again.

use vstd::prelude::*;
use vstd::string::*;

use crate::dialogs::Snippet;
use crate::grid::copy_ids;
use crate::hosts::HostLayout;
use crate::i18n::{filled, tf, translated, Language};
use crate::profile::ProfileId;
use crate::style::ThemeMode;
use crate::sync::{SyncProvider, SyncSettings};
use crate::text::{
    comes_before, copy_texts, lemma_precedes_total, lemma_precedes_transitive, owned, precedes, same,
    texts,
};

verus! {

/// The settings.
pub struct Settings {
    pub language: Language,
    pub sync: SyncSettings,
    pub dark_mode: bool,
    /// What the user wants; older settings know only dark and light.
    pub theme_mode: Option<ThemeMode>,
    pub host_layout: HostLayout,
    /// The hosts opened last, the newest first.
    pub recent_hosts: Vec<ProfileId>,
    /// The arrangement of the grid.
    pub grid_order: Vec<ProfileId>,
    /// The folders that are folded.
    pub collapsed_groups: Vec<String>,
    /// Lengths are in hundredths of a pixel.
    pub window_width: i64,
    pub window_height: i64,
    pub auto_reconnect: bool,
    pub sidebar_width: i64,
    pub sidebar_visible: bool,
    pub font_family: String,
    pub font_size: i64,
    pub color_scheme: String,
    /// The rules that are set otherwise than they ship.
    pub highlight_rules: Vec<(String, bool)>,
    pub log_dir: String,
    pub log_name_pattern: String,
    pub auto_log_on_connect: bool,
    pub log_plaintext: bool,
    pub copy_on_select: bool,
    pub right_click_paste: bool,
    pub confirm_multiline_paste: bool,
    pub connect_timeout_secs: u32,
    pub scrollback_lines: u32,
    pub snippets: Vec<Snippet>,
    pub auto_check_updates: bool,
    pub command_window_open: bool,
    pub command_send_immediately: bool,
    pub auto_accept_host_keys: bool,
    pub rdp_clipboard: bool,
    /// Secrets of an older store have been taken over.
    pub keyring_migrated: bool,
}

/// What the settings of the services hold.
pub ghost struct SyncView {
    pub provider: SyncProvider,
    pub gist_id: Seq<char>,
    pub github_client_id: Seq<char>,
    pub webdav_url: Seq<char>,
    pub webdav_username: Seq<char>,
    pub s3_endpoint: Seq<char>,
    pub s3_region: Seq<char>,
    pub s3_bucket: Seq<char>,
    pub s3_key: Seq<char>,
    pub s3_access_key: Seq<char>,
    pub s3_path_style: bool,
    pub google_client_id: Seq<char>,
    pub google_client_secret: Seq<char>,
    pub onedrive_client_id: Seq<char>,
    pub dropbox_client_id: Seq<char>,
    pub include_credentials: bool,
}

/// What the settings of the services hold.
pub open spec fn sync_view(s: &SyncSettings) -> SyncView {
    SyncView {
        provider: s.provider,
        gist_id: s.gist_id@,
        github_client_id: s.github_client_id@,
        webdav_url: s.webdav_url@,
        webdav_username: s.webdav_username@,
        s3_endpoint: s.s3_endpoint@,
        s3_region: s.s3_region@,
        s3_bucket: s.s3_bucket@,
        s3_key: s.s3_key@,
        s3_access_key: s.s3_access_key@,
        s3_path_style: s.s3_path_style,
        google_client_id: s.google_client_id@,
        google_client_secret: s.google_client_secret@,
        onedrive_client_id: s.onedrive_client_id@,
        dropbox_client_id: s.dropbox_client_id@,
        include_credentials: s.include_credentials,
    }
}

/// What the settings hold of the window.
pub ghost struct WindowView {
    pub language: Language,
    pub sync: SyncView,
    pub dark_mode: bool,
    pub theme_mode: Option<ThemeMode>,
    pub host_layout: HostLayout,
    pub recent_hosts: Seq<ProfileId>,
    pub grid_order: Seq<ProfileId>,
    pub collapsed_groups: Seq<Seq<char>>,
    pub window_width: i64,
    pub window_height: i64,
    pub auto_reconnect: bool,
}

/// What the settings hold of the terminal.
pub ghost struct TerminalPart {
    pub sidebar_width: i64,
    pub sidebar_visible: bool,
    pub font_family: Seq<char>,
    pub font_size: i64,
    pub color_scheme: Seq<char>,
    pub highlight_rules: Seq<(Seq<char>, bool)>,
    pub log_dir: Seq<char>,
    pub log_name_pattern: Seq<char>,
    pub auto_log_on_connect: bool,
    pub log_plaintext: bool,
    pub copy_on_select: bool,
}

/// What the settings hold of how things are done.
pub ghost struct HabitsView {
    pub right_click_paste: bool,
    pub confirm_multiline_paste: bool,
    pub connect_timeout_secs: u32,
    pub scrollback_lines: u32,
    pub snippets: Seq<(Seq<char>, Seq<char>)>,
    pub auto_check_updates: bool,
    pub command_window_open: bool,
    pub command_send_immediately: bool,
    pub auto_accept_host_keys: bool,
    pub rdp_clipboard: bool,
    pub keyring_migrated: bool,
}

/// What the settings hold.
pub ghost struct SettingsView {
    pub window: WindowView,
    pub terminal: TerminalPart,
    pub habits: HabitsView,
}

/// What rules hold.
pub open spec fn rules_view(rules: Seq<(String, bool)>) -> Seq<(Seq<char>, bool)> {
    Seq::new(rules.len(), |i: int| (rules[i].0@, rules[i].1))
}

/// What snippets hold.
pub open spec fn snippets_view(snippets: Seq<Snippet>) -> Seq<(Seq<char>, Seq<char>)> {
    Seq::new(snippets.len(), |i: int| (snippets[i].name@, snippets[i].command@))
}

/// What the settings hold of the window.
pub open spec fn window_view(s: &Settings) -> WindowView {
    WindowView {
        language: s.language,
        sync: sync_view(&s.sync),
        dark_mode: s.dark_mode,
        theme_mode: s.theme_mode,
        host_layout: s.host_layout,
        recent_hosts: s.recent_hosts@,
        grid_order: s.grid_order@,
        collapsed_groups: texts(s.collapsed_groups@),
        window_width: s.window_width,
        window_height: s.window_height,
        auto_reconnect: s.auto_reconnect,
    }
}

/// What the settings hold of the terminal.
pub open spec fn terminal_view(s: &Settings) -> TerminalPart {
    TerminalPart {
        sidebar_width: s.sidebar_width,
        sidebar_visible: s.sidebar_visible,
        font_family: s.font_family@,
        font_size: s.font_size,
        color_scheme: s.color_scheme@,
        highlight_rules: rules_view(s.highlight_rules@),
        log_dir: s.log_dir@,
        log_name_pattern: s.log_name_pattern@,
        auto_log_on_connect: s.auto_log_on_connect,
        log_plaintext: s.log_plaintext,
        copy_on_select: s.copy_on_select,
    }
}

/// What the settings hold of how things are done.
pub open spec fn habits_view(s: &Settings) -> HabitsView {
    HabitsView {
        right_click_paste: s.right_click_paste,
        confirm_multiline_paste: s.confirm_multiline_paste,
        connect_timeout_secs: s.connect_timeout_secs,
        scrollback_lines: s.scrollback_lines,
        snippets: snippets_view(s.snippets@),
        auto_check_updates: s.auto_check_updates,
        command_window_open: s.command_window_open,
        command_send_immediately: s.command_send_immediately,
        auto_accept_host_keys: s.auto_accept_host_keys,
        rdp_clipboard: s.rdp_clipboard,
        keyring_migrated: s.keyring_migrated,
    }
}

/// What the settings hold.
pub open spec fn settings_view(s: &Settings) -> SettingsView {
    SettingsView { window: window_view(s), terminal: terminal_view(s), habits: habits_view(s) }
}

// Copies.

fn copy_rules(list: &Vec<(String, bool)>) -> (r: Vec<(String, bool)>)
    ensures
        rules_view(r@) == rules_view(list@),
{
    let mut out: Vec<(String, bool)> = Vec::new();
    let mut i: usize = 0;
    while i < list.len()
        invariant
            i <= list.len(),
            out@.len() == i,
            forall|j: int|
                0 <= j < i ==> (#[trigger] out@[j]).0@ == list@[j].0@ && out@[j].1 == list@[j].1,
        decreases list.len() - i,
    {
        out.push((owned(list[i].0.as_str()), list[i].1));
        i += 1;
    }
    assert(rules_view(out@) =~= rules_view(list@));
    out
}

fn copy_snippets(list: &Vec<Snippet>) -> (r: Vec<Snippet>)
    ensures
        snippets_view(r@) == snippets_view(list@),
{
    let mut out: Vec<Snippet> = Vec::new();
    let mut i: usize = 0;
    while i < list.len()
        invariant
            i <= list.len(),
            out@.len() == i,
            forall|j: int|
                0 <= j < i ==> (#[trigger] out@[j]).name@ == list@[j].name@ && out@[j].command@
                    == list@[j].command@,
        decreases list.len() - i,
    {
        out.push(
            Snippet {
                name: owned(list[i].name.as_str()),
                command: owned(list[i].command.as_str()),
            },
        );
        i += 1;
    }
    assert(snippets_view(out@) =~= snippets_view(list@));
    out
}

fn copy_sync(s: &SyncSettings) -> (r: SyncSettings)
    ensures
        sync_view(&r) == sync_view(s),
{
    SyncSettings {
        provider: s.provider,
        gist_id: owned(s.gist_id.as_str()),
        github_client_id: owned(s.github_client_id.as_str()),
        webdav_url: owned(s.webdav_url.as_str()),
        webdav_username: owned(s.webdav_username.as_str()),
        s3_endpoint: owned(s.s3_endpoint.as_str()),
        s3_region: owned(s.s3_region.as_str()),
        s3_bucket: owned(s.s3_bucket.as_str()),
        s3_key: owned(s.s3_key.as_str()),
        s3_access_key: owned(s.s3_access_key.as_str()),
        s3_path_style: s.s3_path_style,
        google_client_id: owned(s.google_client_id.as_str()),
        google_client_secret: owned(s.google_client_secret.as_str()),
        onedrive_client_id: owned(s.onedrive_client_id.as_str()),
        dropbox_client_id: owned(s.dropbox_client_id.as_str()),
        include_credentials: s.include_credentials,
    }
}

/// A copy of the settings.
pub fn copy_settings(s: &Settings) -> (r: Settings)
    ensures
        hold_the_same(&r, s),
{
    Settings {
        language: s.language,
        sync: copy_sync(&s.sync),
        dark_mode: s.dark_mode,
        theme_mode: s.theme_mode,
        host_layout: s.host_layout,
        recent_hosts: copy_ids(&s.recent_hosts),
        grid_order: copy_ids(&s.grid_order),
        collapsed_groups: copy_texts(&s.collapsed_groups),
        window_width: s.window_width,
        window_height: s.window_height,
        auto_reconnect: s.auto_reconnect,
        sidebar_width: s.sidebar_width,
        sidebar_visible: s.sidebar_visible,
        font_family: owned(s.font_family.as_str()),
        font_size: s.font_size,
        color_scheme: owned(s.color_scheme.as_str()),
        highlight_rules: copy_rules(&s.highlight_rules),
        log_dir: owned(s.log_dir.as_str()),
        log_name_pattern: owned(s.log_name_pattern.as_str()),
        auto_log_on_connect: s.auto_log_on_connect,
        log_plaintext: s.log_plaintext,
        copy_on_select: s.copy_on_select,
        right_click_paste: s.right_click_paste,
        confirm_multiline_paste: s.confirm_multiline_paste,
        connect_timeout_secs: s.connect_timeout_secs,
        scrollback_lines: s.scrollback_lines,
        snippets: copy_snippets(&s.snippets),
        auto_check_updates: s.auto_check_updates,
        command_window_open: s.command_window_open,
        command_send_immediately: s.command_send_immediately,
        auto_accept_host_keys: s.auto_accept_host_keys,
        rdp_clipboard: s.rdp_clipboard,
        keyring_migrated: s.keyring_migrated,
    }
}

// Comparing.

fn same_ids(a: &Vec<ProfileId>, b: &Vec<ProfileId>) -> (r: bool)
    ensures
        r == (a@ == b@),
{
    if a.len() != b.len() {
        return false;
    }
    let mut i: usize = 0;
    while i < a.len()
        invariant
            i <= a.len(),
            a.len() == b.len(),
            forall|j: int| 0 <= j < i ==> a@[j] == b@[j],
        decreases a.len() - i,
    {
        if a[i] != b[i] {
            assert(a@[i as int] != b@[i as int]);
            return false;
        }
        i += 1;
    }
    assert(a@ =~= b@);
    true
}

fn same_texts(a: &Vec<String>, b: &Vec<String>) -> (r: bool)
    ensures
        r == (texts(a@) == texts(b@)),
{
    assert(texts(a@).len() == a@.len());
    assert(texts(b@).len() == b@.len());
    if a.len() != b.len() {
        return false;
    }
    let mut i: usize = 0;
    while i < a.len()
        invariant
            i <= a.len(),
            a.len() == b.len(),
            forall|j: int| 0 <= j < i ==> (#[trigger] a@[j])@ == b@[j]@,
        decreases a.len() - i,
    {
        if !same(a[i].as_str(), b[i].as_str()) {
            assert(texts(a@)[i as int] != texts(b@)[i as int]);
            return false;
        }
        i += 1;
    }
    assert(texts(a@) =~= texts(b@));
    true
}

fn same_rules(a: &Vec<(String, bool)>, b: &Vec<(String, bool)>) -> (r: bool)
    ensures
        r == (rules_view(a@) == rules_view(b@)),
{
    assert(rules_view(a@).len() == a@.len());
    assert(rules_view(b@).len() == b@.len());
    if a.len() != b.len() {
        return false;
    }
    let mut i: usize = 0;
    while i < a.len()
        invariant
            i <= a.len(),
            a.len() == b.len(),
            forall|j: int|
                0 <= j < i ==> (#[trigger] a@[j]).0@ == b@[j].0@ && a@[j].1 == b@[j].1,
        decreases a.len() - i,
    {
        if !same(a[i].0.as_str(), b[i].0.as_str()) || a[i].1 != b[i].1 {
            assert(rules_view(a@)[i as int] != rules_view(b@)[i as int]);
            return false;
        }
        i += 1;
    }
    assert(rules_view(a@) =~= rules_view(b@));
    true
}

fn same_snippets(a: &Vec<Snippet>, b: &Vec<Snippet>) -> (r: bool)
    ensures
        r == (snippets_view(a@) == snippets_view(b@)),
{
    assert(snippets_view(a@).len() == a@.len());
    assert(snippets_view(b@).len() == b@.len());
    if a.len() != b.len() {
        return false;
    }
    let mut i: usize = 0;
    while i < a.len()
        invariant
            i <= a.len(),
            a.len() == b.len(),
            forall|j: int|
                0 <= j < i ==> (#[trigger] a@[j]).name@ == b@[j].name@ && a@[j].command@
                    == b@[j].command@,
        decreases a.len() - i,
    {
        if !same(a[i].name.as_str(), b[i].name.as_str()) || !same(
            a[i].command.as_str(),
            b[i].command.as_str(),
        ) {
            assert(snippets_view(a@)[i as int] != snippets_view(b@)[i as int]);
            return false;
        }
        i += 1;
    }
    assert(snippets_view(a@) =~= snippets_view(b@));
    true
}

fn same_mode(a: Option<ThemeMode>, b: Option<ThemeMode>) -> (r: bool)
    ensures
        r == (a == b),
{
    match (a, b) {
        (Some(x), Some(y)) => x == y,
        (None, None) => true,
        _ => false,
    }
}

fn same_sync(a: &SyncSettings, b: &SyncSettings) -> (r: bool)
    ensures
        r == (sync_view(a) == sync_view(b)),
{
    a.provider == b.provider
        && same(a.gist_id.as_str(), b.gist_id.as_str())
        && same(a.github_client_id.as_str(), b.github_client_id.as_str())
        && same(a.webdav_url.as_str(), b.webdav_url.as_str())
        && same(a.webdav_username.as_str(), b.webdav_username.as_str())
        && same(a.s3_endpoint.as_str(), b.s3_endpoint.as_str())
        && same(a.s3_region.as_str(), b.s3_region.as_str())
        && same(a.s3_bucket.as_str(), b.s3_bucket.as_str())
        && same(a.s3_key.as_str(), b.s3_key.as_str())
        && same(a.s3_access_key.as_str(), b.s3_access_key.as_str())
        && a.s3_path_style == b.s3_path_style
        && same(a.google_client_id.as_str(), b.google_client_id.as_str())
        && same(a.google_client_secret.as_str(), b.google_client_secret.as_str())
        && same(a.onedrive_client_id.as_str(), b.onedrive_client_id.as_str())
        && same(a.dropbox_client_id.as_str(), b.dropbox_client_id.as_str())
        && a.include_credentials == b.include_credentials
}

spec fn equal_window(a: &Settings, b: &Settings) -> bool {
    window_view(a) == window_view(b)
}

fn same_window(a: &Settings, b: &Settings) -> (r: bool)
    ensures
        r == equal_window(a, b),
{
    a.language == b.language
        && same_sync(&a.sync, &b.sync)
        && a.dark_mode == b.dark_mode
        && same_mode(a.theme_mode, b.theme_mode)
        && a.host_layout == b.host_layout
        && same_ids(&a.recent_hosts, &b.recent_hosts)
        && same_ids(&a.grid_order, &b.grid_order)
        && same_texts(&a.collapsed_groups, &b.collapsed_groups)
        && a.window_width == b.window_width
        && a.window_height == b.window_height
        && a.auto_reconnect == b.auto_reconnect
}

spec fn equal_terminal(a: &Settings, b: &Settings) -> bool {
    terminal_view(a) == terminal_view(b)
}

fn same_terminal(a: &Settings, b: &Settings) -> (r: bool)
    ensures
        r == equal_terminal(a, b),
{
    a.sidebar_width == b.sidebar_width
        && a.sidebar_visible == b.sidebar_visible
        && same(a.font_family.as_str(), b.font_family.as_str())
        && a.font_size == b.font_size
        && same(a.color_scheme.as_str(), b.color_scheme.as_str())
        && same_rules(&a.highlight_rules, &b.highlight_rules)
        && same(a.log_dir.as_str(), b.log_dir.as_str())
        && same(a.log_name_pattern.as_str(), b.log_name_pattern.as_str())
        && a.auto_log_on_connect == b.auto_log_on_connect
        && a.log_plaintext == b.log_plaintext
        && a.copy_on_select == b.copy_on_select
}

spec fn equal_habits(a: &Settings, b: &Settings) -> bool {
    habits_view(a) == habits_view(b)
}

fn same_habits(a: &Settings, b: &Settings) -> (r: bool)
    ensures
        r == equal_habits(a, b),
{
    a.right_click_paste == b.right_click_paste
        && a.confirm_multiline_paste == b.confirm_multiline_paste
        && a.connect_timeout_secs == b.connect_timeout_secs
        && a.scrollback_lines == b.scrollback_lines
        && same_snippets(&a.snippets, &b.snippets)
        && a.auto_check_updates == b.auto_check_updates
        && a.command_window_open == b.command_window_open
        && a.command_send_immediately == b.command_send_immediately
        && a.auto_accept_host_keys == b.auto_accept_host_keys
        && a.rdp_clipboard == b.rdp_clipboard
        && a.keyring_migrated == b.keyring_migrated
}

/// Whether two settings hold the same.
pub open spec fn hold_the_same(a: &Settings, b: &Settings) -> bool {
    settings_view(a) == settings_view(b)
}

/// Whether two settings hold the same.
pub fn same_settings(a: &Settings, b: &Settings) -> (r: bool)
    ensures
        r == hold_the_same(a, b),
{
    same_window(a, b) && same_terminal(a, b) && same_habits(a, b)
}

// What is written.

/// Whether these names stand in their order, each once.
pub open spec fn ordered(names: Seq<Seq<char>>) -> bool {
    forall|i: int, j: int|
        0 <= i < j < names.len() ==> precedes(#[trigger] names[i], #[trigger] names[j])
}

/// Whether a list holds these names, in their order and each once.
pub open spec fn in_order(list: Seq<Seq<char>>, names: Seq<Seq<char>>) -> bool {
    &&& ordered(list)
    &&& forall|name: Seq<char>| #[trigger] list.contains(name) <==> names.contains(name)
}

/// Only one list holds names in their order and each once.
pub proof fn law_the_order_of_names_is_one(
    a: Seq<Seq<char>>,
    b: Seq<Seq<char>>,
    names: Seq<Seq<char>>,
)
    requires
        in_order(a, names),
        in_order(b, names),
    ensures
        a == b,
    decreases a.len() + b.len(),
{
    if a.len() == 0 {
        if b.len() > 0 {
            assert(b.contains(b[0]));
            assert(a.contains(b[0]));
        }
        assert(a =~= b);
    } else if b.len() == 0 {
        assert(a.contains(a[0]));
        assert(b.contains(a[0]));
    } else {
        let (x, y) = (a.last(), b.last());
        assert(a.contains(x));
        assert(b.contains(x));
        assert(b.contains(y));
        assert(a.contains(y));
        lemma_precedes_total(x, y);
        if x != y {
            let i = choose|i: int| 0 <= i < b.len() && b[i] == x;
            let j = choose|j: int| 0 <= j < a.len() && a[j] == y;
            assert(precedes(b[i], b[b.len() - 1]));
            assert(precedes(a[j], a[a.len() - 1]));
        }
        let (fa, fb) = (a.drop_last(), b.drop_last());
        assert forall|name: Seq<char>| #[trigger] fa.contains(name) <==> fb.contains(name) by {
            if fa.contains(name) {
                let i = choose|i: int| 0 <= i < fa.len() && fa[i] == name;
                assert(a[i] == name);
                assert(precedes(a[i], a[a.len() - 1]));
                lemma_precedes_total(name, x);
                assert(a.contains(name));
                assert(b.contains(name));
                let k = choose|k: int| 0 <= k < b.len() && b[k] == name;
                assert(fb[k] == name);
            }
            if fb.contains(name) {
                let i = choose|i: int| 0 <= i < fb.len() && fb[i] == name;
                assert(b[i] == name);
                assert(precedes(b[i], b[b.len() - 1]));
                lemma_precedes_total(name, y);
                assert(b.contains(name));
                assert(a.contains(name));
                let k = choose|k: int| 0 <= k < a.len() && a[k] == name;
                assert(fa[k] == name);
            }
        }
        law_the_order_of_names_is_one(fa, fb, fa);
        assert(a =~= fa.push(x));
        assert(b =~= fb.push(y));
    }
}

fn add_in_order(list: &mut Vec<String>, name: &str)
    requires
        ordered(texts(old(list)@)),
    ensures
        ordered(texts(final(list)@)),
        forall|other: Seq<char>|
            #[trigger] texts(final(list)@).contains(other) <==> texts(old(list)@).contains(other)
                || other == name@,
{
    let ghost before = texts(list@);
    let mut at: usize = 0;
    while at < list.len() && comes_before(list[at].as_str(), name)
        invariant
            at <= list.len(),
            before == texts(list@),
            forall|j: int| 0 <= j < at ==> precedes(#[trigger] before[j], name@),
        decreases list.len() - at,
    {
        assert(before[at as int] == list@[at as int]@);
        at += 1;
    }
    if at < list.len() && same(list[at].as_str(), name) {
        assert(before[at as int] == name@);
        assert(before.contains(name@));
        return;
    }
    list.insert(at, owned(name));
    let ghost after = texts(list@);
    assert(after =~= before.insert(at as int, name@));
    proof {
        assert forall|i: int, j: int| 0 <= i < j < after.len() implies precedes(
            #[trigger] after[i],
            #[trigger] after[j],
        ) by {
            if j == at {
                assert(before[i] == after[i]);
            } else if i == at {
                let k = j - 1;
                assert(after[j] == before[k]);
                lemma_precedes_total(before[at as int], name@);
                if k > at {
                    assert(precedes(before[at as int], before[k]));
                    lemma_precedes_transitive(name@, before[at as int], before[k]);
                }
            } else {
                let (m, n) = (
                    if i < at {
                        i
                    } else {
                        i - 1
                    },
                    if j < at {
                        j
                    } else {
                        j - 1
                    },
                );
                assert(after[i] == before[m] && after[j] == before[n]);
            }
        }
        assert forall|other: Seq<char>| #[trigger] after.contains(other) <==> before.contains(other)
            || other == name@ by {
            if after.contains(other) {
                let k = choose|k: int| 0 <= k < after.len() && after[k] == other;
                if k < at {
                    assert(before[k] == other);
                } else if k > at {
                    assert(before[k - 1] == other);
                }
            }
            if before.contains(other) {
                let k = choose|k: int| 0 <= k < before.len() && before[k] == other;
                if k < at {
                    assert(after[k] == other);
                } else {
                    assert(after[k + 1] == other);
                }
            }
            assert(after[at as int] == name@);
        }
    }
}

/// Names in their order, each once.
pub fn ordered_names(names: &Vec<String>) -> (r: Vec<String>)
    ensures
        in_order(texts(r@), texts(names@)),
{
    let ghost all = texts(names@);
    let mut out: Vec<String> = Vec::new();
    let mut i: usize = 0;
    while i < names.len()
        invariant
            i <= names.len(),
            all == texts(names@),
            ordered(texts(out@)),
            forall|name: Seq<char>|
                #[trigger] texts(out@).contains(name) <==> all.take(i as int).contains(name),
        decreases names.len() - i,
    {
        let ghost before = texts(out@);
        let ghost head = all.take(i as int);
        let ghost next = all.take(i + 1);
        add_in_order(&mut out, names[i].as_str());
        assert forall|name: Seq<char>| #[trigger] texts(out@).contains(name) <==> next.contains(
            name,
        ) by {
            assert(texts(out@).contains(name) <==> before.contains(name) || name
                == names@[i as int]@);
            if head.contains(name) {
                let k = choose|k: int| 0 <= k < head.len() && head[k] == name;
                assert(next[k] == name);
            }
            assert(next[i as int] == names@[i as int]@);
            if next.contains(name) {
                let k = choose|k: int| 0 <= k < next.len() && next[k] == name;
                if k < i {
                    assert(head[k] == name);
                }
            }
        }
        i += 1;
    }
    assert(all.take(i as int) =~= all);
    out
}

/// What is written of the settings that are on: the folded folders in their order,
/// so that folding and unfolding leaves no trace, and the theme by its name.
pub fn current_settings(live: &Settings, mode: ThemeMode) -> (r: Settings)
    ensures
        in_order(texts(r.collapsed_groups@), texts(live.collapsed_groups@)),
        window_view(&r) == (WindowView {
            theme_mode: Some(mode),
            collapsed_groups: texts(r.collapsed_groups@),
            ..window_view(live)
        }),
        terminal_view(&r) == terminal_view(live),
        habits_view(&r) == habits_view(live),
{
    let mut out: Settings = copy_settings(live);
    out.theme_mode = Some(mode);
    out.collapsed_groups = ordered_names(&live.collapsed_groups);
    out
}

/// What was written last, and what went wrong.
pub struct SettingsKeeper {
    pub persisted: Settings,
    pub last_error: Option<String>,
}

impl SettingsKeeper {
    /// Whether the settings have to be written: only where they are not what was
    /// written last.
    pub fn persist_settings_if_changed(&self, current: &Settings) -> (r: bool)
        ensures
            r == !hold_the_same(current, &self.persisted),
    {
        !same_settings(current, &self.persisted)
    }

    /// Takes note of how writing the settings went. They count as written either
    /// way, so that a write that fails is not tried again at every moment.
    pub fn settings_written(
        &mut self,
        language: Language,
        current: Settings,
        result: Result<(), String>,
    )
        ensures
            final(self).persisted == current,
            match result {
                Ok(_) => final(self).last_error == old(self).last_error,
                Err(error) => final(self).last_error is Some && final(self).last_error->0@
                    == filled(translated(language, "保存设置失败: {}"@), seq![error@]),
            },
    {
        match result {
            Ok(_) => {},
            Err(error) => {
                let args: Vec<String> = vec![error];
                assert(texts(args@) =~= seq![error@]);
                self.last_error = Some(tf(language, "保存设置失败: {}", &args));
            },
        }
        self.persisted = current;
    }
}

// Switches.

/// The shared clipboard of a remote desktop.
pub struct SharedClipboard {
    pub on: bool,
    /// What was taken from the local clipboard to be offered.
    pub offered: Option<String>,
}

impl SharedClipboard {
    /// Switches the sharing. Switched off, what was already taken is let go of, so
    /// that nothing more is handed over.
    pub fn toggle_rdp_clipboard(&mut self, on: bool)
        ensures
            final(self).on == on,
            final(self).offered == if on {
                old(self).offered
            } else {
                None
            },
    {
        self.on = on;
        if !on {
            self.offered = None;
        }
    }
}

/// Settings that hold the same agree in every field: a change of any of them is one that
/// is written.
pub proof fn law_every_setting_counts(a: &Settings, b: &Settings)
    requires
        hold_the_same(a, b),
    ensures
        a.language == b.language,
        a.sync.provider == b.sync.provider,
        a.sync.gist_id@ == b.sync.gist_id@,
        a.sync.github_client_id@ == b.sync.github_client_id@,
        a.sync.webdav_url@ == b.sync.webdav_url@,
        a.sync.webdav_username@ == b.sync.webdav_username@,
        a.sync.s3_endpoint@ == b.sync.s3_endpoint@,
        a.sync.s3_region@ == b.sync.s3_region@,
        a.sync.s3_bucket@ == b.sync.s3_bucket@,
        a.sync.s3_key@ == b.sync.s3_key@,
        a.sync.s3_access_key@ == b.sync.s3_access_key@,
        a.sync.s3_path_style == b.sync.s3_path_style,
        a.sync.google_client_id@ == b.sync.google_client_id@,
        a.sync.google_client_secret@ == b.sync.google_client_secret@,
        a.sync.onedrive_client_id@ == b.sync.onedrive_client_id@,
        a.sync.dropbox_client_id@ == b.sync.dropbox_client_id@,
        a.sync.include_credentials == b.sync.include_credentials,
        a.dark_mode == b.dark_mode,
        a.theme_mode == b.theme_mode,
        a.host_layout == b.host_layout,
        a.recent_hosts@ == b.recent_hosts@,
        a.grid_order@ == b.grid_order@,
        texts(a.collapsed_groups@) == texts(b.collapsed_groups@),
        a.window_width == b.window_width,
        a.window_height == b.window_height,
        a.auto_reconnect == b.auto_reconnect,
        a.sidebar_width == b.sidebar_width,
        a.sidebar_visible == b.sidebar_visible,
        a.font_family@ == b.font_family@,
        a.font_size == b.font_size,
        a.color_scheme@ == b.color_scheme@,
        a.highlight_rules@.len() == b.highlight_rules@.len(),
        a.log_dir@ == b.log_dir@,
        a.log_name_pattern@ == b.log_name_pattern@,
        a.auto_log_on_connect == b.auto_log_on_connect,
        a.log_plaintext == b.log_plaintext,
        a.copy_on_select == b.copy_on_select,
        a.right_click_paste == b.right_click_paste,
        a.confirm_multiline_paste == b.confirm_multiline_paste,
        a.connect_timeout_secs == b.connect_timeout_secs,
        a.scrollback_lines == b.scrollback_lines,
        a.snippets@.len() == b.snippets@.len(),
        a.auto_check_updates == b.auto_check_updates,
        a.command_window_open == b.command_window_open,
        a.command_send_immediately == b.command_send_immediately,
        a.auto_accept_host_keys == b.auto_accept_host_keys,
        a.rdp_clipboard == b.rdp_clipboard,
        a.keyring_migrated == b.keyring_migrated,
        forall|i: int|
            0 <= i < a.highlight_rules@.len() ==> (#[trigger] a.highlight_rules@[i]).0@
                == b.highlight_rules@[i].0@ && a.highlight_rules@[i].1 == b.highlight_rules@[i].1,
        forall|i: int|
            0 <= i < a.snippets@.len() ==> (#[trigger] a.snippets@[i]).name@
                == b.snippets@[i].name@ && a.snippets@[i].command@ == b.snippets@[i].command@,
{
    let (w, v) = (window_view(a), window_view(b));
    assert(w == v);
    let (x, y) = (sync_view(&a.sync), sync_view(&b.sync));
    assert(x == w.sync && y == v.sync);
    let (t, u) = (terminal_view(a), terminal_view(b));
    assert(t == u);
    let (h, k) = (habits_view(a), habits_view(b));
    assert(h == k);
    assert(rules_view(a.highlight_rules@) == rules_view(b.highlight_rules@));
    assert(snippets_view(a.snippets@) == snippets_view(b.snippets@));
    assert(rules_view(a.highlight_rules@).len() == a.highlight_rules@.len());
    assert(rules_view(b.highlight_rules@).len() == b.highlight_rules@.len());
    assert(snippets_view(a.snippets@).len() == a.snippets@.len());
    assert(snippets_view(b.snippets@).len() == b.snippets@.len());
    assert forall|i: int| 0 <= i < a.highlight_rules@.len() implies (
    #[trigger] a.highlight_rules@[i]).0@ == b.highlight_rules@[i].0@ && a.highlight_rules@[i].1
        == b.highlight_rules@[i].1 by {
        assert(rules_view(a.highlight_rules@)[i] == rules_view(b.highlight_rules@)[i]);
    }
    assert forall|i: int| 0 <= i < a.snippets@.len() implies (#[trigger] a.snippets@[i]).name@
        == b.snippets@[i].name@ && a.snippets@[i].command@ == b.snippets@[i].command@ by {
        assert(snippets_view(a.snippets@)[i] == snippets_view(b.snippets@)[i]);
    }
}

} // verus!

//! What becomes of the sessions and folders when they are selected, saved, moved,
//! renamed and deleted, and what is then said.

use vstd::prelude::*;
use vstd::string::*;

use crate::arrange::{delete_selected_profile, group_received, Deletion};
use crate::catalog::{
    inside_group, outside_group, regrouped, renamed, Catalog, InlineRename, Relocation,
};
use crate::chrome::ProfileSortKey;
use crate::command::{history_after, CommandWindow};
use crate::form::{filled_from, load_selected_profile, ProfileForm, SaveError};
use crate::groups::{
    add_group, added, lemma_name_at, lemma_name_found, name_at, remove_group, without,
};
use crate::i18n::{filled, t, tf, translated, Language};
use crate::input::{paste_bytes, perform_paste};
use crate::panes::{PaneNotice, TileMode, MAX_PANES};
use crate::profile::{find_profile, found_at, ids, same_profile, ConnectionProfile, ProfileId};
use crate::text::{decimal, decimal_of, holds, owned, same, texts, trim, trimmed};
use crate::viewport::{ScrollNotice, TerminalView};

verus! {

/// A text after a lead.
fn led(lead: &str, text: &str) -> (r: String)
    ensures
        r@ == lead@ + text@,
{
    let mut out: String = owned(lead);
    out.append(text);
    out
}

// What is said.

/// A change of the sessions or the folders.
pub enum Change {
    /// A session was begun.
    Begun,
    /// The form was saved to this file.
    Saved(String),
    /// A session was deleted, and the rest written to this file.
    Deleted(String),
    Renamed,
    /// A session was dragged elsewhere.
    Moved,
    Sorted(ProfileSortKey),
    MovedTo(String),
    GroupMade(String),
    GroupRenamed { from: String, to: String },
    /// A folder went, and so many sessions with it.
    GroupDeleted { group: String, count: usize },
    GroupsArranged,
    GridArranged,
}

/// What is said of a change.
pub open spec fn change_text(change: &Change) -> Seq<char> {
    match change {
        Change::Begun => "新建会话已加入左侧列表，编辑后点击保存"@,
        Change::Saved(path) => "会话配置已保存: "@ + path@,
        Change::Deleted(path) => "会话配置已删除；已打开标签不受影响。已写入 "@ + path@,
        Change::Renamed => "会话已重命名"@,
        Change::Moved => "会话已移动"@,
        Change::Sorted(ProfileSortKey::Name) => "会话已按名称排序"@,
        Change::Sorted(ProfileSortKey::Host) => "会话已按主机排序"@,
        Change::MovedTo(group) => "会话已移动到分组: "@ + group@,
        Change::GroupMade(group) => "分组已创建: "@ + group@,
        Change::GroupRenamed { from, to } => "分组已重命名: "@ + from@ + " -> "@ + to@,
        Change::GroupDeleted { group, count } => if *count > 0 {
            "已删除分组「"@ + group@ + "」及其 "@ + decimal(*count as nat)
                + " 个会话配置（已打开标签不受影响）"@
        } else {
            "已删除空分组「"@ + group@ + "」"@
        },
        Change::GroupsArranged => "分组顺序已更新"@,
        Change::GridArranged => "已调整网格排序"@,
    }
}

/// What is said of a change.
pub fn change_notice(change: &Change) -> (r: String)
    ensures
        r@ == change_text(change),
{
    match change {
        Change::Begun => owned("新建会话已加入左侧列表，编辑后点击保存"),
        Change::Saved(path) => led("会话配置已保存: ", path.as_str()),
        Change::Deleted(path) => led(
            "会话配置已删除；已打开标签不受影响。已写入 ",
            path.as_str(),
        ),
        Change::Renamed => owned("会话已重命名"),
        Change::Moved => owned("会话已移动"),
        Change::Sorted(key) => match key {
            ProfileSortKey::Name => owned("会话已按名称排序"),
            ProfileSortKey::Host => owned("会话已按主机排序"),
        },
        Change::MovedTo(group) => led("会话已移动到分组: ", group.as_str()),
        Change::GroupMade(group) => led("分组已创建: ", group.as_str()),
        Change::GroupRenamed { from, to } => {
            let mut out: String = led("分组已重命名: ", from.as_str());
            out.append(" -> ");
            out.append(to.as_str());
            out
        },
        Change::GroupDeleted { group, count } => {
            if *count == 0 {
                let mut out: String = led("已删除空分组「", group.as_str());
                out.append("」");
                return out;
            }
            let mut out: String = led("已删除分组「", group.as_str());
            out.append("」及其 ");
            out.append(decimal_of(*count as u64).as_str());
            out.append(" 个会话配置（已打开标签不受影响）");
            out
        },
        Change::GroupsArranged => owned("分组顺序已更新"),
        Change::GridArranged => owned("已调整网格排序"),
    }
}

/// Where sessions are imported from.
#[derive(Debug, Clone, Copy, PartialEq, Eq, Structural)]
pub enum ImportSource {
    SshConfig,
    SecureCrt,
}

/// What is said of an import.
pub open spec fn import_text(source: ImportSource, added: nat, skipped: nat) -> Seq<char> {
    match source {
        ImportSource::SshConfig => if added == 0 {
            "没有新的主机需要导入（可能都已存在）"@
        } else if skipped > 0 {
            "已从 ~/.ssh/config 导入 "@ + decimal(added) + " 个会话（跳过 "@ + decimal(skipped)
                + " 个已存在）"@
        } else {
            "已从 ~/.ssh/config 导入 "@ + decimal(added) + " 个会话"@
        },
        ImportSource::SecureCrt => if added == 0 {
            "没有新的 SecureCRT 会话需要导入（可能都已存在）"@
        } else if skipped > 0 {
            "已从 SecureCRT 导入 "@ + decimal(added) + " 个会话（跳过 "@ + decimal(skipped)
                + " 个已存在/无效）；密码未导入，请重新设置"@
        } else {
            "已从 SecureCRT 导入 "@ + decimal(added)
                + " 个会话；密码未导入，请重新设置"@
        },
    }
}

/// What is said of an import that added so many sessions and skipped so many. Those that
/// could not be made count as skipped with SecureCRT, and do not count with SSH.
pub fn import_notice(source: ImportSource, added: usize, known: usize, refused: usize) -> (r:
    String)
    requires
        known + refused <= usize::MAX,
    ensures
        r@ == import_text(
            source,
            added as nat,
            if source == ImportSource::SecureCrt {
                (known + refused) as nat
            } else {
                known as nat
            },
        ),
{
    let skipped: usize = match source {
        ImportSource::SshConfig => known,
        ImportSource::SecureCrt => known + refused,
    };
    let count: String = decimal_of(added as u64);
    let left: String = decimal_of(skipped as u64);
    match source {
        ImportSource::SshConfig => {
            if added == 0 {
                return owned("没有新的主机需要导入（可能都已存在）");
            }
            let mut out: String = led("已从 ~/.ssh/config 导入 ", count.as_str());
            if skipped > 0 {
                out.append(" 个会话（跳过 ");
                out.append(left.as_str());
                out.append(" 个已存在）");
            } else {
                out.append(" 个会话");
            }
            out
        },
        ImportSource::SecureCrt => {
            if added == 0 {
                return owned("没有新的 SecureCRT 会话需要导入（可能都已存在）");
            }
            let mut out: String = led("已从 SecureCRT 导入 ", count.as_str());
            if skipped > 0 {
                out.append(" 个会话（跳过 ");
                out.append(left.as_str());
                out.append(" 个已存在/无效）；密码未导入，请重新设置");
            } else {
                out.append(" 个会话；密码未导入，请重新设置");
            }
            out
        },
    }
}

/// What is said once the folder of the configuration was set.
pub open spec fn relocation_text(relocation: Relocation, path: Seq<char>) -> Seq<char> {
    match relocation {
        Relocation::Unchanged => "配置文件夹未改变"@,
        Relocation::AdoptOnRestart => "将在重启后加载 "@ + path
            + " 中的现有配置（不会覆盖该文件夹）；请尽快重启，重启前的修改不会保留"@,
        Relocation::CarryOver { back_to_default } => if back_to_default {
            "已恢复到默认配置文件夹（已生效）"@
        } else {
            "配置文件夹已切换到 "@ + path + "（已生效）"@
        },
    }
}

/// What is said once the folder of the configuration was set to a path.
pub fn relocation_notice(relocation: Relocation, path: &str) -> (r: String)
    ensures
        r@ == relocation_text(relocation, path@),
{
    match relocation {
        Relocation::Unchanged => owned("配置文件夹未改变"),
        Relocation::AdoptOnRestart => {
            let mut out: String = led("将在重启后加载 ", path);
            out.append(" 中的现有配置（不会覆盖该文件夹）；请尽快重启，重启前的修改不会保留");
            out
        },
        Relocation::CarryOver { back_to_default } => {
            if back_to_default {
                return owned("已恢复到默认配置文件夹（已生效）");
            }
            let mut out: String = led("配置文件夹已切换到 ", path);
            out.append("（已生效）");
            out
        },
    }
}

/// Why the form cannot be saved.
pub fn save_error_text(error: SaveError) -> (r: String)
    ensures
        r@ == match error {
            SaveError::BadPort => "端口必须是 1-65535 的数字"@,
            SaveError::BadJump(message) => message@,
        },
{
    match error {
        SaveError::BadPort => owned("端口必须是 1-65535 的数字"),
        SaveError::BadJump(message) => message,
    }
}

/// What is said once the sessions were handed to be written: what was done where they
/// could be, and why not where they could not.
pub fn persist_profiles(saved: Result<(), String>, change: &Change) -> (r: Result<String, String>)
    ensures
        r is Ok == saved is Ok,
        r matches Ok(notice) ==> notice@ == change_text(change),
        r matches Err(text) ==> text@ == "保存会话配置失败: "@ + saved->Err_0@,
{
    match saved {
        Ok(_) => Ok(change_notice(change)),
        Err(error) => Err(led("保存会话配置失败: ", error.as_str())),
    }
}

// What becomes of the sessions.

/// The sessions and folders, the session that is selected, the form that shows it, and
/// a rename in progress.
pub struct SessionBook {
    pub catalog: Catalog,
    pub selected_profile: Option<ProfileId>,
    pub form: ProfileForm,
    pub rename: InlineRename,
}

/// Whether the form shows a session of a catalogue, with what is stored for it, and its
/// folder is listed; where there is no such session, both are as they were.
pub open spec fn shows(
    before: &ProfileForm,
    after: &SessionBook,
    profiles: Seq<ConnectionProfile>,
    folders: Seq<Seq<char>>,
    password: Option<String>,
    passphrase: Option<String>,
) -> bool {
    let at = match after.selected_profile {
        Some(id) => found_at(profiles, id),
        None => None,
    };
    match at {
        None => after.form == *before && texts(after.catalog.groups@) == folders,
        Some(k) => {
            &&& filled_from(&after.form, &profiles[k], password, passphrase)
            &&& texts(after.catalog.groups@) == added(folders, profiles[k].group@)
        },
    }
}

/// The session that is selected once the selected one went: the first, where there is
/// one.
pub open spec fn first_of(profiles: Seq<ConnectionProfile>) -> Option<ProfileId> {
    if profiles.len() > 0 {
        Some(profiles[0].id)
    } else {
        None
    }
}

impl SessionBook {
    /// Fills the form from the session that is selected, with what is stored for it,
    /// and sees that its folder is listed. Without such a session nothing changes.
    pub fn load_selected(&mut self, password: &Option<String>, passphrase: &Option<String>)
        ensures
            shows(
                &old(self).form,
                final(self),
                old(self).catalog.profiles@,
                texts(old(self).catalog.groups@),
                *password,
                *passphrase,
            ),
            final(self).catalog.profiles == old(self).catalog.profiles,
            final(self).selected_profile == old(self).selected_profile,
            final(self).rename == old(self).rename,
    {
        if let Some(id) = self.selected_profile {
            if let Some(k) = find_profile(&self.catalog.profiles, id) {
                self.form = load_selected_profile(&self.catalog.profiles[k], password, passphrase);
                add_group(&mut self.catalog.groups, self.form.group.as_str());
            }
        }
    }

    /// Selects a session and shows it.
    pub fn select_profile(
        &mut self,
        profile_id: ProfileId,
        password: &Option<String>,
        passphrase: &Option<String>,
    )
        ensures
            final(self).selected_profile == Some(profile_id),
            shows(
                &old(self).form,
                final(self),
                old(self).catalog.profiles@,
                texts(old(self).catalog.groups@),
                *password,
                *passphrase,
            ),
            final(self).catalog.profiles == old(self).catalog.profiles,
            final(self).rename == old(self).rename,
    {
        self.selected_profile = Some(profile_id);
        self.load_selected(password, passphrase);
    }

    /// The form was written to a session: it is then the one that is selected and
    /// shown, and its folder is unfolded.
    pub fn profile_written(
        &mut self,
        profile_id: ProfileId,
        collapsed: &mut Vec<String>,
        password: &Option<String>,
        passphrase: &Option<String>,
    )
        ensures
            final(self).selected_profile == Some(profile_id),
            shows(
                &old(self).form,
                final(self),
                old(self).catalog.profiles@,
                texts(old(self).catalog.groups@),
                *password,
                *passphrase,
            ),
            texts(final(collapsed)@) == without(
                texts(old(collapsed)@),
                trimmed(final(self).form.group@),
            ),
            final(self).catalog.profiles == old(self).catalog.profiles,
            final(self).rename == old(self).rename,
    {
        self.select_profile(profile_id, password, passphrase);
        let group: String = trim(self.form.group.as_str());
        remove_group(collapsed, group.as_str());
    }

    /// A session was begun in a folder: it is then selected and shown, and a folder
    /// that has a name is listed and unfolded.
    pub fn profile_begun(
        &mut self,
        profile_id: ProfileId,
        group: &str,
        collapsed: &mut Vec<String>,
        password: &Option<String>,
        passphrase: &Option<String>,
    )
        ensures
            final(self).selected_profile == Some(profile_id),
            shows(
                &old(self).form,
                final(self),
                old(self).catalog.profiles@,
                if group@.len() == 0 {
                    texts(old(self).catalog.groups@)
                } else {
                    added(texts(old(self).catalog.groups@), group@)
                },
                *password,
                *passphrase,
            ),
            texts(final(collapsed)@) == if group@.len() == 0 {
                texts(old(collapsed)@)
            } else {
                without(texts(old(collapsed)@), group@)
            },
            final(self).catalog.profiles == old(self).catalog.profiles,
            final(self).rename == old(self).rename,
    {
        if !group.is_empty() {
            group_received(&mut self.catalog.groups, collapsed, group);
        }
        self.select_profile(profile_id, password, passphrase);
    }

    /// Deletes the selected session. A rename in progress ends, and the first session
    /// that is left is selected.
    pub fn delete_selected(&mut self) -> (r: Deletion)
        requires
            old(self).catalog.wf(),
        ensures
            final(self).catalog.wf(),
            final(self).catalog.groups == old(self).catalog.groups,
            final(self).form == old(self).form,
            match old(self).selected_profile {
                None => {
                    &&& r is NoSelection
                    &&& final(self).catalog.profiles@ == old(self).catalog.profiles@
                    &&& final(self).selected_profile is None
                    &&& final(self).rename == old(self).rename
                },
                Some(id) => match found_at(old(self).catalog.profiles@, id) {
                    None => {
                        &&& r is Unknown
                        &&& final(self).catalog.profiles@ == old(self).catalog.profiles@
                        &&& final(self).selected_profile == old(self).selected_profile
                        &&& final(self).rename == old(self).rename
                    },
                    Some(k) => {
                        &&& final(self).catalog.profiles@ == old(self).catalog.profiles@.remove(k)
                        &&& final(self).selected_profile == first_of(final(self).catalog.profiles@)
                        &&& r == (Deletion::Deleted {
                            id,
                            selected: final(self).selected_profile,
                        })
                        &&& final(self).rename.editing_profile is None
                        &&& final(self).rename.editing_group is None
                        &&& final(self).rename.profile_draft@.len() == 0
                        &&& final(self).rename.group_draft@.len() == 0
                    },
                },
            },
    {
        let deletion: Deletion = delete_selected_profile(&mut self.catalog, self.selected_profile);
        match &deletion {
            Deletion::NoSelection | Deletion::Unknown => {},
            Deletion::Deleted { id: _, selected } => {
                self.rename.cancel_inline_rename();
                self.selected_profile = *selected;
            },
        }
        deletion
    }

    /// Deletes a folder and the sessions in it, and hands back which they were. A
    /// rename of a folder ends, a form that named the folder names none, and the first
    /// session that is left is selected.
    pub fn delete_group(&mut self, group: &str, collapsed: &mut Vec<String>) -> (r: Vec<ProfileId>)
        requires
            old(self).catalog.wf(),
        ensures
            final(self).catalog.wf(),
            r@ == inside_group(old(self).catalog.profiles@, group@),
            final(self).catalog.profiles@ == outside_group(old(self).catalog.profiles@, group@),
            texts(final(self).catalog.groups@) == without(texts(old(self).catalog.groups@), group@),
            texts(final(collapsed)@) == without(texts(old(collapsed)@), group@),
            final(self).form == (ProfileForm { group: final(self).form.group, ..old(self).form }),
            if old(self).form.group@ == group@ {
                final(self).form.group@.len() == 0
            } else {
                final(self).form.group == old(self).form.group
            },
            final(self).selected_profile == first_of(final(self).catalog.profiles@),
            final(self).rename.editing_group is None,
            final(self).rename.group_draft@.len() == 0,
            final(self).rename.editing_profile == old(self).rename.editing_profile,
            final(self).rename.profile_draft == old(self).rename.profile_draft,
    {
        self.rename.editing_group = None;
        self.rename.group_draft = String::new();
        let gone: Vec<ProfileId> = self.catalog.delete_group(group);
        remove_group(collapsed, group);
        if same(self.form.group.as_str(), group) {
            self.form.group = String::new();
        }
        self.selected_profile = if self.catalog.profiles.len() > 0 {
            Some(self.catalog.profiles[0].id)
        } else {
            None
        };
        gone
    }

    /// Renames a session, and in the form too where it is the one that is selected.
    /// Says whether there is such a session.
    pub fn apply_profile_rename(&mut self, profile_id: ProfileId, name: &str) -> (r: bool)
        ensures
            r == ids(old(self).catalog.profiles@).contains(profile_id),
            final(self).catalog.profiles@.len() == old(self).catalog.profiles@.len(),
            forall|i: int|
                0 <= i < old(self).catalog.profiles@.len() ==> if found_at(
                    old(self).catalog.profiles@,
                    profile_id,
                ) == Some(i) {
                    renamed(
                        &#[trigger] final(self).catalog.profiles@[i],
                        &old(self).catalog.profiles@[i],
                        name@,
                    )
                } else {
                    final(self).catalog.profiles@[i] == old(self).catalog.profiles@[i]
                },
            final(self).catalog.groups == old(self).catalog.groups,
            final(self).form == (ProfileForm { name: final(self).form.name, ..old(self).form }),
            if r && old(self).selected_profile == Some(profile_id) {
                final(self).form.name@ == name@
            } else {
                final(self).form.name == old(self).form.name
            },
            final(self).selected_profile == old(self).selected_profile,
            final(self).rename == old(self).rename,
    {
        if !self.catalog.rename_profile(profile_id, name) {
            return false;
        }
        if same_profile(self.selected_profile, profile_id) {
            self.form.name = owned(name);
        }
        true
    }

    /// Renames a folder: its sessions follow, it keeps its place, it stays folded
    /// where it was, and a form that named it names it anew.
    pub fn apply_group_rename(&mut self, from: &str, to: &str, collapsed: &mut Vec<String>)
        ensures
            group_renamed(&old(self).catalog, &final(self).catalog, from@, to@),
            texts(final(collapsed)@) == refolded(texts(old(collapsed)@), from@, to@),
            final(self).form == (ProfileForm { group: final(self).form.group, ..old(self).form }),
            if old(self).form.group@ == from@ {
                final(self).form.group@ == to@
            } else {
                final(self).form.group == old(self).form.group
            },
            final(self).selected_profile == old(self).selected_profile,
            final(self).rename == old(self).rename,
    {
        self.catalog.apply_group_rename(from, to);
        if remove_group(collapsed, from) {
            let ghost left = texts(collapsed@);
            if !holds(collapsed, to) {
                collapsed.push(owned(to));
                assert(texts(collapsed@) =~= left.push(to@));
            }
        }
        if same(self.form.group.as_str(), from) {
            self.form.group = owned(to);
        }
    }

    /// Puts a session into a folder, which is then listed and unfolded; the session is
    /// selected and shown. Says whether there is such a session.
    pub fn move_to_group(
        &mut self,
        profile_id: ProfileId,
        group: &str,
        collapsed: &mut Vec<String>,
        password: &Option<String>,
        passphrase: &Option<String>,
    ) -> (r: bool)
        ensures
            r == ids(old(self).catalog.profiles@).contains(profile_id),
            final(self).catalog.profiles@.len() == old(self).catalog.profiles@.len(),
            forall|i: int|
                0 <= i < old(self).catalog.profiles@.len() ==> if found_at(
                    old(self).catalog.profiles@,
                    profile_id,
                ) == Some(i) {
                    regrouped(
                        &#[trigger] final(self).catalog.profiles@[i],
                        &old(self).catalog.profiles@[i],
                        trimmed(group@),
                    )
                } else {
                    final(self).catalog.profiles@[i] == old(self).catalog.profiles@[i]
                },
            if r {
                &&& final(self).selected_profile == Some(profile_id)
                &&& shows(
                    &old(self).form,
                    final(self),
                    final(self).catalog.profiles@,
                    added(texts(old(self).catalog.groups@), group@),
                    *password,
                    *passphrase,
                )
                &&& texts(final(collapsed)@) == without(texts(old(collapsed)@), group@)
            } else {
                &&& final(self).selected_profile == old(self).selected_profile
                &&& final(self).form == old(self).form
                &&& final(self).catalog.groups == old(self).catalog.groups
                &&& final(collapsed)@ == old(collapsed)@
            },
            final(self).rename == old(self).rename,
    {
        if !self.catalog.move_profile_to_group(profile_id, group) {
            return false;
        }
        group_received(&mut self.catalog.groups, collapsed, group);
        self.select_profile(profile_id, password, passphrase);
        true
    }
}

/// The folded folders once a folder has another name.
pub open spec fn refolded(folded: Seq<Seq<char>>, from: Seq<char>, to: Seq<char>) -> Seq<Seq<char>> {
    if !folded.contains(from) || without(folded, from).contains(to) {
        without(folded, from)
    } else {
        without(folded, from).push(to)
    }
}

/// Whether a catalogue is another one with a folder under another name: its sessions
/// follow, and it keeps its place.
pub open spec fn group_renamed(
    before: &Catalog,
    after: &Catalog,
    from: Seq<char>,
    to: Seq<char>,
) -> bool {
    &&& after.profiles@.len() == before.profiles@.len()
    &&& forall|i: int|
        0 <= i < before.profiles@.len() ==> if before.profiles@[i].group@ == from {
            regrouped(&#[trigger] after.profiles@[i], &before.profiles@[i], to)
        } else {
            after.profiles@[i] == before.profiles@[i]
        }
    &&& texts(after.groups@) == match name_at(texts(before.groups@), from) {
        Some(k) => texts(before.groups@).update(k, to),
        None => added(texts(before.groups@), to),
    }
}

/// Renaming a folder and then renaming it back changes nothing: every folder keeps its
/// name and its place, and every session its folder. The name in between must not be
/// that of another folder.
pub proof fn law_renaming_back_is_nothing(
    before: &Catalog,
    between: &Catalog,
    after: &Catalog,
    from: Seq<char>,
    to: Seq<char>,
)
    requires
        group_renamed(before, between, from, to),
        group_renamed(between, after, to, from),
        texts(before.groups@).contains(from),
        !texts(before.groups@).contains(to),
        forall|i: int| 0 <= i < before.profiles@.len() ==> (#[trigger] before.profiles@[i]).group@
            != to,
    ensures
        texts(after.groups@) == texts(before.groups@),
        after.profiles@.len() == before.profiles@.len(),
        forall|i: int|
            0 <= i < before.profiles@.len() ==> regrouped(
                &#[trigger] after.profiles@[i],
                &before.profiles@[i],
                before.profiles@[i].group@,
            ),
{
    let names = texts(before.groups@);
    lemma_name_found(names, from);
    let k = name_at(names, from)->0;
    let renamed_names = names.update(k, to);
    assert(forall|j: int| 0 <= j < k ==> renamed_names[j] != to) by {
        assert forall|j: int| 0 <= j < k implies renamed_names[j] != to by {
            assert(names[j] != to);
        }
    }
    lemma_name_at(renamed_names, to, k);
    assert(renamed_names.update(k, from) =~= names);
    assert forall|i: int| 0 <= i < before.profiles@.len() implies regrouped(
        &#[trigger] after.profiles@[i],
        &before.profiles@[i],
        before.profiles@[i].group@,
    ) by {
        let first = before.profiles@[i];
        let second = between.profiles@[i];
        let third = after.profiles@[i];
        assert(first.group@ != to);
    }
}

// The terminals.

/// What is said of the panes, and whether it is why something could not be done.
pub open spec fn pane_text(language: Language, notice: PaneNotice) -> (Seq<char>, bool) {
    match notice {
        PaneNotice::NeedTwoSessions => (
            translated(language, "至少要两个会话才能平铺（先多连接/打开几个会话）"@),
            false,
        ),
        PaneNotice::Tiled(mode, count) => (
            "已"@ + match mode {
                TileMode::Columns => "垂直"@,
                TileMode::Rows => "水平"@,
                TileMode::Grid => "网格"@,
            } + "平铺 "@ + decimal(count as nat) + " 个会话"@,
            false,
        ),
        PaneNotice::Merged => (translated(language, "已合并为单标签视图"@), false),
        PaneNotice::RdpCannotSplit => (translated(language, "RDP 会话不支持分屏"@), true),
        PaneNotice::ConnectFirst => (translated(language, "请先连接一个会话再分屏"@), true),
        PaneNotice::TooManyPanes => (
            filled(
                translated(language, "最多同时分屏 {} 个终端"@),
                seq![decimal(MAX_PANES as nat)],
            ),
            false,
        ),
        PaneNotice::NoMoreSessions => (
            translated(language, "没有更多会话可分屏（先在侧栏连接另一个会话）"@),
            false,
        ),
        PaneNotice::Split(count) => (
            "已分屏："@ + decimal(count as nat) + " 个终端并排"@,
            false,
        ),
    }
}

/// What is said of the panes, and whether it is why something could not be done.
pub fn pane_notice(language: Language, notice: PaneNotice) -> (r: (String, bool))
    ensures
        (r.0@, r.1) == pane_text(language, notice),
{
    match notice {
        PaneNotice::NeedTwoSessions => (
            owned(t(language, "至少要两个会话才能平铺（先多连接/打开几个会话）")),
            false,
        ),
        PaneNotice::Tiled(mode, count) => {
            let mut out: String = led(
                "已",
                match mode {
                    TileMode::Columns => "垂直",
                    TileMode::Rows => "水平",
                    TileMode::Grid => "网格",
                },
            );
            out.append("平铺 ");
            out.append(decimal_of(count as u64).as_str());
            out.append(" 个会话");
            (out, false)
        },
        PaneNotice::Merged => (owned(t(language, "已合并为单标签视图")), false),
        PaneNotice::RdpCannotSplit => (owned(t(language, "RDP 会话不支持分屏")), true),
        PaneNotice::ConnectFirst => (owned(t(language, "请先连接一个会话再分屏")), true),
        PaneNotice::TooManyPanes => {
            let args: Vec<String> = vec![decimal_of(MAX_PANES as u64)];
            assert(texts(args@) =~= seq![decimal(MAX_PANES as nat)]);
            (tf(language, "最多同时分屏 {} 个终端", &args), false)
        },
        PaneNotice::NoMoreSessions => (
            owned(t(language, "没有更多会话可分屏（先在侧栏连接另一个会话）")),
            false,
        ),
        PaneNotice::Split(count) => {
            let mut out: String = led("已分屏：", decimal_of(count as u64).as_str());
            out.append(" 个终端并排");
            (out, false)
        },
    }
}

/// What is said of where the terminal stands in its history.
pub fn scroll_notice(language: Language, notice: ScrollNotice) -> (r: String)
    ensures
        r@ == match notice {
            ScrollNotice::AtBottom => translated(language, "终端已回到底部"@),
            ScrollNotice::RowsFromBottom(rows) => filled(
                translated(language, "终端历史: 距底部 {} 行"@),
                seq![decimal(rows as nat)],
            ),
        },
{
    match notice {
        ScrollNotice::AtBottom => owned(t(language, "终端已回到底部")),
        ScrollNotice::RowsFromBottom(rows) => {
            let args: Vec<String> = vec![decimal_of(rows as u64)];
            assert(texts(args@) =~= seq![decimal(rows as nat)]);
            tf(language, "终端历史: 距底部 {} 行", &args)
        },
    }
}

/// What is said once something was pasted; nothing where there was nothing to paste.
pub fn paste_notice(language: Language, contents: &str, bracketed: bool) -> (r: Option<String>)
    ensures
        r is Some == (paste_bytes(contents@, bracketed).len() > 0),
        r matches Some(text) ==> text@ == translated(language, "已粘贴到当前终端"@),
{
    if perform_paste(contents, bracketed).len() > 0 {
        Some(owned(t(language, "已粘贴到当前终端")))
    } else {
        None
    }
}

/// What is said of a log: to which file it goes, or to which it went.
pub fn log_notice(path: &str, started: bool) -> (r: String)
    ensures
        r@ == if started {
            "正在记录会话输出到: "@ + path@
        } else {
            "已停止记录会话日志: "@ + path@
        },
{
    if started {
        led("正在记录会话输出到: ", path)
    } else {
        led("已停止记录会话日志: ", path)
    }
}

/// Why no log could be started.
pub fn log_error(language: Language, error: &str) -> (r: String)
    ensures
        r@ == filled(translated(language, "开启会话日志失败: {}"@), seq![error@]),
{
    let args: Vec<String> = vec![owned(error)];
    assert(texts(args@) =~= seq![error@]);
    tf(language, "开启会话日志失败: {}", &args)
}

/// What is said once the active terminal has another size.
pub fn resize_notice(language: Language, cols: u16, rows: u16) -> (r: String)
    ensures
        r@ == filled(
            translated(language, "当前终端尺寸已设置为 {}x{}"@),
            seq![decimal(cols as nat), decimal(rows as nat)],
        ),
{
    let args: Vec<String> = vec![decimal_of(cols as u64), decimal_of(rows as u64)];
    assert(texts(args@) =~= seq![decimal(cols as nat), decimal(rows as nat)]);
    tf(language, "当前终端尺寸已设置为 {}x{}", &args)
}

/// The line of the command window went: it is remembered and the box emptied, and the
/// terminal shows what comes of it.
pub fn command_sent(command: &mut CommandWindow, terminal: &mut TerminalView)
    ensures
        final(command).wf(),
        final(command).input@.len() == 0,
        final(command).history_pos is None,
        final(command).send_immediately == old(command).send_immediately,
        final(command).history@ == history_after(old(command).history@, old(command).input),
        *final(terminal) == (TerminalView { scroll_offset: 0, selection: None, ..*old(terminal) }),
{
    command.sent();
    terminal.scroll_offset = 0;
    terminal.selection = None;
}

/// A folder that was folded stays folded under its new name, and the others stay as they
/// were.
pub proof fn law_a_renamed_folder_stays_folded(
    folded: Seq<Seq<char>>,
    from: Seq<char>,
    to: Seq<char>,
    other: Seq<char>,
)
    requires
        other != from,
        other != to,
    ensures
        folded.contains(from) ==> refolded(folded, from, to).contains(to),
        !folded.contains(from) && from != to ==> refolded(folded, from, to).contains(to)
            == folded.contains(to),
        from != to ==> !refolded(folded, from, to).contains(from),
        refolded(folded, from, to).contains(other) == folded.contains(other),
{
    let rest = without(folded, from);
    lemma_without(folded, from, to);
    lemma_without(folded, from, other);
    lemma_without(folded, from, from);
    let now = refolded(folded, from, to);
    if folded.contains(from) && !rest.contains(to) {
        assert(now == rest.push(to));
        assert(now[rest.len() as int] == to);
        if rest.contains(other) {
            let k = choose|k: int| 0 <= k < rest.len() && rest[k] == other;
            assert(now[k] == other);
        }
        if now.contains(other) {
            let k = choose|k: int| 0 <= k < now.len() && now[k] == other;
            assert(rest[k] == other);
        }
        if from != to && now.contains(from) {
            let k = choose|k: int| 0 <= k < now.len() && now[k] == from;
            assert(rest[k] == from);
        }
    }
}

proof fn lemma_without(list: Seq<Seq<char>>, name: Seq<char>, other: Seq<char>)
    ensures
        without(list, name).contains(other) <==> list.contains(other) && other != name,
    decreases list.len(),
{
    if list.len() > 0 {
        let front = list.drop_last();
        lemma_without(front, name, other);
        let before = without(front, name);
        let now = without(list, name);
        if now.contains(other) {
            let k = choose|k: int| 0 <= k < now.len() && now[k] == other;
            if k < before.len() {
                assert(before[k] == other);
                let m = choose|m: int| 0 <= m < front.len() && front[m] == other;
                assert(list[m] == other);
            } else {
                assert(list[list.len() - 1] == other);
            }
        }
        if list.contains(other) && other != name {
            let m = choose|m: int| 0 <= m < list.len() && list[m] == other;
            if m < front.len() {
                assert(front[m] == other);
                let k = choose|k: int| 0 <= k < before.len() && before[k] == other;
                assert(now[k] == other);
            } else {
                assert(now[before.len() as int] == other);
            }
        }
    }
}

} // verus!

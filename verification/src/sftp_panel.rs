//! The panel around the two file lists: its status line, the rows and menus of
//! the lists, what is dragged between them, and how it follows the browser.

use vstd::prelude::*;
use vstd::string::*;

use crate::calendar::{is_stamp_of, local_secs, sftp_date_at};
use crate::sftp::{entries_at, entries_sorted, entry_order, SftpEntry, SftpPane, SftpSortKey};
use crate::style::Tone;
use crate::text::{
    decimal, decimal_of, holds, owned, same, stands_at, starts_with, texts,
};
use crate::transfers::{human_size, size_text};

verus! {

/// An entry of one of the lists that is being dragged.
#[derive(Debug, Clone)]
pub struct SftpDrag {
    pub pane: SftpPane,
    pub name: String,
}

/// What the panel remembers of itself.
pub struct SftpPanel {
    pub local_selected: Vec<String>,
    pub remote_selected: Vec<String>,
    pub drag: Option<SftpDrag>,
    /// The list that the pointer is over while something is dragged.
    pub drag_over: Option<SftpPane>,
    pub local_path_edit: String,
    pub remote_path_edit: String,
    /// The folders that the lists were last seen in.
    pub local_seen: String,
    pub remote_seen: String,
    /// The entry whose menu is open, and whether it is a folder.
    pub context_menu: Option<(SftpPane, String, bool)>,
    pub local_sort: (SftpSortKey, bool),
    pub remote_sort: (SftpSortKey, bool),
}

impl SftpPanel {
    /// What is selected in a list.
    pub open spec fn selected(&self, pane: SftpPane) -> Seq<Seq<char>> {
        match pane {
            SftpPane::Local => texts(self.local_selected@),
            SftpPane::Remote => texts(self.remote_selected@),
        }
    }

    /// How many entries a drag carries: the whole selection where what is dragged
    /// is part of one of several, and otherwise only what is dragged.
    pub open spec fn carried(&self) -> nat {
        match self.drag {
            Some(drag) => {
                let selection = self.selected(drag.pane);
                if selection.contains(drag.name@) && selection.len() > 1 {
                    selection.len()
                } else {
                    1
                }
            },
            None => 0,
        }
    }

    fn selection(&self, pane: SftpPane) -> (r: &Vec<String>)
        ensures
            texts(r@) == self.selected(pane),
    {
        match pane {
            SftpPane::Local => &self.local_selected,
            SftpPane::Remote => &self.remote_selected,
        }
    }

    /// The name of what is dragged, and how many entries the drag carries.
    pub fn drag_subject(&self) -> (r: (String, usize))
        ensures
            r.0@ == match self.drag {
                Some(drag) => drag.name@,
                None => Seq::<char>::empty(),
            },
            r.1 == self.carried(),
    {
        match &self.drag {
            Some(drag) => {
                let selection: &Vec<String> = self.selection(drag.pane);
                assert(texts(selection@).len() == selection@.len());
                let count: usize = if holds(selection, drag.name.as_str()) && selection.len() > 1 {
                    selection.len()
                } else {
                    1
                };
                (owned(drag.name.as_str()), count)
            },
            None => (String::new(), 0),
        }
    }

    /// What the status line says: what is dragged and where it can be dropped, or
    /// what the browser reports, in red where that is an error.
    pub fn status_line(&self, status: &str) -> (r: (String, Tone))
        ensures
            r.0@ == self.status_text(status@),
            r.1 == if self.drag is Some {
                Tone::Accent
            } else if stands_at(status@, "error"@, 0) {
                Tone::Danger
            } else {
                Tone::Muted
            },
    {
        match &self.drag {
            Some(drag) => {
                let (name, count): (String, usize) = self.drag_subject();
                let mut out: String = owned("⠿ 拖拽 ");
                if count > 1 {
                    out.append(decimal_of(count as u64).as_str());
                    out.append(" 项");
                } else {
                    out.append("«");
                    out.append(name.as_str());
                    out.append("»");
                }
                out.append(" — ");
                match drag.pane {
                    SftpPane::Local => out.append("松开到右侧远程栏上传"),
                    SftpPane::Remote => out.append("松开到左侧本地栏下载"),
                }
                assert(out@ =~= self.status_text(status@));
                (out, Tone::Accent)
            },
            None => if starts_with(status, "error") {
                (owned(status), Tone::Danger)
            } else {
                (owned(status), Tone::Muted)
            },
        }
    }

    /// The text of the status line.
    pub open spec fn status_text(&self, status: Seq<char>) -> Seq<char> {
        match self.drag {
            Some(drag) => "⠿ 拖拽 "@ + (if self.carried() > 1 {
                decimal(self.carried()) + " 项"@
            } else {
                "«"@ + drag.name@ + "»"@
            }) + " — "@ + match drag.pane {
                SftpPane::Local => "松开到右侧远程栏上传"@,
                SftpPane::Remote => "松开到左侧本地栏下载"@,
            },
            None => status,
        }
    }

    /// Whether a list is where a drag from the other one would be dropped.
    pub fn drop_active(&self, pane: SftpPane) -> (r: bool)
        ensures
            r == (self.drag is Some && self.drag->0.pane != pane && self.drag_over == Some(pane)),
    {
        match (&self.drag, self.drag_over) {
            (Some(drag), Some(over)) => drag.pane != pane && over == pane,
            _ => false,
        }
    }

    /// Whether the mark of what is dragged is drawn over a list.
    pub fn ghost_shown(&self, pane: SftpPane, cursor_known: bool) -> (r: bool)
        ensures
            r == (cursor_known && self.drag is Some && self.drag_over == Some(pane)),
    {
        cursor_known && self.drag.is_some() && match self.drag_over {
            Some(over) => over == pane,
            None => false,
        }
    }

    /// Follows the browser. A list that is in another folder than it was last
    /// seen in shows that folder's path and forgets its selection; one that is
    /// not keeps what was typed and selected. Without a browser an open menu
    /// closes, and nothing else changes.
    pub fn sync_sftp_state(&mut self, folders: Option<(String, String)>)
        ensures
            match folders {
                None => {
                    &&& final(self).context_menu is None
                    &&& *final(self) == (SftpPanel {
                        context_menu: final(self).context_menu,
                        ..*old(self)
                    })
                },
                Some((remote, local)) => {
                    &&& final(self).remote_seen@ == remote@
                    &&& final(self).local_seen@ == local@
                    &&& remote@ == old(self).remote_seen@ ==> final(self).remote_path_edit == old(
                        self,
                    ).remote_path_edit && final(self).remote_selected == old(self).remote_selected
                    &&& remote@ != old(self).remote_seen@ ==> final(self).remote_path_edit@
                        == remote@ && final(self).remote_selected@.len() == 0
                    &&& local@ == old(self).local_seen@ ==> final(self).local_path_edit == old(
                        self,
                    ).local_path_edit && final(self).local_selected == old(self).local_selected
                    &&& local@ != old(self).local_seen@ ==> final(self).local_path_edit@ == local@
                        && final(self).local_selected@.len() == 0
                    &&& *final(self) == (SftpPanel {
                        local_selected: final(self).local_selected,
                        remote_selected: final(self).remote_selected,
                        local_path_edit: final(self).local_path_edit,
                        remote_path_edit: final(self).remote_path_edit,
                        local_seen: final(self).local_seen,
                        remote_seen: final(self).remote_seen,
                        ..*old(self)
                    })
                },
            },
    {
        match folders {
            None => {
                self.context_menu = None;
            },
            Some((remote, local)) => {
                if !same(remote.as_str(), self.remote_seen.as_str()) {
                    self.remote_path_edit = owned(remote.as_str());
                    self.remote_seen = remote;
                    self.remote_selected = Vec::new();
                }
                if !same(local.as_str(), self.local_seen.as_str()) {
                    self.local_path_edit = owned(local.as_str());
                    self.local_seen = local;
                    self.local_selected = Vec::new();
                }
            },
        }
    }
}

/// What stands above the lists: where they lead.
pub fn sftp_title(endpoint: &str) -> (r: String)
    ensures
        r@ == "SFTP — "@ + endpoint@,
{
    let mut out: String = owned("SFTP — ");
    out.append(endpoint);
    out
}

/// What the bar says that renames an entry.
pub fn sftp_rename_bar(from: &str) -> (r: String)
    ensures
        r@ == "重命名 "@ + from@ + " →"@,
{
    let mut out: String = owned("重命名 ");
    out.append(from);
    out.append(" →");
    out
}

/// What the bar asks that deletes an entry.
pub fn sftp_delete_bar(name: &str) -> (r: String)
    ensures
        r@ == "确认删除 "@ + name@ + "?"@,
{
    let mut out: String = owned("确认删除 ");
    out.append(name);
    out.append("?");
    out
}

/// What the mark of a drag says.
pub fn drag_ghost_label(name: &str, count: usize) -> (r: String)
    ensures
        r@ == if count > 1 {
            "⠿ "@ + name@ + "  +"@ + decimal((count - 1) as nat)
        } else {
            "⠿ "@ + name@
        },
{
    let mut out: String = owned("⠿ ");
    out.append(name);
    if count > 1 {
        out.append("  +");
        out.append(decimal_of((count - 1) as u64).as_str());
    }
    out
}

/// The label of a button that acts on what is selected: how many that are, where
/// there are any. Without a selection the button is dead.
pub fn sftp_batch_button(label: &str, count: usize) -> (r: (String, bool))
    ensures
        r.0@ == if count > 0 {
            label@ + " ("@ + decimal(count as nat) + ")"@
        } else {
            label@
        },
        r.1 == (count > 0),
{
    let mut caption: String = owned(label);
    if count > 0 {
        caption.append(" (");
        caption.append(decimal_of(count as u64).as_str());
        caption.append(")");
    }
    (caption, count > 0)
}

/// The heading of a column: an arrow where the list is ordered by it.
pub fn sftp_sort_cell(label: &str, column: SftpSortKey, active: (SftpSortKey, bool)) -> (r: (
    String,
    Tone,
))
    ensures
        r.0@ == label@ + if active.0 != column {
            Seq::<char>::empty()
        } else if active.1 {
            " ▲"@
        } else {
            " ▼"@
        },
        r.1 == if active.0 == column {
            Tone::Accent
        } else {
            Tone::Muted
        },
{
    let mut out: String = owned(label);
    if active.0 == column {
        out.append(
            if active.1 {
                " ▲"
            } else {
                " ▼"
            },
        );
        (out, Tone::Accent)
    } else {
        assert(out@ =~= label@ + Seq::<char>::empty());
        (out, Tone::Muted)
    }
}

/// What a press on an entry does.
#[derive(Debug, Clone, Copy, PartialEq, Eq, Structural)]
pub enum EntryPress {
    /// Goes into the folder.
    Navigate,
    /// Selects the file, or sends it on the second press.
    Select,
}

/// The row of an entry.
pub struct EntryRow {
    pub label: String,
    pub label_tone: Tone,
    pub size: String,
    pub date: String,
    pub press: EntryPress,
}

/// The row of an entry, in a time zone: a folder carries a slash and no size.
pub fn sftp_entry_row(entry: &SftpEntry, offset: i32) -> (r: EntryRow)
    ensures
        r.label@ == if entry.is_dir {
            entry.name@ + "/"@
        } else {
            entry.name@
        },
        r.label_tone == if entry.is_dir {
            Tone::Accent
        } else {
            Tone::Primary
        },
        r.size@ == if entry.is_dir {
            "DIR"@
        } else {
            size_text(entry.size)
        },
        match entry.mtime {
            Some(secs) => is_stamp_of(r.date@, local_secs(secs, offset as int)),
            None => r.date@ == "—"@,
        },
        r.press == if entry.is_dir {
            EntryPress::Navigate
        } else {
            EntryPress::Select
        },
{
    let date: String = sftp_date_at(entry.mtime, offset);
    if entry.is_dir {
        let mut label: String = owned(entry.name.as_str());
        label.append("/");
        EntryRow {
            label,
            label_tone: Tone::Accent,
            size: owned("DIR"),
            date,
            press: EntryPress::Navigate,
        }
    } else {
        EntryRow {
            label: owned(entry.name.as_str()),
            label_tone: Tone::Primary,
            size: human_size(entry.size),
            date,
            press: EntryPress::Select,
        }
    }
}

/// A row of a list: the entry that it shows, and whether it is selected.
#[derive(Debug, Clone, Copy, PartialEq, Eq, Structural)]
pub struct ListedEntry {
    pub index: usize,
    pub selected: bool,
}

/// One of the lists.
pub struct SftpList {
    /// The entries in their order.
    pub rows: Vec<ListedEntry>,
    /// The button that sends what is selected, and whether it is alive.
    pub batch: (String, bool),
    pub drop_active: bool,
}

/// The positions of the entries that rows show.
pub open spec fn shown(rows: Seq<ListedEntry>) -> Seq<usize> {
    rows.map_values(|row: ListedEntry| row.index)
}

/// What the button that sends the selection of a list is called.
pub open spec fn batch_label(pane: SftpPane) -> Seq<char> {
    match pane {
        SftpPane::Local => "上传选中"@,
        SftpPane::Remote => "下载选中"@,
    }
}

/// One of the lists, in the order that was chosen for it.
pub fn sftp_list(panel: &SftpPanel, pane: SftpPane, entries: &Vec<SftpEntry>) -> (r: SftpList)
    ensures
        entries_at(entries@, shown(r.rows@)) == entries_sorted(
            panel.sort_of(pane).0,
            panel.sort_of(pane).1,
            entries@,
        ),
        forall|k: int|
            0 <= k < r.rows@.len() ==> (#[trigger] r.rows@[k]).index < entries.len()
                && r.rows@[k].selected == panel.selected(pane).contains(
                entries@[r.rows@[k].index as int].name@,
            ),
        r.batch.0@ == if panel.selected(pane).len() > 0 {
            batch_label(pane) + " ("@ + decimal(panel.selected(pane).len()) + ")"@
        } else {
            batch_label(pane)
        },
        r.batch.1 == (panel.selected(pane).len() > 0),
        r.drop_active == (panel.drag is Some && panel.drag->0.pane != pane && panel.drag_over
            == Some(pane)),
{
    let (key, ascending): (SftpSortKey, bool) = match pane {
        SftpPane::Local => panel.local_sort,
        SftpPane::Remote => panel.remote_sort,
    };
    let label: &'static str = match pane {
        SftpPane::Local => "上传选中",
        SftpPane::Remote => "下载选中",
    };
    let selection: &Vec<String> = panel.selection(pane);
    assert(texts(selection@).len() == selection@.len());
    let order: Vec<usize> = entry_order(entries, key, ascending);
    let mut rows: Vec<ListedEntry> = Vec::new();
    let mut k: usize = 0;
    while k < order.len()
        invariant
            k <= order.len(),
            rows@.len() == k,
            texts(selection@) == panel.selected(pane),
            forall|j: int| 0 <= j < order@.len() ==> order@[j] < entries.len(),
            forall|j: int|
                0 <= j < k ==> (#[trigger] rows@[j]).index == order@[j] && rows@[j].selected
                    == panel.selected(pane).contains(entries@[order@[j] as int].name@),
        decreases order.len() - k,
    {
        let index: usize = order[k];
        rows.push(ListedEntry { index, selected: holds(selection, entries[index].name.as_str()) });
        k += 1;
    }
    assert(shown(rows@) =~= order@);
    SftpList {
        rows,
        batch: sftp_batch_button(label, selection.len()),
        drop_active: panel.drop_active(pane),
    }
}

impl SftpPanel {
    /// What a list is ordered by, and whether upwards.
    pub open spec fn sort_of(&self, pane: SftpPane) -> (SftpSortKey, bool) {
        match pane {
            SftpPane::Local => self.local_sort,
            SftpPane::Remote => self.remote_sort,
        }
    }
}

/// What an item of an entry's menu does.
#[derive(Debug, Clone, Copy, PartialEq, Eq, Structural)]
pub enum SftpAction {
    Open,
    Download,
    Upload,
    Rename,
    Delete,
}

/// An item of an entry's menu.
pub struct SftpMenuItem {
    pub label: &'static str,
    pub action: SftpAction,
    pub destructive: bool,
    /// Whether a line is drawn above it.
    pub divided: bool,
}

/// What an action is called in the menu.
pub open spec fn action_label(action: SftpAction) -> Seq<char> {
    match action {
        SftpAction::Open => "打开"@,
        SftpAction::Download => "下载 ↓"@,
        SftpAction::Upload => "上传 ↑"@,
        SftpAction::Rename => "重命名"@,
        SftpAction::Delete => "删除"@,
    }
}

/// What the menu of an entry offers, from the top.
pub open spec fn menu_actions(pane: SftpPane, is_dir: bool) -> Seq<SftpAction> {
    let send = match pane {
        SftpPane::Remote => SftpAction::Download,
        SftpPane::Local => SftpAction::Upload,
    };
    if is_dir {
        seq![SftpAction::Open, send, SftpAction::Rename, SftpAction::Delete]
    } else {
        seq![send, SftpAction::Rename, SftpAction::Delete]
    }
}

fn menu_item(action: SftpAction) -> (r: SftpMenuItem)
    ensures
        r.action == action,
        r.label@ == action_label(action),
        r.destructive == (action == SftpAction::Delete),
        r.divided == (action == SftpAction::Delete),
{
    let label: &'static str = match action {
        SftpAction::Open => "打开",
        SftpAction::Download => "下载 ↓",
        SftpAction::Upload => "上传 ↑",
        SftpAction::Rename => "重命名",
        SftpAction::Delete => "删除",
    };
    let last: bool = action == SftpAction::Delete;
    SftpMenuItem { label, action, destructive: last, divided: last }
}

/// The menu of an entry. Only deleting destroys something, and it stands apart.
pub fn sftp_context_menu_card(pane: SftpPane, is_dir: bool) -> (r: Vec<SftpMenuItem>)
    ensures
        r@.map_values(|item: SftpMenuItem| item.action) == menu_actions(pane, is_dir),
        forall|i: int|
            0 <= i < r@.len() ==> (#[trigger] r@[i]).label@ == action_label(r@[i].action)
                && r@[i].destructive == (r@[i].action == SftpAction::Delete) && r@[i].divided == (
            r@[i].action == SftpAction::Delete),
{
    let mut items: Vec<SftpMenuItem> = Vec::new();
    if is_dir {
        items.push(menu_item(SftpAction::Open));
    }
    items.push(
        menu_item(
            match pane {
                SftpPane::Remote => SftpAction::Download,
                SftpPane::Local => SftpAction::Upload,
            },
        ),
    );
    items.push(menu_item(SftpAction::Rename));
    items.push(menu_item(SftpAction::Delete));
    assert(items@.map_values(|item: SftpMenuItem| item.action) =~= menu_actions(pane, is_dir));
    items
}

// Laws.

/// The menu of an entry offers to send it to the other side, to rename it and to delete
/// it, and to open it where it is a folder.
pub proof fn law_an_entry_can_be_sent_to_the_other_side(is_dir: bool)
    ensures
        menu_actions(SftpPane::Local, is_dir).contains(SftpAction::Upload),
        !menu_actions(SftpPane::Local, is_dir).contains(SftpAction::Download),
        menu_actions(SftpPane::Remote, is_dir).contains(SftpAction::Download),
        !menu_actions(SftpPane::Remote, is_dir).contains(SftpAction::Upload),
        forall|pane: SftpPane|
            {
                &&& (#[trigger] menu_actions(pane, is_dir)).contains(SftpAction::Open) == is_dir
                &&& menu_actions(pane, is_dir).contains(SftpAction::Rename)
                &&& menu_actions(pane, is_dir).contains(SftpAction::Delete)
            },
{
    assert forall|pane: SftpPane|
        {
            &&& (#[trigger] menu_actions(pane, is_dir)).contains(SftpAction::Open) == is_dir
            &&& menu_actions(pane, is_dir).contains(SftpAction::Rename)
            &&& menu_actions(pane, is_dir).contains(SftpAction::Delete)
            &&& menu_actions(pane, is_dir).contains(SftpAction::Upload) == (pane
                == SftpPane::Local)
            &&& menu_actions(pane, is_dir).contains(SftpAction::Download) == (pane
                == SftpPane::Remote)
        } by {
        let list = menu_actions(pane, is_dir);
        if is_dir {
            assert(list[0] == SftpAction::Open);
            assert(list[1] == SftpAction::Upload || list[1] == SftpAction::Download);
            assert(list[2] == SftpAction::Rename);
            assert(list[3] == SftpAction::Delete);
        } else {
            assert(list[0] == SftpAction::Upload || list[0] == SftpAction::Download);
            assert(list[1] == SftpAction::Rename);
            assert(list[2] == SftpAction::Delete);
        }
    }
    assert(menu_actions(SftpPane::Local, is_dir).len() > 0);
    assert(menu_actions(SftpPane::Remote, is_dir).len() > 0);
}

/// A drag that starts on one of several selected entries carries them all; any other
/// carries the one entry, and without a drag nothing is carried.
pub proof fn law_a_drag_carries_the_selection(panel: &SftpPanel)
    ensures
        panel.drag is None ==> panel.carried() == 0,
        panel.drag matches Some(drag) ==> {
            let selection = match drag.pane {
                SftpPane::Local => texts(panel.local_selected@),
                SftpPane::Remote => texts(panel.remote_selected@),
            };
            &&& selection.contains(drag.name@) ==> panel.carried() == selection.len()
            &&& !selection.contains(drag.name@) ==> panel.carried() == 1
        },
{
}

} // verus!

//! Folders on the move, and sessions and folders that are made and deleted.

use vstd::prelude::*;
use vstd::string::*;

use crate::catalog::{Catalog, NewProfile};
use crate::form::{active_profile_group, ProfileForm};
use crate::grid::ProfileDrag;
use crate::groups::{
    add_group, added, first_free, folders_moved, next_group_name, next_profile_name, profile_names,
    remove_group, reordered_folders, shown_folders, sidebar_group_names, without,
};
use crate::profile::{found_at, AuthMethod, ConnectionProfile, ProfileId, Protocol};
use crate::text::{owned, texts, trimmed};

verus! {

/// A folder that is being dragged.
pub struct GroupDrag {
    pub dragged: Option<String>,
    /// The pointer has moved far enough for this to be no click.
    pub active: bool,
    /// The folder that it was last over.
    pub over: Option<String>,
}

/// What the end of a drag of a folder comes to.
pub enum GroupDragEnd {
    Nothing,
    /// It was a click: the folder is folded or unfolded.
    Toggle(String),
    /// The first is put beside the second.
    Move(String, String),
}

impl GroupDrag {
    /// Whether nothing is dragged any more.
    pub open spec fn ended(&self) -> bool {
        self.dragged is None && !self.active && self.over is None
    }

    /// A folder is let go over the heading of another. Without a drag nothing
    /// happens; one that never moved was a click.
    pub fn finish_group_drag_on(&mut self, target: String) -> (r: GroupDragEnd)
        ensures
            match old(self).dragged {
                None => r is Nothing && *final(self) == *old(self),
                Some(source) => {
                    &&& final(self).ended()
                    &&& r == if old(self).active {
                        GroupDragEnd::Move(source, target)
                    } else {
                        GroupDragEnd::Toggle(source)
                    }
                },
            },
    {
        match self.dragged.take() {
            None => GroupDragEnd::Nothing,
            Some(source) => {
                let active: bool = self.active;
                self.active = false;
                self.over = None;
                if active {
                    GroupDragEnd::Move(source, target)
                } else {
                    GroupDragEnd::Toggle(source)
                }
            },
        }
    }

    /// A folder is let go over no heading: it goes beside the one that it was last
    /// over, where it was over any.
    pub fn cancel_group_drag(&mut self) -> (r: GroupDragEnd)
        ensures
            match old(self).dragged {
                None => r is Nothing && *final(self) == *old(self),
                Some(source) => {
                    &&& final(self).ended()
                    &&& r == if !old(self).active {
                        GroupDragEnd::Toggle(source)
                    } else {
                        match old(self).over {
                            Some(target) => GroupDragEnd::Move(source, target),
                            None => GroupDragEnd::Nothing,
                        }
                    }
                },
            },
    {
        match self.dragged.take() {
            None => GroupDragEnd::Nothing,
            Some(source) => {
                let active: bool = self.active;
                let over: Option<String> = self.over.take();
                self.active = false;
                if !active {
                    return GroupDragEnd::Toggle(source);
                }
                match over {
                    Some(target) => GroupDragEnd::Move(source, target),
                    None => GroupDragEnd::Nothing,
                }
            },
        }
    }
}

/// Puts a folder beside another in the order that the tree shows, which from then on
/// is the arranged one.
pub fn commit_group_reorder(catalog: &mut Catalog, source: &str, target: &str)
    ensures
        final(catalog).profiles == old(catalog).profiles,
        texts(final(catalog).groups@) == folders_moved(
            shown_folders(texts(old(catalog).groups@), old(catalog).profiles@),
            source@,
            target@,
        ),
{
    let order: Vec<String> = sidebar_group_names(&catalog.groups, &catalog.profiles);
    catalog.groups = reordered_folders(order, source, target);
}

/// Ends a drag of a session over a folder: says which session goes into it.
pub fn drop_profile_on_group(drag: &mut ProfileDrag, group_drop_target: &mut Option<String>) -> (r:
    Option<ProfileId>)
    ensures
        r == old(drag).dragged,
        final(drag).dragged is None,
        final(drag).drop is None,
        final(drag).active == old(drag).active,
        final(drag).from_grid == old(drag).from_grid,
        *final(group_drop_target) is None,
{
    drag.drop = None;
    *group_drop_target = None;
    drag.dragged.take()
}

/// A folder that a session was put into is there and unfolded.
pub fn group_received(groups: &mut Vec<String>, collapsed: &mut Vec<String>, group: &str)
    ensures
        texts(final(groups)@) == added(texts(old(groups)@), group@),
        texts(final(collapsed)@) == without(texts(old(collapsed)@), group@),
{
    add_group(groups, group);
    remove_group(collapsed, group);
}

/// The session that a new one starts as, in the group of the form.
pub fn new_profile_draft(form: &ProfileForm, profiles: &Vec<ConnectionProfile>) -> (r: NewProfile)
    requires
        profiles@.len() <= (usize::MAX - 1) / 2,
    ensures
        r.group@ == trimmed(form.group@),
        first_free("new-session-"@, profile_names(profiles@), r.name@),
        r.host@ == "127.0.0.1"@,
        r.port == 22,
        r.username@ == "root"@,
        r.auth_method == AuthMethod::Password,
        r.identity_file@.len() == 0,
        r.protocol == Protocol::Ssh,
{
    NewProfile {
        group: active_profile_group(form),
        name: next_profile_name(profiles),
        host: owned("127.0.0.1"),
        port: 22,
        username: owned("root"),
        auth_method: AuthMethod::Password,
        identity_file: String::new(),
        protocol: Protocol::Ssh,
    }
}

/// Makes a folder under the first free name, unfolded and in the form, and says its
/// name.
pub fn new_group_draft(
    groups: &mut Vec<String>,
    collapsed: &mut Vec<String>,
    form: &mut ProfileForm,
) -> (r: String)
    requires
        old(groups)@.len() <= (usize::MAX - 1) / 2,
    ensures
        first_free("group-"@, texts(old(groups)@), r@),
        texts(final(groups)@) == added(texts(old(groups)@), r@),
        texts(final(collapsed)@) == without(texts(old(collapsed)@), r@),
        final(form).group@ == r@,
        *final(form) == (ProfileForm { group: final(form).group, ..*old(form) }),
{
    let name: String = next_group_name(groups);
    group_received(groups, collapsed, name.as_str());
    form.group = owned(name.as_str());
    name
}

/// What the deletion of the selected session comes to.
pub enum Deletion {
    /// None was selected.
    NoSelection,
    /// There is no such session.
    Unknown,
    /// The session went; this one is selected now, or a new one is begun.
    Deleted { id: ProfileId, selected: Option<ProfileId> },
}

/// Deletes the selected session; the first that is left is selected instead.
pub fn delete_selected_profile(catalog: &mut Catalog, selected: Option<ProfileId>) -> (r: Deletion)
    requires
        old(catalog).wf(),
    ensures
        final(catalog).wf(),
        final(catalog).groups == old(catalog).groups,
        match selected {
            None => r is NoSelection && final(catalog).profiles@ == old(catalog).profiles@,
            Some(id) => match found_at(old(catalog).profiles@, id) {
                None => r is Unknown && final(catalog).profiles@ == old(catalog).profiles@,
                Some(k) => {
                    &&& final(catalog).profiles@ == old(catalog).profiles@.remove(k)
                    &&& r == (Deletion::Deleted {
                        id,
                        selected: if final(catalog).profiles@.len() > 0 {
                            Some(final(catalog).profiles@[0].id)
                        } else {
                            None
                        },
                    })
                },
            },
        },
{
    match selected {
        None => Deletion::NoSelection,
        Some(id) => {
            if !catalog.delete_profile(id) {
                return Deletion::Unknown;
            }
            let next: Option<ProfileId> = if catalog.profiles.len() > 0 {
                Some(catalog.profiles[0].id)
            } else {
                None
            };
            Deletion::Deleted { id, selected: next }
        },
    }
}

/// The editor that stays open once another session is selected: none but that
/// session's own.
pub fn close_profile_editor_if_other(editor: Option<ProfileId>, selected: ProfileId) -> (r: Option<
    ProfileId,
>)
    ensures
        r == if editor == Some(selected) {
            editor
        } else {
            None
        },
{
    match editor {
        Some(id) => if id == selected {
            editor
        } else {
            None
        },
        None => None,
    }
}

/// A drag that ended has left nothing behind.
pub proof fn law_a_drag_that_ended_leaves_nothing(drag: &GroupDrag)
    requires
        drag.ended(),
    ensures
        drag.dragged is None,
        !drag.active,
        drag.over is None,
{
}

} // verus!

use adit_ui::arrange::{
    commit_group_reorder, delete_selected_profile, drop_profile_on_group, group_received, Deletion,
    GroupDrag, GroupDragEnd,
};
use adit_ui::catalog::Catalog;
use adit_ui::grid::{
    band_slots, grid_ids, grid_ordered_profiles, move_beside, remember_recent_host, reorder_grid,
    retarget_card_slots, ProfileDrag, ProfileDrop, ProfileDropPosition,
};
use adit_ui::profile::{
    tree_order, AuthMethod, ConnectionProfile, Environment, ProfileId, Protocol,
};
use adit_ui::tree::{
    drag_can_end, drag_source, finish_profile_drag, place_ungrouped_at, profile_drop_position, row_drop_lines,
    top_level_entries, DragCommit, TopKind,
};

fn profile(id: u64, group: &str, name: &str, host: &str) -> ConnectionProfile {
    ConnectionProfile {
        id: ProfileId(id),
        group: String::from(group),
        name: String::from(name),
        host: String::from(host),
        port: 22,
        username: String::from("root"),
        auth_method: AuthMethod::Auto,
        identity_file: String::new(),
        protocol: Protocol::Ssh,
        icon: String::new(),
        startup_command: String::new(),
        jumps: Vec::new(),
        terminal_type: String::new(),
        environment: Environment::Unset,
        accent_color: None,
        label: None,
        sort_order: 0,
        tunnels: Vec::new(),
    }
}

/// The parts of the window that a drag touches.
struct Desk {
    catalog: Catalog,
    grid_order: Vec<ProfileId>,
    drag: ProfileDrag,
}

fn desk() -> Desk {
    Desk {
        catalog: Catalog {
            profiles: vec![
                profile(1, "g", "a", "10.0.0.1"),
                profile(2, "g", "b", "10.0.0.2"),
                profile(3, "g", "c", "10.0.0.3"),
            ],
            groups: vec![String::from("g")],
        },
        grid_order: Vec::new(),
        drag: ProfileDrag { dragged: None, active: false, from_grid: false, drop: None },
    }
}

impl Desk {
    fn press(&mut self, from_grid: bool, id: u64) {
        self.drag = ProfileDrag {
            dragged: Some(ProfileId(id)),
            active: false,
            from_grid,
            drop: None,
        };
    }

    fn over(&mut self, id: u64, position: ProfileDropPosition) {
        self.drag.active = true;
        self.drag.drop = Some(ProfileDrop::Beside { profile_id: ProfileId(id), position });
    }

    fn release(&mut self) -> DragCommit {
        let commit = finish_profile_drag(
            &mut self.drag,
            &self.catalog.profiles,
            &self.catalog.groups,
            &mut self.grid_order,
        );
        let kept = match &commit {
            DragCommit::Beside { source, target, position } => DragCommit::Beside {
                source: *source,
                target: *target,
                position: *position,
            },
            DragCommit::TopLevel { source, order } => {
                DragCommit::TopLevel { source: *source, order: *order }
            }
            DragCommit::Grid { source } => DragCommit::Grid { source: *source },
            DragCommit::IntoGroup { source, group } => {
                DragCommit::IntoGroup { source: *source, group: group.clone() }
            }
            DragCommit::Settle => DragCommit::Settle,
            DragCommit::Ignored => DragCommit::Ignored,
            DragCommit::Nothing => DragCommit::Nothing,
        };
        assert!(self.catalog.apply_drag(commit));
        kept
    }

    fn drive(&mut self, from_grid: bool, source: u64, target: u64) {
        self.press(from_grid, source);
        self.over(target, ProfileDropPosition::Before);
        self.over(target, ProfileDropPosition::After);
        self.release();
        self.release();
    }

    fn sidebar_names(&self) -> Vec<&str> {
        tree_order(&self.catalog.profiles)
            .into_iter()
            .map(|at| self.catalog.profiles[at].name.as_str())
            .collect()
    }

    fn grid_names(&self) -> Vec<&str> {
        grid_ordered_profiles(&self.catalog.profiles, &self.grid_order)
            .into_iter()
            .map(|at| self.catalog.profiles[at].name.as_str())
            .collect()
    }

    fn slot_shape(&self) -> String {
        let hosts = grid_ids(&self.catalog.profiles, &self.grid_order);
        band_slots(&hosts, &self.drag)
            .into_iter()
            .map(|id| ["", "a", "b", "c"][id.0 as usize])
            .collect()
    }
}

#[test]
fn a_grid_drag_moves_the_grid_and_not_the_tree() {
    let mut desk = desk();
    desk.drive(true, 1, 3);
    assert_eq!(desk.grid_names(), ["b", "c", "a"], "the grid must reorder");
    assert_eq!(
        desk.sidebar_names(),
        ["a", "b", "c"],
        "the tree must not move when the drag started on a card"
    );
}

#[test]
fn a_tree_drag_moves_the_tree_and_not_the_grid() {
    let mut desk = desk();
    desk.grid_order = vec![ProfileId(1), ProfileId(2), ProfileId(3)];
    desk.drive(false, 1, 3);
    assert_eq!(desk.sidebar_names(), ["b", "c", "a"], "the tree must reorder");
    assert_eq!(desk.grid_names(), ["a", "b", "c"]);
}

#[test]
fn a_drag_previews_the_arrangement_it_will_produce() {
    let mut desk = desk();
    assert_eq!(desk.slot_shape(), "abc", "at rest");
    desk.press(true, 1);
    desk.over(3, ProfileDropPosition::Before);
    assert_eq!(desk.slot_shape(), "bac");
    desk.over(3, ProfileDropPosition::After);
    assert_eq!(desk.slot_shape(), "bca");
    desk.release();
    assert_eq!(desk.slot_shape(), "bca");
}

#[test]
fn a_tree_drag_does_not_disturb_the_grid_layout() {
    let mut desk = desk();
    desk.press(false, 1);
    desk.over(3, ProfileDropPosition::Before);
    assert_eq!(desk.slot_shape(), "abc", "a tree drag must not reshuffle the grid");
    desk.release();
}

#[test]
fn sidebar_drop_zones_do_not_commit_a_grid_drag() {
    let mut desk = desk();
    desk.press(true, 1);
    desk.drag.active = true;
    desk.drag.drop = Some(ProfileDrop::TopLevel);
    assert!(matches!(desk.release(), DragCommit::Ignored));
    assert_eq!(
        desk.sidebar_names(),
        ["a", "b", "c"],
        "a grid drag must never commit through the tree's own drop zones"
    );
    assert_eq!(
        desk.catalog.profiles.iter().filter(|p| p.group == "g").count(),
        3,
        "and it must not ungroup anything"
    );
}

#[test]
fn a_click_moves_nothing() {
    let mut desk = desk();
    desk.press(true, 1);
    assert!(matches!(desk.release(), DragCommit::Settle));
    assert!(matches!(desk.release(), DragCommit::Nothing));
    assert_eq!(desk.grid_names(), ["a", "b", "c"]);
    assert_eq!(desk.sidebar_names(), ["a", "b", "c"]);
}

#[test]
fn a_session_dropped_on_a_folder_moves_into_it() {
    let mut desk = desk();
    desk.catalog.groups.push(String::from("h"));
    desk.press(false, 2);
    desk.drag.active = true;
    desk.drag.drop = Some(ProfileDrop::IntoGroup(String::from("h")));
    assert!(matches!(desk.release(), DragCommit::IntoGroup { .. }));
    assert_eq!(desk.catalog.profiles[1].group, "h");
    assert_eq!(desk.catalog.profiles[0].group, "g");
}

#[test]
fn a_session_dropped_at_the_top_leaves_its_folder() {
    let mut desk = desk();
    desk.press(false, 2);
    desk.drag.active = true;
    desk.drag.drop = Some(ProfileDrop::TopLevel);
    assert!(matches!(desk.release(), DragCommit::TopLevel { .. }));
    assert_eq!(desk.catalog.profiles[1].group, "");
    let entries = top_level_entries(&desk.catalog.profiles, 1, None);
    assert_eq!(entries[0].kind, TopKind::Session(ProfileId(2)));
    assert_eq!(entries[1].kind, TopKind::Folder(0));
}

#[test]
fn an_entry_is_placed_between_its_neighbours() {
    let profiles = vec![profile(1, "", "a", "h")];
    let entries = top_level_entries(&profiles, 2, None);
    for index in 0..=entries.len() {
        let key = place_ungrouped_at(&entries, index);
        if index > 0 {
            assert!(entries[index - 1].key <= key);
        }
        if index < entries.len() {
            assert!(key <= entries[index].key);
        }
    }
}

#[test]
fn the_upper_half_of_a_row_is_before_it() {
    assert_eq!(profile_drop_position(0), ProfileDropPosition::Before);
    assert_eq!(profile_drop_position(1000), ProfileDropPosition::After);
}

#[test]
fn only_a_tree_drag_draws_a_line_in_the_tree() {
    let mut desk = desk();
    desk.press(false, 1);
    desk.over(3, ProfileDropPosition::Before);
    assert_eq!(row_drop_lines(&desk.drag, ProfileId(3)), (true, false));
    assert_eq!(row_drop_lines(&desk.drag, ProfileId(2)), (false, false));
    desk.press(true, 1);
    desk.over(3, ProfileDropPosition::Before);
    assert_eq!(row_drop_lines(&desk.drag, ProfileId(3)), (false, false));
}

#[test]
fn moving_beside_an_unknown_card_is_refused() {
    let list = vec![ProfileId(1), ProfileId(2), ProfileId(3)];
    assert_eq!(
        move_beside(&list, ProfileId(3), ProfileId(1), ProfileDropPosition::Before),
        Some(vec![ProfileId(3), ProfileId(1), ProfileId(2)])
    );
    assert_eq!(move_beside(&list, ProfileId(3), ProfileId(9), ProfileDropPosition::After), None);
}

#[test]
fn a_grid_holds_every_session_once() {
    let desk = desk();
    let mut order = vec![ProfileId(9), ProfileId(3)];
    let shown = grid_ids(&desk.catalog.profiles, &order);
    assert_eq!(shown, vec![ProfileId(3), ProfileId(1), ProfileId(2)]);
    assert!(reorder_grid(
        &desk.catalog.profiles,
        &mut order,
        ProfileId(3),
        ProfileId(2),
        ProfileDropPosition::After
    ));
    assert_eq!(
        grid_ids(&desk.catalog.profiles, &order),
        vec![ProfileId(1), ProfileId(2), ProfileId(3)]
    );
}

#[test]
fn cards_glide_to_the_slots_of_the_preview() {
    let mut desk = desk();
    desk.press(true, 1);
    desk.over(3, ProfileDropPosition::After);
    assert_eq!(
        retarget_card_slots(&desk.catalog.profiles, &desk.grid_order, &desk.drag),
        vec![(ProfileId(2), 0), (ProfileId(3), 1), (ProfileId(1), 2)]
    );
}

#[test]
fn recent_hosts_are_few_and_the_last_comes_first() {
    let mut recent = Vec::new();
    for id in 0..20 {
        remember_recent_host(&mut recent, ProfileId(id));
    }
    assert_eq!(recent[0], ProfileId(19));
    let many = recent.len();
    remember_recent_host(&mut recent, ProfileId(18));
    assert_eq!(recent[0], ProfileId(18));
    assert_eq!(recent[1], ProfileId(19));
    assert_eq!(recent.len(), many);
}

#[test]
fn a_folder_drag_ends_as_a_click_or_as_a_move() {
    let mut click = GroupDrag { dragged: Some(String::from("g")), active: false, over: None };
    assert!(matches!(
        click.finish_group_drag_on(String::from("g")),
        GroupDragEnd::Toggle(group) if group == "g"
    ));
    let mut moved = GroupDrag {
        dragged: Some(String::from("g")),
        active: true,
        over: Some(String::from("h")),
    };
    assert!(matches!(
        moved.finish_group_drag_on(String::from("h")),
        GroupDragEnd::Move(from, to) if from == "g" && to == "h"
    ));
    assert!(matches!(moved.cancel_group_drag(), GroupDragEnd::Nothing));
}

#[test]
fn folders_are_put_in_the_order_they_were_dropped_in() {
    let mut desk = desk();
    desk.catalog.groups = vec![String::from("g"), String::from("h"), String::from("i")];
    commit_group_reorder(&mut desk.catalog, "i", "g");
    assert_eq!(desk.catalog.groups, ["i", "g", "h"]);
}

#[test]
fn a_folder_that_receives_a_session_opens() {
    let mut drag = ProfileDrag {
        dragged: Some(ProfileId(1)),
        active: true,
        from_grid: false,
        drop: None,
    };
    let mut target = Some(String::from("h"));
    assert_eq!(drop_profile_on_group(&mut drag, &mut target), Some(ProfileId(1)));
    assert!(target.is_none() && drag.dragged.is_none());
    let mut groups = vec![String::from("g")];
    let mut collapsed = vec![String::from("h")];
    group_received(&mut groups, &mut collapsed, "h");
    assert_eq!(groups, ["g", "h"]);
    assert!(collapsed.is_empty());
}

#[test]
fn deleting_selects_another_session() {
    let mut desk = desk();
    assert!(matches!(delete_selected_profile(&mut desk.catalog, None), Deletion::NoSelection));
    assert!(matches!(
        delete_selected_profile(&mut desk.catalog, Some(ProfileId(9))),
        Deletion::Unknown
    ));
    assert!(matches!(
        delete_selected_profile(&mut desk.catalog, Some(ProfileId(1))),
        Deletion::Deleted { id: ProfileId(1), selected: Some(_) }
    ));
    assert_eq!(desk.catalog.profiles.len(), 2);
    assert!(desk.catalog.delete_group("g").len() == 2);
    assert!(desk.catalog.profiles.is_empty());
}

#[test]
fn a_drag_selects_what_it_moved() {
    let source = ProfileId(4);
    assert_eq!(drag_source(&DragCommit::Grid { source }), Some((source, false)));
    let group = String::from("g");
    assert_eq!(drag_source(&DragCommit::IntoGroup { source, group }), Some((source, true)));
    assert_eq!(drag_source(&DragCommit::Settle), None);
    assert_eq!(drag_source(&DragCommit::Ignored), None);
}

#[test]
fn only_a_place_at_the_top_level_asks_for_room() {
    let mut desk = desk();
    let many: Vec<String> = (0..22_000).map(|n| format!("{n}")).collect();
    desk.catalog.groups = many;
    desk.catalog.profiles.push(profile(4, "", "d", "10.0.0.4"));
    let can = |desk: &Desk| drag_can_end(&desk.drag, &desk.catalog.profiles, &desk.catalog.groups);
    assert!(can(&desk));
    // A drag of the grid, one inside a folder and one onto a folder all end.
    desk.press(true, 1);
    desk.over(4, ProfileDropPosition::After);
    assert!(can(&desk));
    assert_eq!(drag_source(&desk.release()), Some((ProfileId(1), false)));
    desk.press(false, 1);
    desk.over(2, ProfileDropPosition::After);
    assert!(can(&desk));
    desk.drag.drop = Some(ProfileDrop::IntoGroup(String::from("g")));
    assert!(can(&desk));
    // Beside a session of the top level the folders' own keys are needed.
    desk.over(4, ProfileDropPosition::After);
    assert!(!can(&desk));
    desk.drag.drop = Some(ProfileDrop::TopLevel);
    assert!(!can(&desk));
    desk.catalog.groups.truncate(2);
    assert!(can(&desk));
    desk.catalog.profiles[3].sort_order = i32::MIN;
    assert!(!can(&desk));
}

#[test]
fn the_grid_and_the_tree_keep_their_drags_apart() {
    let mut desk = desk();
    desk.press(true, 1);
    assert!(!desk.drag.over_profile(ProfileId(2), ProfileDropPosition::After, false));
    assert!(!desk.drag.active && desk.drag.drop.is_none());
    assert!(!desk.drag.over_profile(ProfileId(1), ProfileDropPosition::After, true));
    assert!(desk.drag.over_profile(ProfileId(2), ProfileDropPosition::After, true));
    assert!(desk.drag.active && desk.drag.drop.is_some());
}

#[test]
fn sessions_have_identities_of_their_own() {
    let mut desk = desk();
    assert!(desk.catalog.ids_are_distinct());
    desk.catalog.profiles.push(profile(2, "", "d", "10.0.0.4"));
    assert!(!desk.catalog.ids_are_distinct());
}

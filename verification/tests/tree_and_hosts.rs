use adit_ui::grid::{ProfileDrag, ProfileDrop, ProfileDropPosition};
use adit_ui::hosts::{
    band_rows, connected_profiles, host_band, host_card, host_card_colors, host_columns, host_icon,
    host_icons, host_row, host_section_header, hosts_view, protocol_glyph, slot_place, BandKind, HostsState, MainView,
    SessionSummary,
};
use adit_ui::panes::SessionId;
use adit_ui::profile::{
    find_profile, lowered_contains, profile_matches_filter, profile_sidebar_order, AuthMethod,
    ConnectionProfile, Environment, ProfileId, Protocol,
};
use adit_ui::sidebar::{
    avatar_initials, group_context_menu_card, profile_context_menu, session_tree,
    tab_context_menu, tree_has_room, ContextAction, TreeRow, TreeState,
};
use adit_ui::style::{avatar_color, rgb, tone_color, SessionStatus, Tone};

fn profile(id: u64, group: &str, name: &str) -> ConnectionProfile {
    ConnectionProfile {
        id: ProfileId(id),
        group: String::from(group),
        name: String::from(name),
        host: String::from("10.0.0.1"),
        port: 22,
        username: String::from("root"),
        auth_method: AuthMethod::Auto,
        identity_file: String::new(),
        protocol: Protocol::Ssh,
        icon: String::new(),
        startup_command: String::new(),
        jumps: Vec::new(),
        terminal_type: String::new(),
        environment: Environment::Unset,
        accent_color: None,
        label: None,
        sort_order: 0,
        tunnels: Vec::new(),
    }
}

fn still() -> ProfileDrag {
    ProfileDrag { dragged: None, active: false, from_grid: false, drop: None }
}

#[test]
fn avatar_initials_takes_up_to_two_tokens() {
    assert_eq!(avatar_initials("prod-web-01"), "PW");
    assert_eq!(avatar_initials("local lab"), "LL");
    assert_eq!(avatar_initials("redis"), "R");
    assert_eq!(avatar_initials(""), "?");
}

#[test]
fn an_avatar_keeps_its_colour() {
    assert_eq!(avatar_color("redis"), avatar_color("redis"));
    assert_eq!(avatar_initials("ß"), "SS");
}

#[test]
fn a_filter_looks_into_every_field() {
    let web = profile(1, "Prod", "Web-01");
    assert!(profile_matches_filter(&web, "web"));
    assert!(profile_matches_filter(&web, "10.0.0"));
    assert!(profile_matches_filter(&web, "root@"));
    assert!(!profile_matches_filter(&web, "db"));
    assert!(profile_matches_filter(&web, ""));
    // The filter comes lowered already, and only ASCII letters are lowered.
    assert!(!profile_matches_filter(&web, "ROOT"));
    assert!(lowered_contains("STRASSE", "rass"));
    assert!(!lowered_contains("ÄÖ", "äö"));
}

#[test]
fn sessions_stand_by_order_and_name() {
    let mut a = profile(1, "", "a");
    let b = profile(2, "", "b");
    assert_eq!(profile_sidebar_order(&a, &b), std::cmp::Ordering::Less);
    assert_eq!(profile_sidebar_order(&b, &a), std::cmp::Ordering::Greater);
    a.sort_order = 1;
    assert_eq!(profile_sidebar_order(&a, &b), std::cmp::Ordering::Greater);
    assert_eq!(a.endpoint(), "root@10.0.0.1:22");
    assert_eq!(find_profile(&vec![a, b], ProfileId(2)), Some(1));
}

fn tree_state() -> TreeState {
    TreeState {
        filter: String::new(),
        drag: still(),
        selected_profile: Some(ProfileId(1)),
        hovered_profile: None,
        editing_profile: None,
        editing_group: None,
        collapsed_groups: Vec::new(),
        group_drop_target: None,
        group_drag_active: false,
        dragged_group: None,
        group_drop: None,
    }
}

#[test]
fn a_tree_shows_folders_and_their_sessions() {
    let profiles = vec![profile(1, "g", "a"), profile(2, "g", "b")];
    let groups = vec![String::from("g")];
    assert!(tree_has_room(&profiles, &groups));
    let crowd: Vec<String> = (0..22_000).map(|n| format!("{n}")).collect();
    assert!(!tree_has_room(&profiles, &crowd));
    let shown = session_tree(&tree_state(), &profiles, &groups);
    assert_eq!(shown.folders, ["g"]);
    assert_eq!(
        shown.rows,
        vec![
            TreeRow::Folder { folder: 0, collapsed: false, count: 2, drop_target: false },
            TreeRow::Session { id: ProfileId(1), selected: true, hovered: false },
            TreeRow::Session { id: ProfileId(2), selected: false, hovered: false },
        ]
    );
    let mut folded = tree_state();
    folded.collapsed_groups.push(String::from("g"));
    let shown = session_tree(&folded, &profiles, &groups);
    assert_eq!(
        shown.rows,
        vec![TreeRow::Folder { folder: 0, collapsed: true, count: 2, drop_target: false }]
    );
}

#[test]
fn a_tree_drag_offers_the_zones_at_both_ends() {
    let profiles = vec![profile(1, "g", "a")];
    let groups = vec![String::from("g")];
    let mut state = tree_state();
    state.drag = ProfileDrag {
        dragged: Some(ProfileId(1)),
        active: true,
        from_grid: false,
        drop: Some(ProfileDrop::TopLevel),
    };
    let shown = session_tree(&state, &profiles, &groups);
    assert_eq!(shown.rows.first(), Some(&TreeRow::TopZone { targeted: true }));
    assert_eq!(shown.rows.last(), Some(&TreeRow::BottomZone { targeted: false }));
}

#[test]
fn a_grid_drag_leaves_no_mark_in_the_tree() {
    let profiles = vec![profile(1, "g", "a"), profile(2, "g", "b")];
    let groups = vec![String::from("g")];
    let mut state = tree_state();
    state.drag = ProfileDrag {
        dragged: Some(ProfileId(1)),
        active: true,
        from_grid: true,
        drop: Some(ProfileDrop::Beside {
            profile_id: ProfileId(2),
            position: ProfileDropPosition::After,
        }),
    };
    let shown = session_tree(&state, &profiles, &groups);
    assert!(!shown.rows.contains(&TreeRow::DropLine));
}

#[test]
fn context_menus_offer_their_actions() {
    let actions = |list: Vec<adit_ui::sidebar::MenuEntry>| {
        list.iter().map(|entry| entry.action).collect::<Vec<_>>()
    };
    assert!(actions(profile_context_menu()).contains(&ContextAction::Delete));
    assert!(actions(group_context_menu_card(true)).contains(&ContextAction::ToggleFold));
    let dead = actions(tab_context_menu(Some(SessionStatus::Disconnected)));
    assert!(dead.contains(&ContextAction::Close));
}

fn session(id: u64, profile_id: u64, status: SessionStatus) -> SessionSummary {
    SessionSummary {
        id: SessionId(id),
        profile_id: ProfileId(profile_id),
        title: String::from("t"),
        endpoint: String::from("e"),
        status,
    }
}

#[test]
fn a_host_is_online_while_a_session_of_it_is_connected() {
    let sessions = vec![
        session(1, 7, SessionStatus::Connected),
        session(2, 7, SessionStatus::Connected),
        session(3, 8, SessionStatus::Connecting),
        session(4, 9, SessionStatus::Disconnected),
    ];
    let online = connected_profiles(&sessions);
    assert!(online.contains(&ProfileId(7)));
    assert!(!online.contains(&ProfileId(9)));
}

fn hosts_state() -> HostsState {
    HostsState {
        filter: String::new(),
        recent_hosts: vec![ProfileId(3)],
        collapsed_groups: Vec::new(),
        drag: still(),
        online: vec![ProfileId(1)],
    }
}

#[test]
fn every_host_stands_in_a_band() {
    let profiles = vec![profile(1, "g", "a"), profile(2, "g", "b"), profile(3, "", "c")];
    let shown = hosts_view(&hosts_state(), &profiles, &Vec::new());
    assert!(shown.message.is_none());
    for id in 1..=3 {
        assert!(shown.bands.iter().any(|band| band.slots.contains(&ProfileId(id))));
    }
    let of_g: Vec<_> =
        shown.bands.iter().filter(|b| b.kind == BandKind::Group && b.title == "g").collect();
    assert_eq!(of_g.len(), 1);
    assert_eq!(of_g[0].slots, vec![ProfileId(1), ProfileId(2)]);
    assert_eq!((of_g[0].count, of_g[0].up), (2, 1));
    assert!(shown.bands.iter().any(|b| b.kind == BandKind::Recent));
    assert!(shown.bands.iter().all(|b| b.icon.is_some() == (b.kind == BandKind::Recent)));
    assert_eq!((shown.groups[0].size.as_str(), shown.groups[0].arrow), ("2 台主机", "\u{25be}"));
}

#[test]
fn a_search_is_one_band() {
    let profiles = vec![profile(1, "g", "web"), profile(2, "", "db")];
    let mut state = hosts_state();
    state.filter = String::from("web");
    let shown = hosts_view(&state, &profiles, &Vec::new());
    assert_eq!(shown.bands.len(), 1);
    assert_eq!(shown.bands[0].kind, BandKind::Search);
    assert_eq!(shown.bands[0].slots, vec![ProfileId(1)]);
    state.filter = String::from("nothing");
    assert!(hosts_view(&state, &profiles, &Vec::new()).message.is_some());
    state.filter = String::new();
    assert!(hosts_view(&state, &Vec::new(), &Vec::new()).message.is_some());
}

#[test]
fn cards_fill_their_rows() {
    assert_eq!(band_rows(0, 3), 0);
    assert_eq!(band_rows(7, 3), 3);
    assert_eq!(slot_place(4, 7, 3), (1, 1));
    assert_eq!(host_columns(-5, MainView::Hosts), 1);
    assert!(host_columns(4000, MainView::Hosts) > host_columns(900, MainView::Hosts));
    let band = host_band(
        BandKind::Ungrouped,
        "x",
        &vec![ProfileId(1), ProfileId(2)],
        &vec![ProfileId(2)],
        &still(),
    );
    assert_eq!((band.count, band.up), (2, 1));
    assert!(host_section_header(2, 0).0.is_none());
}

#[test]
fn a_card_shows_its_own_colour() {
    let mut web = profile(1, "g", "web");
    let own = rgb(1, 2, 3);
    let card = host_card(&web, Some(own), &still(), true);
    assert!(card.online && !card.dragging);
    assert_eq!((card.name.as_str(), card.tile), ("web", own));
    let up = host_row(true, &web, Some(own), &still(), true);
    assert_eq!((up.dot, up.name.as_str()), (tone_color(true, Tone::Success), "web"));
    assert_eq!(up.subtitle, card.subtitle);
    let mut held = still();
    held.dragged = Some(ProfileId(1));
    let down = host_row(true, &web, Some(own), &held, false);
    assert_eq!((down.dot, down.background), (own, tone_color(true, Tone::PanelHover)));
    let colors = host_card_colors(true, &host_card(&web, None, &held, false));
    assert_eq!(colors.border, tone_color(true, Tone::Accent));
    assert_eq!(card.glyph, protocol_glyph(Protocol::Ssh));
    let icons = host_icons();
    web.icon = String::from(icons[1].key);
    assert_eq!(host_icon(&web.icon, Protocol::Ssh, None), (icons[1].glyph, icons[1].color));
}

#[test]
fn both_views_agree_on_folders() {
    let profiles = vec![profile(1, "g", "a"), profile(2, "h", "b"), profile(3, "g", "c")];
    let groups = vec![String::from("g"), String::from("h")];
    let order = vec![ProfileId(3), ProfileId(2)];
    let grid = hosts_view(&hosts_state(), &profiles, &order);
    let tree = session_tree(&tree_state(), &profiles, &groups);
    for (at, folder) in tree.folders.iter().enumerate() {
        let mut inside = Vec::new();
        let mut here = false;
        for row in &tree.rows {
            match row {
                TreeRow::Folder { folder, .. } => here = *folder == at,
                TreeRow::Session { id, .. } if here => inside.push(*id),
                _ => {}
            }
        }
        let mut band = grid.bands.iter().find(|b| b.title == *folder).unwrap().slots.clone();
        band.sort_by_key(|id| id.0);
        inside.sort_by_key(|id| id.0);
        assert_eq!(band, inside);
    }
}

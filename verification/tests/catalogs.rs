use adit_ui::arrange::{close_profile_editor_if_other, new_group_draft, new_profile_draft};
use adit_ui::catalog::{
    import_securecrt, import_ssh_config, relocate_config_dir, Catalog, ForeignSession,
    GroupRename, InlineRename, ProfileRename, Relocation, SshHost,
};
use adit_ui::form::{
    active_profile_group, form_endpoint, form_matches_selected_profile, load_selected_profile,
    save_profile_from_form, ProfileForm, SaveError, SecretAction,
};
use adit_ui::groups::{
    add_group, folder_reorder_lines, groups_from_catalog, next_group_name, next_profile_name,
    parse_port, remove_group, sidebar_group_names, toggle_group_collapsed,
};
use adit_ui::jumps::{jumps_to_spec, parse_jumps_checked};
use adit_ui::profile::{
    AuthMethod, ConnectionProfile, Environment, JumpHop, ProfileId, Protocol,
};

fn profile(id: u64, group: &str, name: &str) -> ConnectionProfile {
    ConnectionProfile {
        id: ProfileId(id),
        group: String::from(group),
        name: String::from(name),
        host: String::from("10.0.0.1"),
        port: 22,
        username: String::from("root"),
        auth_method: AuthMethod::Password,
        identity_file: String::new(),
        protocol: Protocol::Ssh,
        icon: String::new(),
        startup_command: String::new(),
        jumps: vec![JumpHop {
            user: String::from("me"),
            host: String::from("bastion"),
            port: 2222,
        }],
        terminal_type: String::new(),
        environment: Environment::Unset,
        accent_color: None,
        label: Some(String::from("blue")),
        sort_order: 0,
        tunnels: Vec::new(),
    }
}

fn catalog() -> Catalog {
    Catalog {
        profiles: vec![profile(1, "g", "a"), profile(2, "", "b")],
        groups: vec![String::from("g")],
    }
}

#[test]
fn a_chain_of_jumps_reads_back() {
    let chain = parse_jumps_checked("me@bastion:2222, 10.0.0.9;\nx").ok().unwrap();
    assert_eq!(chain.len(), 3);
    assert_eq!((chain[1].user.as_str(), chain[1].port), ("", 22));
    let written = jumps_to_spec(&chain);
    assert_eq!(written, "me@bastion:2222, 10.0.0.9:22, x:22");
    assert_eq!(jumps_to_spec(&parse_jumps_checked(&written).ok().unwrap()), written);
    // Colons and signs inside a user or a host do not keep a hop from reading back.
    for spec in ["a@b@host:22", "fe80::1:22"] {
        let hops = parse_jumps_checked(spec).ok().unwrap();
        assert_eq!(hops.len(), 1);
        assert_eq!(jumps_to_spec(&hops), spec);
    }
}

#[test]
fn a_bad_hop_is_named() {
    for bad in ["host:0", "host:99999", "host:x", "@:22"] {
        let message = parse_jumps_checked(&format!("ok, {bad}")).err().unwrap();
        assert!(message.contains(bad), "{message}");
    }
    assert_eq!(JumpHop::parse("h:22").map(|hop| hop.to_spec()), Some(String::from("h:22")));
    assert!(JumpHop::parse("").is_none());
}

#[test]
fn ports_are_numbers_a_port_can_have() {
    assert_eq!(parse_port(" 22 "), Some(22));
    assert_eq!(parse_port("0"), None);
    assert_eq!(parse_port("65535"), Some(65_535));
    assert_eq!(parse_port("65536"), None);
    assert_eq!(parse_port("ssh"), None);
}

#[test]
fn saving_an_untouched_form_changes_nothing() {
    let a = profile(1, "g", "a");
    let form = load_selected_profile(&a, &Some(String::from("pw")), &None);
    assert_eq!(form.password, "pw");
    assert_eq!(form.jumps, "me@bastion:2222");
    assert!(form_matches_selected_profile(&form, Some(&a)));
    assert!(!form_matches_selected_profile(&form, None));
    let save = save_profile_from_form(&form, Some(ProfileId(1))).ok().unwrap();
    assert_eq!(save.target, Some(ProfileId(1)));
    assert_eq!((&save.group, &save.name, &save.host), (&a.group, &a.name, &a.host));
    assert_eq!((&save.username, save.auth_method), (&a.username, a.auth_method));
    assert_eq!((&save.identity_file, save.protocol), (&a.identity_file, a.protocol));
    assert_eq!((&save.icon, &save.startup_command), (&a.icon, &a.startup_command));
    assert_eq!((&save.terminal_type, save.environment), (&a.terminal_type, a.environment));
    assert_eq!(save.port, 22);
    assert_eq!(jumps_to_spec(&save.jumps), "me@bastion:2222");
    assert_eq!(save.accent_color, None);
    assert_eq!(save.label, Some(String::from("blue")));
    assert!(matches!(save.password, SecretAction::Save(pw) if pw == "pw"));
}

fn typed(port: &str, jumps: &str) -> ProfileForm {
    let mut form = load_selected_profile(&profile(1, "g", "a"), &None, &None);
    form.port = String::from(port);
    form.jumps = String::from(jumps);
    form
}

#[test]
fn a_form_says_what_is_wrong_with_it() {
    assert!(matches!(
        save_profile_from_form(&typed("x", ""), None),
        Err(SaveError::BadPort)
    ));
    assert!(matches!(
        save_profile_from_form(&typed("x", "h:0"), None),
        Err(SaveError::BadPort)
    ));
    assert!(matches!(
        save_profile_from_form(&typed("22", "h:0"), None),
        Err(SaveError::BadJump(message)) if message.contains("h:0")
    ));
    let save = save_profile_from_form(&typed("22", ""), None).ok().unwrap();
    assert!(matches!(save.password, SecretAction::Delete));
    assert_eq!(form_endpoint(&typed("2200", "")), "root@10.0.0.1:2200");
    assert_eq!(active_profile_group(&typed("22", "")), "g");
}

#[test]
fn folders_are_listed_once() {
    let mut groups = vec![String::from("g")];
    add_group(&mut groups, "h");
    add_group(&mut groups, "h");
    assert_eq!(groups, ["g", "h"]);
    assert!(remove_group(&mut groups, "h"));
    assert!(!remove_group(&mut groups, "h"));
    assert_eq!(groups, ["g"]);
    let profiles = vec![profile(1, "z", "a"), profile(2, "g", "b"), profile(3, "", "c")];
    assert_eq!(sidebar_group_names(&groups, &profiles), ["g", "z"]);
    let kept = groups_from_catalog(vec![String::from("g"), String::from("g")], &profiles);
    assert!(kept.contains(&String::from("z")));
    assert_eq!(kept.iter().filter(|name| name.as_str() == "g").count(), 1);
}

#[test]
fn folding_twice_is_nothing() {
    let mut collapsed = vec![String::from("g")];
    toggle_group_collapsed(&mut collapsed, "h");
    assert!(collapsed.contains(&String::from("h")));
    toggle_group_collapsed(&mut collapsed, "h");
    assert_eq!(collapsed, ["g"]);
}

#[test]
fn new_names_are_free() {
    let groups = vec![String::from("group-2"), String::from("x")];
    let name = next_group_name(&groups);
    assert!(!groups.contains(&name));
    assert_eq!(name, "group-3");
    let profiles = vec![profile(1, "", "a")];
    assert!(next_profile_name(&profiles).ends_with("-2"));
}

#[test]
fn the_line_shows_where_a_folder_lands() {
    let folders = vec![String::from("a"), String::from("b"), String::from("c")];
    let (dragged, over) = (Some(String::from("a")), Some(String::from("c")));
    assert_eq!(folder_reorder_lines(true, &dragged, &over, &folders, "c"), (false, true));
    assert_eq!(folder_reorder_lines(true, &over, &dragged, &folders, "a"), (true, false));
    assert_eq!(folder_reorder_lines(false, &dragged, &over, &folders, "c"), (false, false));
}

#[test]
fn a_rename_is_checked() {
    let mut desk = catalog();
    let rename = |profile: Option<u64>, draft: &str| InlineRename {
        editing_profile: profile.map(ProfileId),
        profile_draft: String::from(draft),
        editing_group: None,
        group_draft: String::new(),
    };
    assert!(matches!(rename(None, "x").save_profile_rename(&desk), ProfileRename::NotEditing));
    assert!(matches!(rename(Some(1), " ").save_profile_rename(&desk), ProfileRename::EmptyName));
    assert!(matches!(rename(Some(1), "a").save_profile_rename(&desk), ProfileRename::Unchanged));
    assert!(matches!(
        rename(Some(1), " new ").save_profile_rename(&desk),
        ProfileRename::Rename { id: ProfileId(1), name } if name == "new"
    ));
    assert!(desk.rename_profile(ProfileId(1), "new"));
    assert_eq!(desk.profiles[0].name, "new");
    assert!(!desk.rename_profile(ProfileId(9), "new"));
}

#[test]
fn a_folder_rename_is_checked() {
    let mut desk = catalog();
    desk.groups.push(String::from("h"));
    let rename = |group: Option<&str>, draft: &str| InlineRename {
        editing_profile: None,
        profile_draft: String::new(),
        editing_group: group.map(String::from),
        group_draft: String::from(draft),
    };
    assert!(matches!(rename(None, "x").save_group_rename(&desk), GroupRename::NotEditing));
    assert!(matches!(rename(Some("g"), "").save_group_rename(&desk), GroupRename::EmptyName));
    assert!(matches!(rename(Some("g"), "g").save_group_rename(&desk), GroupRename::Unchanged));
    assert!(matches!(
        rename(Some("g"), "h").save_group_rename(&desk),
        GroupRename::Exists(name) if name == "h"
    ));
    assert!(matches!(
        rename(Some("g"), "k").save_group_rename(&desk),
        GroupRename::Rename { from, to } if from == "g" && to == "k"
    ));
    desk.apply_group_rename("g", "k");
    assert_eq!(desk.groups, ["k", "h"]);
    assert_eq!(desk.profiles[0].group, "k");
    assert!(desk.move_profile_to_group(ProfileId(1), "h"));
    assert!(desk.set_profile_sort_order(ProfileId(1), 4));
    assert_eq!(desk.profiles[0].sort_order, 4);
    assert!(desk.delete_profile(ProfileId(1)));
    assert!(!desk.delete_profile(ProfileId(1)));
}

#[test]
fn imports_skip_what_is_there() {
    let host = |alias: &str, user: &str, key: &str| SshHost {
        alias: String::from(alias),
        hostname: String::from("h"),
        port: 22,
        user: String::from(user),
        identity_file: String::from(key),
    };
    let (new, skipped) = import_ssh_config(
        &vec![host("a", "", ""), host("web", "", "/key"), host("db", "pg", "")],
        &catalog().profiles,
        "me",
    );
    assert_eq!((new.len(), skipped), (2, 1));
    assert_eq!(new[0].group, "Imported");
    assert_eq!((new[0].username.as_str(), new[0].auth_method), ("me", AuthMethod::Key));
    assert_eq!(new[1].username, "pg");
}

#[test]
fn foreign_sessions_keep_their_folders() {
    let session = |group: &str, name: &str, protocol: &str| ForeignSession {
        group: String::from(group),
        name: String::from(name),
        hostname: String::from("h"),
        port: 22,
        username: String::new(),
        protocol: String::from(protocol),
    };
    let (new, skipped) = import_securecrt(
        &vec![session("g", "a", "SSH2"), session("x", "a", "RDP"), session("", "s", "Serial")],
        &catalog().profiles,
        "me",
    );
    assert_eq!((new.len(), skipped), (2, 1));
    assert_eq!(new[0].protocol, Protocol::Rdp);
    assert_eq!(new[1].protocol, Protocol::Serial);
}

#[test]
fn drafts_start_from_what_is_shown() {
    let form = typed("22", "");
    let draft = new_profile_draft(&form, &catalog().profiles);
    assert_eq!(draft.group, "g");
    let (mut groups, mut collapsed) = (vec![String::from("g")], Vec::new());
    let mut form = typed("22", "");
    let made = new_group_draft(&mut groups, &mut collapsed, &mut form);
    assert!(groups.contains(&made));
    assert_eq!(form.group, made);
    assert_eq!(close_profile_editor_if_other(Some(ProfileId(1)), ProfileId(2)), None);
    assert_eq!(
        close_profile_editor_if_other(Some(ProfileId(1)), ProfileId(1)),
        Some(ProfileId(1))
    );
}

#[test]
fn a_configuration_is_carried_over_or_adopted() {
    assert_eq!(relocate_config_dir(true, false, false), Relocation::Unchanged);
    assert_eq!(relocate_config_dir(false, false, true), Relocation::AdoptOnRestart);
    assert_eq!(
        relocate_config_dir(false, true, false),
        Relocation::CarryOver { back_to_default: true }
    );
}

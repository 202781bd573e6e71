use adit_ui::style::{
    accent, accent_hover, accent_pressed, accent_soft, area_tones, border_color, border_strong,
    close_button_style, danger, danger_background, danger_button_style, group_row_style,
    menu_button_style, method_button_style, muted_text, panel_background_hover, primary_text,
    profile_menu_item_style, rgb, secondary_button_style, settings_card_style,
    sftp_entry_button_style, soft_shadow, sort_header_button_style, subtle_shadow, surface,
    surface_alt, tab_close_button_style, tab_container_style_dnd, terminal_panel_edge,
    text_input_border, toolbar_icon_button_style, transparent, tree_item_container_style, Area,
    AreaColors, ButtonColors, ButtonState, Tone,
};

#[test]
fn buttons_have_the_colours_of_their_state() {
    for dark in [false, true] {
        assert_eq!(
            secondary_button_style(dark, ButtonState::Disabled),
            ButtonColors {
                background: surface_alt(dark),
                text: primary_text(dark),
                border: border_color(dark),
            }
        );
        assert_eq!(
            danger_button_style(dark, ButtonState::Active),
            ButtonColors {
                background: danger_background(dark),
                text: danger(),
                border: danger(),
            }
        );
        assert_eq!(danger_button_style(dark, ButtonState::Hovered).text, rgb(255, 255, 255));
        assert_eq!(
            close_button_style(dark, ButtonState::Pressed),
            ButtonColors {
                background: rgb(250, 220, 220),
                text: danger(),
                border: transparent(),
            }
        );
        assert_eq!(close_button_style(dark, ButtonState::Active).text, muted_text(dark));
        assert_eq!(
            toolbar_icon_button_style(dark, ButtonState::Hovered).background,
            panel_background_hover(dark)
        );
        assert_eq!(
            method_button_style(dark, true, ButtonState::Pressed).background,
            accent_pressed()
        );
        assert_eq!(method_button_style(dark, true, ButtonState::Hovered).background, accent_hover());
        assert_eq!(method_button_style(dark, false, ButtonState::Active).background, surface(dark));
        assert_eq!(
            menu_button_style(dark, true, ButtonState::Active).background,
            accent_soft(dark)
        );
        assert_eq!(
            menu_button_style(dark, false, ButtonState::Active).background,
            transparent()
        );
    }
}

#[test]
fn areas_mark_what_is_chosen_and_what_is_dragged() {
    for dark in [false, true] {
        assert_eq!(
            tab_container_style_dnd(dark, false, false).colors,
            AreaColors { background: surface_alt(dark), border: border_color(dark) }
        );
        assert_eq!(
            tab_container_style_dnd(dark, false, true).colors,
            AreaColors { background: accent_soft(dark), border: accent() }
        );
        assert_eq!(
            tree_item_container_style(dark, false, true, false).colors,
            AreaColors { background: panel_background_hover(dark), border: transparent() }
        );
        assert_eq!(
            tree_item_container_style(dark, true, false, false).colors,
            AreaColors { background: accent_soft(dark), border: accent() }
        );
        let lifted = tab_container_style_dnd(dark, true, true);
        assert_eq!((lifted.edge, lifted.shadow), (2, Some(subtle_shadow())));
        let still = tab_container_style_dnd(dark, true, false);
        assert_eq!((still.edge, still.shadow), (1, None));
        let lifted = tree_item_container_style(dark, false, false, true);
        assert_eq!((lifted.edge, lifted.shadow), (2, Some(soft_shadow())));
        let still = tree_item_container_style(dark, true, true, false);
        assert_eq!((still.edge, still.shadow), (1, None));
        assert_eq!(
            group_row_style(dark, true),
            AreaColors { background: accent_soft(dark), border: accent() }
        );
        assert_eq!(
            settings_card_style(dark, false),
            AreaColors { background: surface_alt(dark), border: border_color(dark) }
        );
        assert_eq!(text_input_border(dark, true, true), accent());
        assert_eq!(text_input_border(dark, false, true), border_strong(dark));
        assert_eq!(text_input_border(dark, false, false), border_color(dark));
    }
}

#[test]
fn hovering_shows_on_every_kind_of_button() {
    let (still, over) = (ButtonState::Active, ButtonState::Hovered);
    for dark in [false, true] {
        assert_ne!(tab_close_button_style(dark, still), tab_close_button_style(dark, over));
        assert_ne!(sort_header_button_style(dark, still), sort_header_button_style(dark, over));
        assert_ne!(sftp_entry_button_style(dark, still), sftp_entry_button_style(dark, over));
        assert_ne!(
            profile_menu_item_style(dark, over, true),
            profile_menu_item_style(dark, still, true)
        );
    }
    assert!(soft_shadow().blur > subtle_shadow().blur);
}

#[test]
fn areas_have_their_tokens() {
    assert_eq!(area_tones(Area::Workspace).0, Tone::SurfaceSunken);
    assert_eq!(area_tones(Area::StatusBar), (Tone::SurfaceAlt, Tone::Muted, Tone::Border));
    assert_eq!(
        area_tones(Area::ErrorPanel),
        (Tone::DangerBackground, Tone::Primary, Tone::Danger)
    );
    assert_eq!(terminal_panel_edge(false), rgb(38, 43, 54));
    assert_eq!(terminal_panel_edge(true), accent());
}

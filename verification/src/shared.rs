//! What several parts of the window hold: the scroll position, the selection and the
//! menus, and which panels are open. The terminal and the flags lead, and the other parts
//! follow.

use vstd::prelude::*;

use crate::chrome::{Flags, OpenPanels};
use crate::connect::Surface;
use crate::viewport::TerminalView;

verus! {

/// Whether the parts of the window agree on what they share.
pub open spec fn in_step(
    flags: &Flags,
    panels: &OpenPanels,
    surface: &Surface,
    terminal: &TerminalView,
) -> bool {
    &&& flags.terminal_scroll_offset == terminal.scroll_offset
    &&& flags.terminal_selection == terminal.selection
    &&& flags.terminal_context_menu == terminal.context_menu
    &&& surface.scroll_offset == terminal.scroll_offset
    &&& surface.selection == terminal.selection
    &&& surface.terminal_menu == terminal.context_menu
    &&& surface.profile_menu == panels.profile_context_menu is Some
    &&& surface.group_menu == panels.group_context_menu is Some
    &&& panels.terminal_context_menu == terminal.context_menu
    &&& panels.tunnels_open == flags.tunnels_open
    &&& panels.about_open == flags.about_open
    &&& panels.snippets_open == flags.snippets_open
    &&& panels.options_open == flags.settings_open
    &&& panels.known_hosts_open == flags.known_hosts_open
}

/// Brings the parts of the window in step: the terminal says where it is scrolled to, what
/// is selected and whether its menu is open, the flags say which panels are open, and the
/// panels say which other menus are.
pub fn bring_in_step(
    flags: &mut Flags,
    panels: &mut OpenPanels,
    surface: &mut Surface,
    terminal: &TerminalView,
)
    ensures
        in_step(final(flags), final(panels), final(surface), terminal),
        *final(flags) == (Flags {
            terminal_scroll_offset: terminal.scroll_offset,
            terminal_selection: terminal.selection,
            terminal_context_menu: terminal.context_menu,
            ..*old(flags)
        }),
        *final(panels) == (OpenPanels {
            terminal_context_menu: terminal.context_menu,
            tunnels_open: old(flags).tunnels_open,
            about_open: old(flags).about_open,
            snippets_open: old(flags).snippets_open,
            options_open: old(flags).settings_open,
            known_hosts_open: old(flags).known_hosts_open,
            ..*old(panels)
        }),
        *final(surface) == (Surface {
            scroll_offset: terminal.scroll_offset,
            selection: terminal.selection,
            terminal_menu: terminal.context_menu,
            profile_menu: old(panels).profile_context_menu is Some,
            group_menu: old(panels).group_context_menu is Some,
            ..*old(surface)
        }),
{
    flags.follow_terminal(terminal);
    panels.follow_flags(flags, terminal);
    surface.follow_panels(panels, terminal);
}

impl Flags {
    fn follow_terminal(&mut self, terminal: &TerminalView)
        ensures
            *final(self) == (Flags {
                terminal_scroll_offset: terminal.scroll_offset,
                terminal_selection: terminal.selection,
                terminal_context_menu: terminal.context_menu,
                ..*old(self)
            }),
    {
        self.terminal_scroll_offset = terminal.scroll_offset;
        self.terminal_selection = terminal.selection;
        self.terminal_context_menu = terminal.context_menu;
    }
}

impl Surface {
    fn follow_panels(&mut self, panels: &OpenPanels, terminal: &TerminalView)
        ensures
            *final(self) == (Surface {
                scroll_offset: terminal.scroll_offset,
                selection: terminal.selection,
                terminal_menu: terminal.context_menu,
                profile_menu: panels.profile_context_menu is Some,
                group_menu: panels.group_context_menu is Some,
                ..*old(self)
            }),
    {
        self.scroll_offset = terminal.scroll_offset;
        self.selection = terminal.selection;
        self.terminal_menu = terminal.context_menu;
        self.profile_menu = panels.profile_context_menu.is_some();
        self.group_menu = panels.group_context_menu.is_some();
    }
}

impl TerminalView {
    /// Takes over what a menu command did to the terminal.
    pub fn follow_flags(&mut self, flags: &Flags)
        ensures
            *final(self) == (TerminalView {
                scroll_offset: flags.terminal_scroll_offset,
                selection: flags.terminal_selection,
                context_menu: flags.terminal_context_menu,
                ..*old(self)
            }),
    {
        self.scroll_offset = flags.terminal_scroll_offset;
        self.selection = flags.terminal_selection;
        self.context_menu = flags.terminal_context_menu;
    }

    /// Takes over what opening a session did to the terminal.
    pub fn follow_surface(&mut self, surface: &Surface)
        ensures
            *final(self) == (TerminalView {
                scroll_offset: surface.scroll_offset,
                selection: surface.selection,
                context_menu: surface.terminal_menu,
                ..*old(self)
            }),
    {
        self.scroll_offset = surface.scroll_offset;
        self.selection = surface.selection;
        self.context_menu = surface.terminal_menu;
    }
}

impl OpenPanels {
    fn follow_flags(&mut self, flags: &Flags, terminal: &TerminalView)
        ensures
            *final(self) == (OpenPanels {
                terminal_context_menu: terminal.context_menu,
                tunnels_open: flags.tunnels_open,
                about_open: flags.about_open,
                snippets_open: flags.snippets_open,
                options_open: flags.settings_open,
                known_hosts_open: flags.known_hosts_open,
                ..*old(self)
            }),
    {
        self.terminal_context_menu = terminal.context_menu;
        self.tunnels_open = flags.tunnels_open;
        self.about_open = flags.about_open;
        self.snippets_open = flags.snippets_open;
        self.options_open = flags.settings_open;
        self.known_hosts_open = flags.known_hosts_open;
    }

    /// Takes over what opening a session did to the menus: those that it closed are closed.
    pub fn follow_surface(&mut self, surface: &Surface)
        ensures
            *final(self) == (OpenPanels {
                profile_context_menu: if surface.profile_menu {
                    old(self).profile_context_menu
                } else {
                    None
                },
                group_context_menu: if surface.group_menu {
                    old(self).group_context_menu
                } else {
                    None
                },
                ..*old(self)
            }),
    {
        if !surface.profile_menu {
            self.profile_context_menu = None;
        }
        if !surface.group_menu {
            self.group_context_menu = None;
        }
    }
}

} // verus!

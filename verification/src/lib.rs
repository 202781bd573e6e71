//! The decision-making core of a desktop SSH terminal: text selection, key and
//! mouse encoding, panes, the session catalogue, the host grid, transfers,
//! clipboard bridging, highlighting, theming and what each panel shows.

pub mod text;
pub mod terminal;
pub mod terminal_text;
pub mod keys;
pub mod input;
pub mod command;
pub mod viewport;
pub mod search;
pub mod panes;
pub mod profile;
pub mod groups;
pub mod jumps;
pub mod grid;
pub mod tree;
pub mod form;
pub mod catalog;
pub mod pattern;
pub mod highlight;
pub mod clipboard_files;
pub mod keyboard_hook;
pub mod style;
pub mod theme;
pub mod i18n;
pub mod calendar;
pub mod sftp;
pub mod transfers;
pub mod sftp_panel;
pub mod chrome;
pub mod sync;
pub mod sync_page;
pub mod tunnels;
pub mod dialogs;
pub mod options;
pub mod shared;
pub mod sidebar;
pub mod hosts;
pub mod editor;
pub mod connect;
pub mod layout;
pub mod typing;
pub mod settings;
pub mod startup;
pub mod arrange;
pub mod updater;
pub mod actions;

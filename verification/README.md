# adit_ui

The part of a desktop SSH terminal that decides things, written in Verus: what a key
press sends, what a selection copies, where a dragged session lands, which text may be
recoloured, what every panel shows. Each function states in its contract what it returns
or changes, and the contract is proved.

## Layout

- `src/` is the verified library.
  - `text`, `terminal`, `terminal_text`, `pattern`, `highlight`: characters, lines,
    selections, and the painting of uncoloured output.
  - `keys`, `input`, `command`, `typing`, `keyboard_hook`: what is typed and pasted, and
    where it goes.
  - `viewport`, `search`, `panes`, `layout`: scrolling, clicking, finding, tiling, sizes.
  - `profile`, `groups`, `jumps`, `form`, `catalog`, `actions`, `arrange`: sessions,
    folders, and what becomes of them.
  - `tree`, `grid`, `sidebar`, `hosts`: the two views of the sessions, and dragging in
    each.
  - `sftp`, `transfers`, `sftp_panel`, `clipboard_files`: files, transfers, and files on
    the clipboard of a remote desktop.
  - `style`, `theme`, `i18n`, `calendar`: colours, fonts, words, dates.
  - `chrome`, `dialogs`, `editor`, `options`, `tunnels`, `sync`, `sync_page`: menus,
    bars, dialogs and panels.
  - `connect`, `settings`, `startup`, `shared`, `updater`: opening sessions, keeping
    settings, starting, what several parts of the window hold, updating.
- `tests/` runs the library on concrete values.
- `app/` is the window around it: widgets, events, the clock, disks, and everything that
  is measured in fractions of a pixel.

Public functions named `law_…` are proofs of what holds of the library as a whole.

## What is believed without proof

The library calls a few functions of other crates and of the standard library behind
small wrappers whose contracts are taken on trust: compiling and running a regular
expression (`regex`), the width of a character (`unicode-width`), the clock and the local
offset (`time`), the Latin character of a key (`iced`), the case and the class of
characters, and appending a character to a string. Each wrapper's comment says which
function it calls and what is claimed of it.

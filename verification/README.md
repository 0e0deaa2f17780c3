# meli terminal and mail-view core, verified

The logic of meli's terminal layer and mail view, written in Verus with
its behaviour stated in `requires`/`ensures` contracts and proved.

- `src/` is the verified library: screen areas and their algebra
  (`area`, `area_laws`), cells and grids (`cells`), the bytes that draw
  a row (`segment`), screens (`screen`), the terminal colour replies
  (`palette`), keys and bindings (`keys`, `shortcut`), terminal event
  translation and key encoding (`bridge`), the input watchdog
  (`watchdog`, `input`), redraw planning (`redraw`), the main loop's decisions on
  settings, commands and events and their texts (`main_loop`, `events`), the numeric command prefix (`cmd_buf`), thread-view
  navigation, key routing and pane placement (`thread_nav`, `thread_keys`,
  `mail_view`, `panes`), mailcap and desktop-entry
  commands (`mailcap`, `desktop`, `shell`), the HTML renderer
  (`html_render`), ratatui layouts and colours (`layout`, `tui`) and text
  helpers (`text`, `utils`, `hyperlink`).
- Calls into outside crates (ammonia, html2text, url, ratatui's layout
  solver, smallvec, uuid, crossterm, melib's fnmatch) go through small
  trusted wrappers whose doc comments say what is assumed of them.
- `tests/` runs the library on concrete values.
- `app/` holds what cannot be verified: terminal I/O, the input loop,
  processes, files, and the serde forms of keys.

# wezterm-gui

Start-up, window hand-off, text selection and font listing of a terminal GUI.

- `src/` is the library, written in Verus: what the program decides and computes, as functions
  with contracts that are proved. What holds of it as a whole is stated in `law_*` proof
  functions.
- `tests/` runs the library on concrete values.
- `app/` is the program around it. It reads the command line, talks to the multiplexer, to
  running GUIs and to the tracing collector, and draws on the terminal's own crates
  (`config`, `mux`, `termwiz`, `wezterm-font` and others) and on `gui_window`, which holds the
  window, its glyphs, its key map and its scripting.

| Module         | Subject                                                                    |
|----------------|----------------------------------------------------------------------------|
| `command`      | subcommands, and what each of them starts                                  |
| `publish`      | whether to hand off to a running GUI and whether to offer our own socket   |
| `try_spawn`    | one attempt to hand off, exchange by exchange                              |
| `pane_tree`    | the window that holds a pane                                               |
| `handoff`      | first attempt, sweep over the GUIs that are alive, or a GUI of our own     |
| `startup`      | the steps of a start-up once a GUI of our own is running                   |
| `handoff_otel` | what is reported to the tracing collector, and when that is on             |
| `selection`    | how the mouse drives the selection of a pane                               |
| `selected`     | what a selection covers, as text and as lines                              |
| `ls_fonts`     | which text a font listing is about                                         |
| `font_report`  | what a font listing prints                                                 |
| `workspace`    | what is shown when the active workspace runs empty                         |
| `text`         | strings built piece by piece                                               |

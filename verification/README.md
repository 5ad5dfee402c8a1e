# sn

A terminal viewer for a directory of markdown and text notes.

- `src/` is the verified library: the markdown renderer (`markdown`), the
  style model (`style`), the colour theme (`theme`), the choice and order of
  the notes (`notes`), the viewer state and its key handling (`app`), what the
  two panels show (`ui`), and character-level helpers (`strings`).
- `app/` is the terminal program around it: environment, directory reading,
  the event loop and the drawing with ratatui and crossterm.
- `tests/` runs the library on concrete inputs.

# ntx

A terminal with a notes sidebar: markdown notes hold runnable code blocks,
and a project's config sets the shell, its working directory, environment
and startup script.

- `src/` is the verified library. It holds the note format (`notes`), the
  config format (`session`, `config`), project paths (`paths`), every
  decision the application makes on keys, the mouse and finished work
  (`app`), what the screen says (`ui`, `screen`), the shell start-up plan
  (`terminal`), and the properties proved across them (`laws`,
  `conf_laws`). `text` and `sorting` hold the string and ordering
  operations the rest is written in.
- `app/` is the program around it: the event loop, drawing with ratatui,
  the pseudo-terminal, the clipboard, the editor and the files under
  `~/.ntx`.
- `tests/` runs the library on concrete values.

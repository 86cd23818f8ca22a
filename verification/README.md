# kite

A terminal file manager whose core is verified with Verus.

- `src/` is the library, verified apart from thin trusted wrappers around the
  calls into std, syntect, image, base64 and dirs: file entries and their
  permissions and icons, the configuration, the keymap with key sequences,
  natural and stable sorting of listings, the application state machine
  (cursor, selection, visual mode, search, filter, history, file operations),
  key handling, previews (hex dumps, directory summaries, syntax-highlighted
  text through syntect, images decoded and scaled through the image crate,
  Kitty image escape sequences, the choice and order of preview providers)
  and the plugin registry. The state machine never performs input
  or output: a command yields an `AppAction`, and the outcome of that action
  is fed back with `App::resume`.
- `app/` is the program around it: the terminal, the event loop, the file
  system, rendering with ratatui, the configuration file and the plugin
  runtimes.
- `tests/` exercises the library on concrete values.

# aurora

The core of the Aurora music player daemon as a verified library, with the
daemon program around it.

- `src/` — the library, verified with Verus: the play queue (`queue`), the
  song index and what is read out of it (`library`, `sort`, `text`), the play
  history (`history`), album art (`art`), playlists (`playlist`), directory
  scanning and the song cache (`scan`), the wire framing (`framing`), the
  request decisions of the daemon (`daemon`), the media-control and watcher
  state machines (`mpris`, `watch`), what the player windows show (`ui`), and
  the properties that hold across operations (`laws`).
- `tests/` — tests of the library on concrete values.
- `app/` — the daemon program: sockets, SQLite, audio output, tag reading,
  file watching and D-Bus, each step asking the library what to do.

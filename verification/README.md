# hourglass

A desktop activity tracker. It records usage segments: which process had the
foreground, from when to when, whether the user was active or idle, and which
page a browser showed.

- `src/` is the verified library. `tracker` decides when a segment ends and the
  next one begins, `db_handler` turns that into statements and reads rows back,
  `timeline` proves that the recorded segments form a chain without gaps.
  `web_receiver` frames and augments what the browser extension sends,
  `process_tree` finds the browser's pid, `json` and `text` hold the calls into
  serde_json and std whose contracts are taken on trust.
- `tests/` runs the library, with an SQLite database in memory for the
  statements.
- `app/` is the program around it: Windows calls, sockets, the database file,
  timers and logging. Under the name `web_receiver` the same binary is the
  native messaging host that the browser starts.

# lastrun

A command-line tracker of when recurring tasks last ran: `start` and `done`
stamp a task, `check` exits non-zero once a task is overdue, `status` opens an
interactive table (or prints JSON), `logs` lists completed runs, and a
retention setting prunes old log entries after every `done`.

## Layout

- `src/` — the verified library (Verus). It holds everything the commands
  decide and compute, each function with a `requires`/`ensures` contract:
  - `time` — instants and spans, with chrono behind small trusted wrappers;
  - `format` — reading durations (`24h`, `7d`, `2w`, `3m`) and writing spans;
  - `calendar` — the proleptic Gregorian date and time of a second, as
    `%Y-%m-%d %H:%M:%S`;
  - `model` — what `start`, `done` and `clear` do to a task, and the run that
    gets logged;
  - `cli` — the commands, `check`'s verdict and every message the commands print;
  - `db` — the queries, decoding of stored rows, and the retention setting;
  - `tui`, `settings`, `controls`, `status` — the state machines of the two
    interactive views (key handling, selection, ordering, history statistics),
    the key-hint bar, popup placement and the cells of every table;
  - `text` — numerals, integer parsing, case-insensitive comparison, trimming.
- `app/` — the program around it: command-line parsing (clap), the SQLite
  store (rusqlite), printing (prettytable, serde_json) and the terminal loops
  (ratatui, crossterm), which carry out what the library's key handling asks.
- `tests/` — tests of the library.

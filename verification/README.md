# Worklight

Worklight tracks commands that were started by hand and agent runtimes, and leads
back to the shell or tmux pane that they were started in.

The library under `src/` holds what is decided: it does no I/O. Whoever uses it runs
statements, tmux and the terminal, and hands the answers back.

- `command_line`: which command lines are tracked.
- `process`, `agent`, `orchestrator`, `focus`: tracked items, their hosts, and the
  way back to them.
- `rows`, `query`, `answers`: what is asked of the database, and what rows stand for.
- `storage`, `transaction`, `schema`: requests, the statements of each transaction,
  the versions of the schema, and the collection of old items.
- `tables`, `effects`, `collection`, `observation`, `synchronization`, `session`: what
  the tables hold, what transactions and collections do to them, what is known of
  items that are read again, and what comes of loading the panel and keeping it up to
  date.
  What SQLite does with each statement and query is stated in `tables`, and is not
  proved of the SQL text; the laws of these modules rest on it.
- `order`, `panel`, `refresh`, `worker`, `screen`: the list of the panel, its
  selection, its data and when it is read again, keys, and what is drawn.
- `cli`, `report`: the commands of the program, and the rows that they print.
- `error`, `text`, `time`: wording, texts and points in time.

The program under `app/` parses arguments, talks to SQLite, tmux and the terminal,
and follows the library. The tests under `tests/` drive the library against a real
database.

# rltbl

Relatable (rltbl) is a tool for cleaning and connecting tabular data. This crate holds
its core, written in Verus: the functions in `src/` carry contracts that Verus proves, all
but the trusted items named below.

- `src/` — the verified library: selects and their filters, SQL and DDL text, datatypes,
  columns, structures, rows and cells, tables, tablesets, changes and history, result sets,
  git status parsing, and the decisions behind the web pages.
- The calls into outside crates (`regex`, `csv`, `tabwriter`, `serde_json`, `indexmap`,
  `sprintf`, `enquote`, `random_color`) and into a few standard-library functions are
  trusted items, each with the contract it is trusted to meet; most stand in
  `src/pattern.rs`, `src/writers.rs`, `src/json.rs`, `src/maps.rs` and `src/text.rs`.
- `tests/` — tests of the library on concrete values.
- `app/` — the `rltbl` command: its command line, the terminal, and git. The database
  engine that the commands need is not part of this crate: each command prepares what the
  library computes for it (table names, the demonstration statements) and then reports that
  it cannot run.

# thrum

A terminal view of the machine — processes, network, file systems, disks,
CPU cores, temperatures and memory — whose decision-making core is
verified with Verus.

## Layout

- `src/` — the verified library.
  - `tab.rs`: the tabs, their order and cycling, layouts, sort fields.
  - `input.rs`: key and mouse events as plain values.
  - `app.rs`: the application state and what each key press and mouse
    event does to it (`key_step`, `mouse_step`), histories, configuration,
    the kill dialog, and the laws of event handling.
  - `cli.rs`: command-line parsing against a model (`parse_args_spec`),
    and its laws: the last flag for a field, wherever it stands, sets it
    over the configuration file, and fields no flag sets keep the file's
    values.
  - `samplers.rs`: byte rates from cumulative counters, the per-interface
    and per-mount collection, status labels, kill outcomes.
  - `ui.rs`: uptimes, timestamps (a Gregorian calendar model), sort arrows,
    the status bar, the scroll window of a table, row filters.
  - `observe.rs`: observation priorities, activity thresholds and the order
    in which observations are shown.
  - `order.rs`: byte-wise order of names, a verified stable sort, and the
    order of a list of names.
  - `text.rs`: decimal rendering and parsing, ASCII case folding.
- `tests/` — tests of the library.
- `app/` — the program: terminal I/O (crossterm, ratatui), system sampling
  (sysinfo), the configuration file (serde, toml), and the number formats
  that go through floating point.

# naabu-tools

Random public IPv4 generation, CIDR expansion and handling of
[naabu](https://github.com/projectdiscovery/naabu) port scans, with three
front ends (command line, desktop window, web dashboard).

## Layout

- `src/` — the library, verified with Verus. Every function states what it
  returns in `requires`/`ensures` over spec functions on `Seq<char>`, `u32`
  addresses and the views of the data types.
  - `text`, `ipv4`, `clock`, `random`: shared text handling, dotted-quad
    parsing and formatting, the reserved ranges, CIDR expansion, target
    lists, timestamps (through `chrono`) and random public addresses
    (through `rand`).
  - `naabu_output`: naabu's command line and the result lines it prints.
  - `cli_*`, `gui_*`, `web_*`: the decisions of each front end — target
    resolution, scan steps, exports, the scan history, the job store.
- `tests/` — tests run against the compiled library.
- `app/` — the program itself: argument parsing, file and process I/O,
  threads and the async runtime, the egui window and the axum routes. It
  calls the library for every decision. Run under the name `naabu-gui` it
  opens the window, as `naabu-web` it serves the dashboard, otherwise it is
  the command-line tool.

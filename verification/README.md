# casa

A cross-protocol smart-home client (`casa`) and its resident rule engine
(`casad`), with their decisions verified by Verus.

casa speaks no protocol itself: it resolves a device or group name from
`devices.toml`, builds the command line of a protocol CLI (`enl`, `mat`,
`swb`, `atv`), runs it, and reshapes its JSON. casad reads `rules.toml`,
decides which rules are due (at a time of day, or on an ECHONET Lite or
Matter event, inside an optional active window), and fires casa for each
action, one worker per device.

## Layout

- `src/` — the verified library.
  - `config`, `lookup`: the device configuration and its checks.
  - `adapter/`: one adapter per protocol, from a device to a child CLI
    invocation.
  - `ops`: planning a request (device or group), combining group results,
    and the `validate` summary.
  - `output`, `json`: the JSON responses casa prints.
  - `runner`, `error`: binary resolution, exit statuses, error kinds and
    exit codes.
  - `cli`: casa's command line as values.
  - `casad/`: the rule file and its checks (`rules`), due rules and event
    matching (`engine`), the per-device worker state machine (`dispatch`),
    the on/off state cache (`state_cache`), event framing (`mat`, `enl`),
    and casad's command line (`cli`, `action`).
  - `standalone/`: the compact single-binary casa (ECHONET Lite and Matter
    with positional addresses).
  - `text`: strings: decimal parsing and printing, splitting, trimming,
    ordering.
- `app/` — the programs: argument parsing, file and process I/O, threads,
  serde, logging. Invoked as `casad` it runs the rule engine, otherwise the
  casa CLI.
- `tests/` — tests against the library.

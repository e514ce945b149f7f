# tasmota

An unofficial, HTTP-first command-line tool for [Tasmota](https://tasmota.github.io/docs/)
smart devices, built on a library whose logic is verified with Verus.

## Layout

- `src/` - the verified library (crate `tasmota`):
  - `text`, `json` - character-level text primitives, the JSON value and its
    compact text;
  - `model`, `parse` - the device model read from a `Status 0` reply;
  - `transport` - the `Transport` trait, URLs, reply checking, credential
    redaction, multipart framing;
  - `ops` - device operations over any `Transport`;
  - `guardrail` - classification of destructive console commands;
  - `cache`, `discovery`, `target` - the device cache, scan ranges and probing,
    target selection;
  - `cli`, `commands`, `render` - runtime context, command decisions and reports,
    text rendering;
  - `vendor` - the vendor-neutral (`switchkit`) view of a device;
  - `error`, `schema` - the error kinds, their envelope and exit codes, and the
    clispec contract that `tasmota schema` prints.
- `tests/` - tests of the library, with scripted transports.
- `app/` - the command-line program: argument parsing, the HTTP transport,
  files, prompts, threads and the `switchkit::SmartDevice` implementation.

## Rules the library keeps, and where they are stated

- Absent data is `None` and is shown as `n/a`/`null`, never coerced to `0`
  (`parse::status_of`, `render::na`, `render::power`, `render::energy`).
- Live relay state comes from `StatusSTS.POWER`, never the `Status.Power` bitmask
  (`parse::status_power_is_never_read`); an unrecognized relay label is `Unknown`,
  never a guessed `Off` (`parse::relay_state_is_never_guessed`).
- HTTP 200 is not success; the JSON body decides (`transport::command_reply`).
- Which writes ask before acting is `commands::write_step`: relay control asks for a
  bulk selection or several devices; a settings write, a template, a firmware flash
  or a console command not known to be safe asks even for one device; `--yes` skips
  the prompt. A declined prompt aborts with exit code 2 (`commands::gate_outcome`).
- Under `--dry-run` these steps (and `backup_start`, `firmware_update_start`) give
  the plan to show; the program in `app/` returns it before it opens a transport,
  so nothing is sent. That ordering lives in `app/`, not in a contract.
- `tasmota schema` prints `schema::contract`, whose compact text is stated in full.

# OpenStart

A Windows startup-command launcher: saved commands (optionally multi-step,
with delays) run in PowerShell, CMD, Git Bash, WSL or Windows Terminal, one
by one or a whole group as tabs of one Windows Terminal window, at login or
on demand; GUI and command line.

## Layout

- `src/` — the verified library (Verus):
  - `text` — string helpers over character sequences (equality, prefix,
    substring search, decimal notation, joining);
  - `storage` — the saved-command model and the store's decisions on what
    the database reports;
  - `terminal` — Windows Terminal profiles, shell inference, terminal
    detection from a probe of the system, executable search lists;
  - `script` — chained scripts from command steps and the program/arguments
    that launch a command in a terminal, with their laws;
  - `version`, `updater` — dotted-version parsing and ordering (with order
    laws) and the update report;
  - `settings` — settings and defaults;
  - `commands` — new and edited commands, the script a command runs, group
    launch plans;
  - `cli` — command-line requests and direct execution arguments;
  - `logger` — spawn-log lines and the log tail.
- `app/` — the program around it: the SQLite store, settings and log files,
  registry auto-start, system probing, process spawning, the update request,
  the command line and the Tauri window.
- `tests/` — tests of the library.

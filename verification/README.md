# glaunch

A Steam launch wrapper for Linux: it resolves per-game settings (command line over profile
over global config over built-in defaults), builds the gamemode / gamescope / V-Cache pinning
command with its environment, and manages per-game profiles from the command line or a small
terminal UI.

## Layout

- `src/` — the library, verified with Verus:
  - `config` — the configuration model and the layered resolution, with its laws;
  - `launch` — the launch plan and the dry-run line;
  - `run` — what `glaunch run` reports and checks before launching;
  - `hardware` — V-Cache CCD and GPU detection from what sysfs holds, the cache's age limit,
    the `glaunch info` report;
  - `history` — game slugs, the launch history store and its reports;
  - `profile` — the profile table, profile files and their order, delete confirmation;
  - `tui` — the profile manager's state machine (list and editor), one key at a time;
  - `cli` — the command-line flags and what they override;
  - `text`, `split`, `order`, `unicode` — character-level helpers with exact specifications.
- `app/` — the program around it: clap, serde/TOML/JSON files, sysfs reads, `exec`, and the
  ratatui/crossterm terminal loop.
- `tests/` — tests of the library.

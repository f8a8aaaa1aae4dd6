# rmon

A terminal system monitor (CPU, memory, disks, network, processes) whose
state model is verified with Verus.

- `src/` is the verified library: the process table's ordering (a stable
  sort, largest first for CPU and memory), the highlight and kill
  confirmation, key and mouse handling as state transitions that return the
  action to carry out, refresh pacing, bounded usage histories, settings,
  themes and colour overrides, and the formatting of byte counts, rates and
  uptimes. `src/laws.rs` and `src/process.rs` hold the properties proved of
  these operations taken together.
- `app/` is the program around it: it reads the system with `sysinfo`, the
  settings file with `toml`, keys with `crossterm`, and draws with `ratatui`.

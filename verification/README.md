# hypr-commons

Shared building blocks of the Hyprland desktop suite, verified with Verus.

- `src/` is the library: what the suite's shared crates compute and
  decide, with its contract proved: XDG base-directory resolution
  (`xdg_paths`), the single-instance lock's path and outcome (`singleton`),
  logind session selection (`logind`), the idle mechanics of a Slint event
  loop (`slint_runtime`, on the library's own `duration`), and span-lines,
  the journald record format with its `tracing` bridge (`span_lines`).
- `app/` is the process-facing half: environment variables, files and
  `flock`, D-Bus through zbus, the clock, process-wide registries, locks
  for sharing state between threads, and the `tracing-subscriber` and
  Slint integrations. It reads the world, hands the library plain values
  and acts on what it answers.
- `tests/` exercises the library on concrete values.

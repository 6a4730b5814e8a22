# daily-ups

Updates the tool chains of a machine and the projects of its user: one command,
once a day.

    daily-ups [--dry-run] [--deep] [--jobs N] [--verbose-log]

The tool chains are updated side by side. When all of them are done, the projects
follow, four at a time unless `--jobs` says otherwise. A project is left alone if
its directory is missing, is no git repository or has local changes. `--deep`
cleans the projects before they are built, `--dry-run` lists the commands and runs
none, `--verbose-log` keeps in the log what passing commands print. The exit code
is 0 if everything was updated.

- `src/` is the library. It decides everything and does nothing itself. Its
  functions are verified with Verus against their contracts. The contracts of the
  few that call other crates (clap, owo-colors, time) or a part of std that Verus
  knows nothing of are believed, not proved; each says so where it stands.
- `app/` is the program around it: processes, threads, files, the clock and the
  progress bars.
- `tests/` runs the library on a machine that is made up.

Paths are bytes, as on Unix.

# caffeinate

Cross-platform `caffeinate` for Linux and Windows with the flags of the macOS
command: `caffeinate [-disum] [-t timeout] [-w pid] [utility [argument ...]]`.

Every decision the program makes is in the verified library under `src/`:

- `parse` reads the command line; its contract is the grammar as a spec
  function, and it proves that `-dt10` reads as `-dt 10`, that `-dism` reads
  as `-d -i -s -m`, and that `--` or the first non-option word starts the utility.
- `options` applies the defaults (`-i` when nothing is asserted, five seconds
  for `-u` alone), drops `-t` and `-w` when a utility runs, and plans a run:
  what to inhibit and whether `-s` is ignored on battery.
- `pid` reads `/proc/<pid>/stat` text and decides whether a watched process
  still runs; `hold` decides when holding ends and the exit code of a utility.
- `platform` decides what to ask logind and the screensaver for on Linux, the
  thread execution state on Windows, and how power-status answers are read.
- `text` holds the whitespace, trimming, splitting and number parsing they use.

`app/` is the program around it: arguments, files under `/proc` and `/sys`,
D-Bus calls, Windows API calls, the Ctrl-C handler, child processes and sleeping.

# clf

A log file checker in the manner of the Nagios `check_logfiles` plugin: it reads logfiles
(or lists of logfiles given by a command), matches each new line against critical, warning
and ok regexes, runs a callback (a script, a TCP or a UNIX domain socket) on a match, keeps
where each search stopped in a snapshot file between runs, and reports a Nagios state.

## Layout

- `src/` is the library, verified with Verus: search options, patterns and their
  exceptions, the search state of one logfile line by line (thresholds, `runlimit`,
  `stopat`, ok patterns resetting the thresholds), variables handed to callbacks, the
  snapshot and its retention, log rotation (detecting it, the archive's name, and the run
  data of each tag afterwards), the Nagios counters and output, and the expansion of
  logfile lists in a configuration. Regex matching is done by the `regex`
  crate, behind a few trusted functions whose contracts name what they compute.
- `app/` is the program around it: command-line parsing, the YAML configuration and the
  JSON snapshot (serde), reading plain and gzipped files, spawning scripts and writing to
  sockets, logging.
- `tests/` exercises the library on concrete values.

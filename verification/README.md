# meriadoc

The verified core of Meriadoc, a local-first runner for project scripts
(tasks, jobs and shells declared in `meriadoc.yaml` spec files).

- `src/` — the library, verified with Verus:
  - `task_spec`, `validation`: the task model and the validator, with the
    laws that characterise exactly which tasks are accepted and how often
    each kind of problem is reported;
  - `config`: the global configuration, its defaults, and the normalisation
    that makes its relative paths absolute on load;
  - `audit`: audit events (blocked and dry runs carry no exit code or
    duration; `build_event_from_reading` stamps the given clock reading in
    RFC 3339, and `build_event` hands it the system clock's reading, with
    no event when the clock reads before 1970) and their NDJSON framing;
  - `text`: the Unicode whitespace notion used for blank commands.
- `app/` — the I/O around it: YAML and JSON (de)serialisation through serde
  copies of the library's types, audit sinks and logger, the configuration
  file on disk.
- `tests/` — tests of the library.

# jlo (verified core)

The decision-making core of the `jlo` command line tool, written in Verus.
The public functions in `src/` carry contracts that Verus proves; the
trusted wrappers around outside crates (listed below) are believed, not
proved, and a few private helpers carry no contract of their own.

- `src/` — the library: run configuration (`config`), layer and role
  selection (`layer`, `run`, `schedule`, `strategy`), requirement and issue
  paths (`requirement_path`, `single_role`), mock runs (`mock`, `mock_run`,
  `mock_implementer`, `mock_decider`), narrator commit ranges (`narrator`,
  `narrator_window`), control-plane updates (`manifest`, `upgrade`,
  `version`), setup components (`setup`), role templates (`template`), and
  the string, path and order helpers they share (`text`, `path`, `order`,
  `data`).
- `app/` — the command layer around it: files, git, the environment,
  interactive prompts and JSON output.
- `tests/` — tests of the library's public functions.

Parsing of JSON, YAML and TOML, URL normalization and RFC 3339 checks are
done by `serde_json`, `serde_yaml`, `toml`, `url` and `chrono`; the library
reaches them through a few trusted wrappers in `data`, `config` and
`narrator` (and the clock through three in `mock`), whose contracts name
the parsers' results. Where the original reads a file straight into one of
its own types with a serde derive (`tools.yml`, a requirement's label and
id), `app/` does that read and hands the library the values.

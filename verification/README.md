# reeve

An allowlist-first runtime for shell automation: scripts are written in
Rhai, and every external command they run must be declared in a pact.

The library (`src/`) is verified with Verus. It holds the policy side:

- `pact/` — the pact schema, an ordered string table, the value kinds
  (`enum`, `number`, `string`), the allowlist engine that checks a
  `(binary, argv)` request, the rules a parsed pact must meet, and the
  built-in presets.
- `runtime/` — what the host functions decide: the exec plan and the
  report of a finished child (timeout, output cap, exit status), the
  workspace path rules and file decisions, line splitting, the size-guarded
  JSON/YAML parsers, the typed errors and their maps, exit-code
  classification and error messages, log lines and audit events.
- `security.rs` — the security configuration: `$HOME` expansion and the
  environment passthrough rule.
- `strs.rs` — string helpers with their specifications.

`app/` is the `reeve` command around it: argument parsing, the Rhai engine
and its host function wiring, spawning children, file I/O and the audit log
writer.  YAML (the compiled-in security configuration, and pacts) is read
there with serde and handed to the library for its checks.

Exit codes of `reeve run`: 0 success, 1 script error, 2 pact violation,
3 configuration error.

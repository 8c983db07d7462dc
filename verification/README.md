# capulus

Shared support for Rust command-line tools, with its rules and data structures
verified by Verus.

- `src/` is the library. Every function states in its contract what it returns
  or changes (of what is drawn at random, its form), and Verus proves it; only
  the few wrappers around outside crates are believed, and their comments say
  so. What depends on the machine comes in as plain values (facts, outputs,
  events) and goes out as plain values (steps, command lines, texts).
- `tests/` runs the library on concrete values.
- `app/` is ordinary Rust around the library: files, processes, signals,
  terminals, sockets, D-Bus.

## Modules

| Module | What it holds |
| --- | --- |
| `text`, `unix_path`, `order`, `search` | texts, paths, and the tools of the proofs |
| `duration`, `version`, `digest`, `config_text`, `debug_text` | values, and the outside crates behind them |
| `shell`, `process`, `paths`, `temp`, `store`, `lock` | quoting, commands, names, files, invocation locks |
| `cancel`, `termination`, `ui`, `progress` | interrupts, exit codes, messages, progress displays |
| `artifact_store`, `containers`, `gcp`, `syntheon` | container artifacts, runtimes, cloud tokens, build scripts |
| `managed` | managed system services |

Within `managed`: `product`, `unit_text`, `manifest` and `release` say what a product is and
which releases it accepts; `journal`, `installation`, `preparation`,
`transaction`, `operation` and `recovery` describe installations, how they are
undone, and prove that an interrupted one is; `job`, `worker`, `builder`,
`user_install` and `user_program` build and roll out a release; `protocol`,
`client`, `server`, `agent`, `activation`, `account`, `systemd` and `lifecycle`
connect it to the system.

The functions named `law_...` state what holds of several functions together.

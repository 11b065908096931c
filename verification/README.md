# agentns-launch

Launches a command inside an agent namespace so that
`/proc/$PID/agent_session` reads a stable id from the first instruction the
process runs, and exports `AGENTNS_SESSION_ID`, `AGENTNS_INTENT` and
`AGENTNS_MODE` to the child.

## Layout

- `src/` — the verified library:
  - `budget.rs` — the `--budget` spec parser (`wall=3600s,syscalls=1e7,write_bytes=10G,fork=1000`),
    with the law that an accepted spec records every entry exactly once;
  - `unshare.rs` — validation of the kernel's session id, synthesis of the
    fallback id `[uid:u32][btime:u32][monotonic_ns:u64]` as 32 hex digits
    (injective, and accepted by the validation unless all inputs are zero),
    the error mapping of the namespace `prctl`, and `/proc/stat` boot-time parsing;
  - `assay.rs` — reading `verdict.type` from `assay agentns --json`;
  - `mock.rs` — mock-mode resolution (mock file wins over the override variable);
  - `launcher.rs` — argument checks and the precedence ladder
    (mock → `--no-unshare` → kernel surface → assay gate → `prctl`), as a
    step function proved to follow the ladder;
  - `text.rs` — whitespace, trimming, search and integer parsing on characters.
- `app/` — the command-line program: argument parsing, environment, files,
  the assay process, the raw `prctl` calls and `exec`.
- `tests/` — behaviour on concrete inputs.

## Usage

```sh
agentns-launch --intent <tag> [--budget <spec>] [--no-unshare] [--verbose] -- <cmd> [args...]
```

Mock mode: set `AGENTNS_SESSION_ID_OVERRIDE=<id>` or write an id into
`/tmp/agentns-mock` (the file wins).

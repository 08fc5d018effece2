# munin

The decision core of Munin, a dual-engine browser automation framework: a
fast reflex engine (System 1) acts on high-confidence decisions and a slow
planner (System 2) arbitrates the rest.

## Layout

- `src/` — the library, verified with Verus. DOM candidate modelling and
  pruning, form and overlay heuristics, the recovery memory, the
  confidence-gated step decisions of the supervisor, the scenario language,
  HTTP framing and JSON-RPC request decoding, planner prompts and replies,
  and in-memory drivers and engines for tests. Confidences are basis points
  (`CONF_ONE` = 10000).
- `tests/` — tests of the library on concrete values.
- `app/` — the `munin` command: the asynchronous driver and engine traits,
  the Chrome DevTools driver, the HTTP engines, the supervisor and scenario
  loops, the JSON-RPC server, and configuration and scenario files.

Public proof functions named `law_*` state the properties that hold across
calls (read-after-write of the in-memory tables, framing round trips,
confidence gating, overlay healing before acting, the capacity, eviction
and uniqueness of the recovery memory, the ranking of pruned candidates).

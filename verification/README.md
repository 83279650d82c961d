# shikigami

The decision core of an agent harness runtime, verified with Verus.

A harness carries out agent runs: it asks a model for turns, runs the tools that the
turns call under governance, keeps every step durable, and hands the outcome to a local
queue, a control listener, a plane or another agent. The rules of all that are in
`src/`, as executable Rust with `requires` and `ensures` contracts, and the properties
that span several functions stand there as public proof functions.

## Layout

- `src/run*`: a run, from the checks before it to its end: the session and its
  checkpoint, model turns, tool batches and their reports, content turns, the ending.
- `src/registry.rs`, `src/metrics.rs`, `src/events.rs`: what is kept of runs.
- `src/replay*`: replay evidence, its bindings, its export and its comparison, and what
  the digests tell apart.
- `src/serve*`: the queue, the serve loop and the control protocol.
- `src/plane_intake*`, `src/plane_host.rs`: work that a plane hands out under a lease.
- `src/mcp*`: MCP framing and protocol, as a client and as a server.
- `src/sandbox*`: the rules and filters that tool children are held to.
- `src/model.rs`, `src/prompts.rs`, `src/content.rs`, `src/config.rs`, `src/tools.rs`:
  the data that the others work on.
- `src/text.rs`, `src/json.rs`, `src/canonical.rs`, `src/digest.rs`, `src/ids.rs`:
  texts, JSON, canonical forms, digests and identifiers. The calls into `serde_json`,
  `sha2` and `uuid` stand here, each behind a small function whose contract is
  trusted.
- `app/`: files, sockets, processes and clocks. It performs what the library decides
  and hands back what happened.
- `tests/`: the library from outside.

Where the outside work of a procedure cannot be done by a plain call, the library has a
stage machine for it: a function from the stage and what happened to the next stage. The
application runs the loop. What holds over a whole run of the loop is stated over the
trace of its stages.

# slurm_assistant

A local server and command-line client for working with Slurm clusters over
SSH: connections and sessions are kept in SQLite, commands run locally or
through `ssh`/`scp`, and the output of `squeue`, `sinfo` and `scontrol` is
turned into structured replies and readable tables.

The crate is written in Verus. The parsing, the rules and the text the
programs produce live in `src/` and are verified against their contracts:

- `text`, `order`: character sequences, splitting, trimming, numbers, and the
  order of names.
- `proto`, `error`: the records exchanged between client and server, and the
  errors with their messages.
- `commands`, `programs`: the Slurm command lines and the `sh`/`ssh`/`scp`
  invocations, with job-id and script-path checks.
- `jobs`, `gpu`, `client`, `partition`: reading `squeue`, `scontrol show node`
  and `sinfo` output into jobs, GPU nodes and the partition overview, and the
  order in which a command runs its remote queries.
- `store`: connection ids, stored names, normalized values, request checks and
  the summary of active sessions.
- `server`: access checks, error replies, process outcomes, replies built
  from command output, the steps of a resource node's health check, and the
  steps by which the client makes sure a current server runs.
- `paths`: where the data directory is.
- `render`: every text listing the client prints.
- `pattern`: regular-expression captures, computed by the `regex` crate.

`app/` holds what runs around it: the HTTP server (axum), the SQLite store
(rusqlite), process spawning, the HTTP client (reqwest), the command line
(clap) and the JSON forms of the records (serde). It also keeps the order in
which sessions are read from the store (latest seen first), which the session
summary relies on to name each connection's current session; the loops that
wait, sleep and retry run there too, taking each decision from `src/`. Run as
`slurm-server` the binary serves; under any other name it is the client.

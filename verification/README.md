# cloud-sql-tracker

A stateless control plane for several Google Cloud SQL Auth Proxy processes,
each a transient unit of the systemd user manager with a fixed local port. It
starts, stops and restarts proxies, reports on them, dumps their journals and
examines the environment they need.

`src/` is a library verified with [Verus](https://github.com/verus-lang/verus).
It decides and does no I/O:

| module | decides |
|--------|---------|
| `config` | how a config document is merged and validated |
| `model` | the shared vocabulary, and how ids become unit names |
| `reconcile` | a Connection's health, by a truth table over unit and port |
| `commands::select` | which Connections a selector names |
| `commands::status` | the Status document |
| `commands::mutate` | every step of a start, stop or restart, as a state machine |
| `commands::doctor`, `env`, `journal`, `supervisor`, `port` | the checks, and what outcomes of the outside world mean |
| `commands::logs` | which journal is dumped |
| `cli` | what is printed, and the exit code |
| `clock`, `text`, `paths` | calendar, text and path primitives |

Besides its contracts, each module states what holds of it as a whole in public
proof functions: that parsed configs are valid and valid ones parse, that a
start succeeds only where the Connection was seen to run, that a restart stops
first, that waits end by their deadline, that batches end with a known exit
code, and so on.

`app/` is the program around the library: arguments, files, the session bus,
sockets, child processes and JSON.

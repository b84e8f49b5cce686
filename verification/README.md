# buzz_device

The Aquarium device-command host and its controller, with the protocol and
decision logic written in Verus and proved against its contracts.

* `src/` — the verified library:
  * `device`, `coord`: request ids and freshness, grants, relative-path
    grammar, parameter fingerprints; coordination phases, peers, budgets.
  * `json`, `canonical`, `digest`: JSON values with a mathematical model,
    canonical text (members sorted by key), SHA-256 hex digests.
  * `journal`, `service`: the request journal (one row per request id) and
    the host's decisions — gate, replay, conflict, rejection, the mutation
    the host runner must perform, and its recorded outcome. Every stored row
    is also handed over for persistence, in order, before the host acts.
  * `assignment`: the assignment journal and the decision for each inbound
    coordination event.
  * `wire`, `control`, `adapter`, `desktop`: request and receipt bodies,
    event tags, controller requests, desktop records.
  * `mux`, `paths`, `checkout`, `session`: the fan-out fixture's frames, the
    path fence, the order of the steps that create a git worktree, agent
    sessions.
  * `linear`: the desktop's Linear client decisions; the API key never
    reaches a returned record.
* `tests/` — scenario tests against the compiled library.
* `app/` — the `buzz-device` program: command line, relay and WebSocket
  I/O, NIP-44 events, files on disk, git and agent processes.

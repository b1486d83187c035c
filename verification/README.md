# tailtask

A desktop companion for a Tailscale network: it lists the devices of the
network, opens Windows remote desktop sessions to them, pairs a controller
with an agent on another device, and lets the controller run commands and
scripts there with durable task records, logs, cancellation, timeouts and
resumable result downloads.

## Layout

- `src/` is the verified library, written in Verus. Every executable
  function there carries a contract that Verus proves; the laws that span
  several functions are public proof functions beside them.
  - `remote_model`, `environment`: remote requests, their limits and their
    idempotency hash material.
  - `access`: pairing sessions (five minutes, single use, five wrong
    secrets) and controller tokens.
  - `agent_tasks`, `controller`, `service`: the agent's task state machine,
    admission and recovery; the controller's submission history; the
    agent's HTTP decisions.
  - `artifacts`, `download`: result-file limits and byte ranges; the
    SHA-256 list entry of each copied result file and the digest check of a
    resumed download, both computed over the bytes fed through them.
  - `tailscale`, `model`, `rdp`, `identity`, `desktop`: reading the network
    status, device records, remote desktop targets, agent configuration
    and pairing offers.
  - `runner`: a worker's final state, what a cancel does, and the output
    budget with its one truncation event.
  - `autostart`, `lifecycle`, `worker`, `schema`: registration files, the
    local agent's start-up, the worker's command line and the database
    schema history.
  - `outside`: the trusted declarations of the outside crates the library
    calls (hashing, UUIDs, randomness, constant-time comparison, PEM,
    certificate generation, JSON, Unicode case mapping and the clock); `text` and `json` hold the
    verified helpers on strings and JSON values.
- `tests/` runs the library on concrete values.
- `app/` is the unverified shell: the command line, SQLite storage, the
  HTTPS service and client, process management and credential storage. It
  hands plain values to the library and acts on what comes back.
  `app/desktop.rs` holds the desktop window's commands as plain functions;
  the window itself is not part of this build, so the command line is the
  only entry point.

# acp_agent

Agent-side bridge of ACP over P2P: a remote console connects over the
`/dsh-acp/1` protocol and drives a local ACP agent child; other hosts reach
local agents over `/a2a/1` (cards, invitations, tasks).

## Layout

- `src/` — the verified library (Verus). Each module models its data with a
  view and states its operations as contracts over it:
  - admission: `tally`, `gate` (connections), `limits` (A2A tasks);
  - the ACP connection: `router` (attach, reattach window, exit), `reattach`
    (per-session update cache), `permission` (the permission waterfall),
    `mcp` (the `mcpServers` rewrite, read and re-written with `serde_json`
    through `json`), `slots` (reattach tickets), `jail`
    (working directories), `peers`;
  - the A2A face: `agents`, `grants`, `invites`, `card` (card phase and
    invitations), `task` (task phase and registry), `bridge` (the task
    bridge's prompt state), `chunk` (chunk to part), `publish` (rendezvous
    addresses and the cards each heartbeat pushes);
  - configuration and admin: `config`, `workspaces`, `share`, `admin`
    (HTTP head framing and parsing), `audit`, `stub` (the echo child's
    command line).
  Public proof functions state the laws that span operations.
- `tests/` — runtime tests of the library.
- `app/` — the program around it: command line, configuration file, log,
  P2P node, sockets, child processes and persistence.

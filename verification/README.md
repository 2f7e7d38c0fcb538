# auto_discovery

Nodes on a local network announce a pairing service over mDNS, browse for
each other, and pair by a small line protocol: the client sends a code, the
server answers `OK`, `TASKS <n>` and the task names, or `FAIL`.

`src/` is the library, with the contracts and proofs of its logic:

- `text` — trimming, decimal rendering and parsing, prefixes;
- `protocol` — the pairing request and reply, the client's state machine, and
  the proof that a client reads back the server's task names, trimmed, when
  the codes match;
- `discovery` — the table of peers a browse finds;
- `listener` — port choice and the pairing listener's state machine;
- `node` — a node and the plan for its announcement;
- `record`, `advertise` — the mDNS service record and what it holds;
- `config`, `tui` — configuration and the terminal front end's state.

`app/` performs the I/O: sockets, the mDNS daemon, threads, the configuration
file and the terminal. Run it with no argument for the front end, with
`--broadcast NAME` to announce a node and wait for a peer, with `--runner` to
announce the node `davinci`, or with `--search` to find a peer and pair with
it.

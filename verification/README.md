# wgd

A command-line WireGuard client for macOS around a privileged daemon that keeps a
store of connections. Users add configurations to the store; the daemon brings
them up and down, and a per-user agent does so at login and logout.

What may happen is decided in a verified library; what does happen is done by a
thin shell around it.

## Layout

- `src/` is the library, verified with Verus. A request or a command is a state
  machine: it names the next operation on the machine and what it will wait for,
  and goes on from the answer.
  - `privileged/` answers the daemon's requests: who may do what, when admin
    credentials are needed, what the store is told.
  - `launchd/` installs, restarts and uninstalls the daemon.
  - `session_agent/` installs and runs the per-user agent.
  - `connection_cli/` holds the commands on stored connections.
  - The `laws` modules state what holds of whole requests and commands, whatever
    the machine answers.
- `app/` carries the operations out: files, programs, signals, users.
- `tests/` runs the library against machines in memory.

## What is trusted

Three functions of the library have contracts that are not proved:
`text::quote` (the standard library's quoted form of a text), and
`identity::effective_uid` and `identity::real_uid` (the operating system's word on
who runs the process), of which nothing is claimed.

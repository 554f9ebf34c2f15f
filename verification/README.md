# pam_daemon

The decisions of the PAM daemon as a Verus library, and the daemon around it.

`src/` is the library. Every function is verified against its contract, and
nothing in it performs I/O. Where the daemon alternates work and decisions, the
library holds the decisions as a step from phase and event to the next phase and
action; the laws about whole runs are proof functions named `law_...`.

- `protocol`, `identifiers`, `policy`, `intake`, `answers`: requests, what they
  are authorized as, and how they come in
- `serve`, `messages`, `targets`, `leased`: serving, watching callers, requests
  about other requests, and claimed work
- `flow`: submission, the workspace and its fingerprint, command and connector
  steps, and the run itself
- `models`, `model_cell`, `admission`: models and the memory they need
- `connectors`, `connector_admin`: built-in connectors and their credentials
- `brief`, `ptrack`, `observe`: what callers are told of projects and the host
- `reset`: scoped and factory resets, and what they leave
- `logging`, `calendar`, `endpoint`, `error`: the log, the daemon's endpoint and
  its errors
- `text`, `split`, `bytes`, `numbers`, `ordered`, `paths`, `digest`: the ground
  that the rest stands on

What is taken on trust is small: `String::push` and `core::str::from_utf8` in
`text`, and the SHA-256 hasher of the `sha2` crate in `digest`.

`app/` performs what the library asks for: sockets, files, processes and the
services behind the traits of its `ports` module.

`tests/` runs the library on concrete values.

# project

The logic of a code editor's project, verified with Verus: its git repositories, its language
servers and the requests made of them, the environments of its terminals, its context servers
and its agent registry.

- `src/git_store/` keeps the repositories of a project, their statuses, diffs and branches, and
  the queue of git jobs. Everything that has to be done outside comes back as a value.
- `src/lsp_store/` decides which language servers run for which buffers, what they are sent and
  what becomes of what they send.
- `src/lsp_command/` holds the requests to language servers and the forms in which answers
  travel.
- `src/environment.rs` and `src/terminals.rs` decide in which environment a command runs.
- `src/context_server_store.rs`, `src/agent_registry_store.rs` and `src/session.rs` are small
  stores of their own.
- `app/` holds what touches files and processes.

A contract speaks of views: paths are sequences of components, texts are sequences of
characters, stores are maps. Laws that relate several functions are public proof functions
beside them.

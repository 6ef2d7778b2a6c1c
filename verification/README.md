# Animus protocol

Wire types of the Animus protocol family, and the rules that go with them,
written in Rust and proved with Verus.

- `src/` is the library. Every function in it has a contract that Verus proves.
  - `config/`: workflow configuration. Interpolation of environment variables,
    diagnostics, conversion between YAML and the configuration, layering of agent
    profiles, merging of files, expansion of workflow references and variables,
    redaction of secrets, prompt files.
  - `control/`: the daemon's control surface. Methods, messages, errors, and the
    routing of frames on the control socket.
  - `execution.rs`, `environment.rs`, `journal.rs`, `durable_store/`, `chat/`,
    `agent_runner/`, `application.rs`, `actor.rs`: the roles that plugins play
    and the values that clients see.
  - `schema.rs`: bundling of JSON Schema documents.
  - `text.rs`, `text_map.rs`, `lists.rs`, `json.rs`, `rpc.rs`, `time.rs`: what the
    others build on.
- `tests/` runs the library.
- `app/` is ordinary Rust around the library: files, sockets, and the forms of
  the types that serde reads and writes.

Laws that relate several functions are public proof functions, next to the
functions that they speak of. What is taken from `serde_json`, `serde_yaml` and
the standard library without proof is marked `external_body` or
`assume_specification`, with a comment on what is claimed.

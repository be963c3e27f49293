# Open Forge

The core of an AI-first game creation platform, verified with Verus.

- `src/` is the library. Every function in it carries a contract that Verus
  proves: the forge core's records and REST decisions (`state`, `routes`,
  `error`), authentication (`auth`), the message bus (`bus`), the extension
  registry (`registry`), scene validation (`script`), the asset store
  (`assets`), the build pipeline's files (`pipeline`), and the light
  runtime (`scene_runner`, `renderer`, `canvas`, `runtime`). `table` is the
  insertion-ordered map they are built on, `json` the model of free-form
  JSON parameters, and `laws` the properties that span several functions.
  Calls into chrono, uuid, jsonwebtoken, serde_json and serde_yaml stand
  behind a few trusted wrappers whose contracts say what those crates do.
- `app/` is the service around it: the axum servers, the WebSocket event
  stream, file persistence, the JSON and YAML encodings of the records, the
  floating-point parts of the runtime, and the extension traits that game
  code implements.
- `tests/` runs the library on concrete values.

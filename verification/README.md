# edge_runtime_core

The decisions of an edge runtime for JavaScript workers, written in Verus
and proved against their contracts: how user workers are pooled and
supervised, how the server exits, how requests and connections are
handled, and the data exchanged with workers.

- `src/` is the verified library. Each module states its model as spec
  functions; the files ending in `_laws` hold what holds across operations.
- `tests/` runs the library on concrete values.
- `app/` is the command-line program around it: argument parsing, files,
  the environment, HTTP header maps, `serde_json` values and tokio I/O.

# lao_orchestrator_core

The decision-making core of the LAO workflow orchestrator, written in Verus: every
function in `src/` carries a contract, and the verifier proves all of them but the few
marked `#[verifier::external_body]`, which wrap single calls into std, `uuid`,
`chrono` and `serde_json` and whose contracts are trusted.

- `src/` — the verified library: workflow graphs and their topological order, step
  conditions and retries, the plugin-step and model-step state machines, the trust policy and lexical path checks, workflow state and
  the scheduler, the plugin registry and descriptors, model routing, the model registry,
  benchmark evidence, prompt assembly, the code-graph provider's reading of what its
  tool gave back, cache keys, platform and power rules, and the text a few commands
  print.
- `tests/` — ordinary Rust tests of the library on concrete values.
- `app/` — the unverified glue a host needs around it: reading and writing
  configuration and state files, running the code-graph provider's process, the clock
  and host facts, YAML/TOML/JSON parsing into library types, and the few rules that
  work on floating-point values.

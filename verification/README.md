# rust_workflow_engine

A verified library for a multi-role release workflow: role state machines and
their orchestration, blackboard artifacts, gate checks and reports, batch
instructions with nesting and hash chains, caches and throttling primitives,
and authorization and threat-detection decisions.

- `src/` holds the library. Every function there is checked by Verus against
  its `requires`/`ensures` contract. Calls into outside crates (serde_json,
  jsonschema, sha2, crc32fast, chrono, prometheus, num_cpus, urlencoding) and
  reads of the clock go through small trusted wrappers whose doc comments say
  what is assumed of them.
- `tests/` runs the library on concrete values.
- `app/` is the command-line program around it: environment and file access,
  starting the agent process, and writing reports.

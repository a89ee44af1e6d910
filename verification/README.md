# context_harness

A verified library for repository-intelligence context harnesses: it analyses
a coding task, scores agent runs against labelled tasks, renders and parses
the prompt fragments that route an agent to the files it should edit, and
decides when the large-read and search proxies substitute a compact answer
for a raw command.

Every function in `src/` is verified with Verus against a contract stated
over mathematical models (`Seq`, `Set`, `Map`, `int`). Calls into outside
crates (`serde_json`, `shlex`) and into a few std functions stand behind
small trusted wrappers whose contracts are documented where they are
declared.

Layout:

- `src/harness/`: task terms, classification, ownership and task scope,
  render levels, budgeting, agent-run scoring and reports, prompt fragments
  and their round trip, exec event streams, and the laws that tie them
  together.
- `src/large_read/`, `src/intercept.rs`: command classification, slicing and
  rendering for the large-read proxy, and the decision steps of both proxies.
- `src/extension/`: the task text and prompt hints of the turn contributor,
  and the run-memory bridge.
- `src/cli.rs`, `src/telemetry.rs`: treatment-arm and artifact-layout
  rules of the evaluation commands, and the proxies' counters and summary.
- `src/json.rs`, `src/text.rs`, `src/sorted.rs`: JSON values, text and
  sorted-set helpers with their specifications.
- `app/`: command-line glue, the JSON shapes of records and reports, file
  reading for the proxies, and the float arithmetic of the metrics.
- `tests/`: tests of the library on concrete values.

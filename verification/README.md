# design_patterns_agent

Finds latent invariants in Rust codebases (implicit protocols, ordering
requirements and state dependencies that the type system does not yet
enforce) by asking a language model about chunks of the code, and
translates C2Rust programs into idiomatic Rust with build-and-test
feedback.

The library in `src/` is verified with Verus:

- `parser/` — source files to items and a module graph (single crate or
  workspace), with tolerant parsing through `syn`.
- `navigation/` — breadth-first exploration of the module graph, analysis
  chunks cut to a token budget, priority ordering.
- `search/` — semantic-search queries, grouping and merging of hits into
  source windows.
- `detection/` — prompts, reading of the model's answers (JSON or text),
  noise filters, citation checks, validation of findings.
- `report/` — the report, deduplication, markdown rendering.
- `llm/` — retry decisions and back-off, token accounting.
- `agent/` — progress bookkeeping, checkpoints and budget.
- `translation/` — program discovery, prompts, the attempt state machine,
  feedback, test and clippy output, the run report.

`app/` holds the command-line program: argument handling, file and network
I/O, the model clients, subprocesses, and the loops that carry out what the
library decides.

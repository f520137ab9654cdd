# sigma-rs

A Sigma rule engine whose core is verified with Verus: rules are parsed into
detection trees, events are matched against them, and every step states in
its contract what it computes.

## Layout

- `src/` — the verified library.
  - `lexer`, `parser`: condition text to tokens, tokens to a tree; the
    parser's result is proved to denote the condition's meaning.
  - `ast`, `tree`: the detection tree, its evaluation and its laws
    (reduction and negation keep the meaning); `ast::tiered_compiler` sorts
    rules into evaluation tiers.
  - `pattern`: string, numeric, glob, regex, grouped and columnar matchers,
    their construction from rule values, escaping, whitespace handling and
    the pattern interner.
  - `rule`, `ruleset`, `result`, `engine`: rules and their validation, the
    set of loaded rules and its counts, match results.
  - `event`: the event traits, simple and JSON-backed events, and a builder.
  - `batch`: evaluation of grouped patterns over batches of events.
  - `json_to_arrow`, `arrow_event`: which JSON lines go into Arrow record
    batches, how they are cut into batches and written for the decoder,
    what a schema is inferred from, and the fields of an event schema.
  - `consumer`: the decisions of the message consumer — backpressure
    accounting, shutdown, retries, client properties, the round-robin
    distribution of tasks with a circuit breaker per worker, and batching —
    each a step that the caller repeats around its waits.
  - `service`: health checks, request authorization and evaluation answers.
  - `text`, `clock`, `fmt`, `error`: shared text lemmas, the clocks, and
    errors.
- `app/` — the `sigma-rs` command and the I/O around the library: reading
  rule files and directories, JSON and YAML conversion, a ruleset shared
  between threads, the process-wide interner, and the Arrow record batches
  (decoding, column access, filtering), whose types the verifier cannot
  hold.
- `tests/` — tests of the library through its public interface.

The glob, regex and Aho-Corasick engines, the clocks, random identifiers and
the CPU count come from their crates through small trusted functions whose
contracts say what the library relies on.

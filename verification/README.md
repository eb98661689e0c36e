# workweave

The decision logic of the WorkWeave execution engine, verified with Verus.

- `src/` — the verified library:
  - `runtime`, `service`, `store`, `types`: the execution lifecycle, the
    reducer of an execution's event history, the planning of lifecycle
    actions and the store's mutation rules;
  - `provider`, `assembler`, `finalize`, `recorded`: the normalized model
    stream, the fail-closed response assembler, and the recorded provider's
    script;
  - `tools`: tool identities, the registry, JSON-schema compilation and
    validation, argument digests, and the preparation of a model tool call;
  - `agent`: the Agent's durable history, its grammar and the recovery
    reducer, and the Agent store's validation rules;
  - `sqlite`: migration planning, failure classification, the reading back of
    stored rows, and the decisions of the coordinated run creation;
  - `ids`, `json`, `text`, `idmap`: identifiers, JSON documents, texts and an
    insertion-ordered map.
- `tests/` — tests of the library on concrete values.
- `app/` — the `ww` command line and everything around the library that does
  I/O: SQLite statements, the asynchronous execution service, artifact files,
  streams, and serializable copies of the durable types.

# golden_bridge

The bridge from the legacy schema corpus to the stringless Core model. A parsed
legacy types block goes in; a migration comes out: the declarations of the
migrated subset (newtypes and structs over scalar and plain references), the
ordered requests to the name table, and a named exclusion for every declaration
beyond the subset (generic applications, enums, pipe-text, inline field
declarations, the `Path` scalar).

- `src/` is the verified library (Verus). `ingest.rs` states the translation as
  spec functions and proves the executable ingestion against them; `laws.rs`
  proves what holds of every migration.
- `app/` parses legacy text with `schema-language`, converts the parsed source
  into the library's model, and replays a migration into `core-schema` and
  `name-table`.
- `tests/` runs the library on concrete sources.

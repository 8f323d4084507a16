# pg_migration_lint

A safety linter for PostgreSQL schema migrations, verified with Verus.

Migrations are parsed by libpg_query into a parse tree, converted into a
small intermediate representation (IR), and checked by rules that know the
schema as the earlier migrations left it. Each rule flags one risky pattern:
an index built without `CONCURRENTLY` on a table that already exists, a
column type change that rewrites a table, a `DROP COLUMN` that silently takes
a unique constraint or a foreign key with it, and so on.

## Layout

- `src/parser/syntax.rs` — the parse tree as libpg_query reports it, limited to
  what the conversion reads.
- `src/parser/convert.rs` — the conversion of statements into the IR, each
  function specified against the tree it reads.
- `src/parser/source.rs` — statement spans, line numbers and the handling of
  sources that do not parse.
- `src/parser/ir.rs` — the IR and its mathematical views.
- `src/catalog.rs` — the schema catalog the rules consult.
- `src/rules/` — rule identifiers, findings, the lint context, the shared
  checks (`alter_table_check`, `column_type_check`, `drop_column_check`,
  `existing_table_check`) and the rules themselves (`checks.rs`), each rule
  specified statement by statement.
- `src/pipeline.rs` — linting a sequence of migration units.
- `src/text.rs`, `src/paths.rs` — strings and paths.
- `app/` — running libpg_query on SQL text and serializing findings.
- `tests/` — tests of the library.

The laws the library keeps (a rule looks at one statement at a time, tables
created in the change are exempt from locking rules, down migrations report
at `Info`, deduplication keeps the first finding per key, and others) are
stated and proved as public proof functions next to the code they speak of.

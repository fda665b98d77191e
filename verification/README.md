# greptime_sql

A verified parser for SQL `DROP` statements (`DROP TABLE`, `DROP VIEW`,
`DROP FLOW`, `DROP DATABASE`/`SCHEMA`, and a `DROP TRIGGER` parser) with their `IF EXISTS` flag and DDL
options (`WITH (timeout = ..., wait = ...)`), and the error type of the log
query planner with its status codes.

Layout of `src/`:

- `token.rs`: tokens as plain values; the text is tokenized by `sqlparser`.
- `grammar.rs`: the grammar as spec functions over token sequences.
- `parser.rs`, `drop_parser.rs`: the executable parser, proved to follow the grammar.
- `ast.rs`: statements, names, option maps and their SQL text.
- `laws.rs`: properties of parse results.
- `shift.rs`: parsing depends only on the tokens it reads (used by the laws).
- `log_query.rs`: planner errors, their status codes and messages.
- `text.rs`, `error.rs`: string helpers and parse errors.

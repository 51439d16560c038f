# partiql_winnow_parser

A PartiQL query parser and the date-time functions of its evaluator,
written in Verus with their contracts proved.

- `src/text.rs`, `src/identifier.rs`: scanners over a `&[char]` input:
  blanks, case-insensitive keywords with word boundaries, identifiers.
- `src/literal/`: Ion and SQL literals (strings, numbers, timestamps,
  nulls, blobs, annotations) and the list, bag, struct and `CASE`
  constructors.
- `src/expr/`: the Pratt expression parser, the comparison special forms
  (`IS`, `IN`, `LIKE`, `BETWEEN`) and the precedence-ladder strategies.
- `src/dql/`, `src/dml/`: `SELECT` with its clauses and joins; `INSERT`,
  `REPLACE`, `UPSERT`, `UPDATE`, `DELETE` and `ON CONFLICT`.
- `src/parsed_dql.rs`, `src/parser.rs`: one-call entry points, with the
  table names and unnest aliases of a `SELECT` read out of its tree.
- `src/eval/`: `CURRENT_TIME`, `CURRENT_TIMESTAMP`, `UNIX_TIMESTAMP`,
  `FROM_UNIXTIME` and `TO_STRING` on the library's own value type; the
  calendar arithmetic and formatting are left to `time`, `rust_decimal`
  and `chrono` behind trusted wrappers.
- `app/`: the system clock, conversions to and from `partiql_value`, and
  the `BindingsScan` trait that storage engines implement.

Parsers take the input as chars and a position and return the expression
with the position after it. Every node gets a fresh id from a
`ParseContext`; the contracts state which ids a result holds.

The expression grammar is written down as spec functions in
`src/expr/pratt.rs`: `spec_bp` reads an expression by binding power into
a `Tree` (atoms, operators, parentheses, function calls, list and bag
constructors, the special forms), and `spec_steps`, `spec_items` and the
clause specs in `src/dql/` and `src/dml/` do the same for paths, lists
and clauses. A path in the middle of an expression, `CASE` and struct
constructors are not in `spec_bp`: there the contracts say less. Where the
input is in that grammar and the counter before the call leaves room
for the nodes that the grammar's tree needs (its size, counted by
`tree_size` and the like), the parsers' contracts say that they
succeed, where they stop, that the result has the grammar's tree and
how many ids were taken.

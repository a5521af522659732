# minuto_compiler

The front end of a compiler for Minuto, a small C-like teaching language:
a lexer, a recursive-descent parser, a name resolver and the diagnostics they
report, written in Verus and proved against their specifications.

Layout:

- `src/lexer/` — the lexical grammar (`scan.rs`), tokens and the lexer.
- `src/parser/` — the grammar as spec functions (`spec.rs`, `state.rs`), the
  parser that follows it, and laws on operator precedence for any operands,
  parentheses, `->`, the closing `>` of type arguments and the order of
  declarations (`laws.rs`).
- `src/resolver/` — name resolution as spec functions (`spec.rs`), the
  resolver that follows it, and laws on scoping, the entry point, what
  resolution keeps and binds, what it reports and where it reports loops
  (`laws.rs`, `erase.rs`, `bound.rs`, `names.rs`, `reports.rs`, `loops.rs`).
- `src/ast/`, `src/common.rs` — syntax trees, symbols and their views.
- `src/diagnostic.rs`, `src/errors.rs` — error codes, messages and
  diagnostics.
- `src/pipeline.rs` — passes and their composition, run in turn.
- `app/` — a small driver that runs the front end and renders diagnostics
  with `ariadne`.

# promql_compose

Typed PromQL expressions (`Expr`, `Selector`, `LabelMatcher`, `MatchOp`,
`AggrMod`) and their canonical text, verified with Verus.

- `src/text.rs` — string literals and escaping, comma lists, decimal and
  hexadecimal digits, as spec functions with the code that writes them.
- `src/ast.rs` — the syntax tree, its mathematical views, and rendering:
  `Selector::to_string` and `Expr::to_string` are proved to produce exactly
  `SelectorView::text` and `expr_text`; `expr_view` gives the content of an
  expression node by node.
- `src/promql.rs` — the `PromValue` trait with its impls for strings, `bool`,
  integers and `uuid::Uuid`, and `push_matcher` / `push_opt_matcher`.
- `src/laws.rs` — properties of the rendered text that hold for every input
  (literals read back, syntax equivalences, `__name__` handling, decimals).
- `app/lib.rs` — the `promql!` and `promql_match!` macros and `scalar_arg`,
  which turns an `f64` into the text of an `Expr::Scalar`.

Number literals are held as their PromQL text (`Expr::Scalar(String)`), so the
library itself never formats floating-point values.

//! Typed PromQL expressions and their canonical text.
//!
//! Selectors, function calls, aggregations and binary operations are held
//! as an [`Expr`] tree, which renders to canonical PromQL text. Label values
//! come from Rust values through the [`PromValue`] trait.

pub mod ast;
pub mod laws;
mod promql;
pub mod text;

pub use ast::{
    is_legacy_promql_ident, AggrMod, AggrModView, Expr, ExprView, LabelMatcher, MatchOp, MatcherView, MetricNameSyntax, Selector, SelectorView,
};
pub use promql::{push_matcher, push_opt_matcher, uuid_bytes_of, PromValue};

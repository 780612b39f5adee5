//! Type checking: every expression is annotated with its type.
pub mod types;
pub mod inference;
pub mod context;
pub mod infer;
pub mod typecheck_expr;

//! Type inference over an arena of types merged by unification.
pub mod context;
pub mod infer;

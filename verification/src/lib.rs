//! Type-inference core of a small functional language: type terms, a
//! substitution algebra, structural unification with an occurs check, and a
//! constraint-generating traversal of name-resolved programs.

pub mod ast;
pub mod check;
pub mod env;
pub mod infer;
pub mod model;
pub mod prog;
pub mod render;
pub mod subst;
pub mod unify;
pub mod term;

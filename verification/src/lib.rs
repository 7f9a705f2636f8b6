//! An embeddable evaluator for a small Lisp-family scripting language.
//!
//! Source text is parsed into an [`Expression`] tree, and evaluated against
//! an [`Environment`] that holds registered builtin functions and a stack of
//! call frames. Every operation returns a value or an [`Error`]; the
//! contracts below state, over the mathematical models of the types, exactly
//! which.

pub mod environment;
pub mod display;
pub mod error;
pub mod laws;
pub mod parser;
pub mod eval;
pub mod roundtrip;
pub mod semantics;
pub mod expression;

pub use environment::Environment;
pub use environment::SpecEnv;
pub use error::Error;
pub use expression::Builtin;
pub use expression::Expression;
pub use expression::FnBody;
pub use expression::SpecExpr;

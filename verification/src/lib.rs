//! The front end of a small C compiler: a token-level macro preprocessor,
//! a semantic analyzer and a generator of three-address intermediate code.
//!
//! Every pass is a function of plain values. The state a pass needs (the
//! macro table, the scope chain, the register and label counters) lives in
//! a value that the caller owns, so two compilations never interfere.
//!
//! The passes are in [`preprocess`], [`sema`] and [`gen_ir`]; [`dump`]
//! shows the intermediate code as text. What is proved of their results
//! beyond their contracts is in [`typed`] (the analyzed tree),
//! [`registers`] (registers and labels), [`liveness`] (which registers
//! are dead) and [`machine`] (what `&&` and `||` do when they run).

pub mod ast;
pub mod dump;
pub mod env;
pub mod error;
pub mod gen_ir;
pub mod liveness;
pub mod machine;
pub mod macros;
pub mod preprocess;
pub mod registers;
pub mod sema;
pub mod text;
pub mod token;
pub mod typed;
pub mod types;

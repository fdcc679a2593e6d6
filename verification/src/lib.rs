//! A tree-walking, type-checked interpreter for R-Python, a small imperative
//! teaching language with explicit runtime types.
//!
//! The crate covers the typed evaluation engine: the value and type model
//! ([`ast`]), the variable store ([`env`]), the expression evaluator and the
//! statement executor with its control-flow propagation ([`interpreter`]),
//! the rendering of values as text ([`fmt`]), a small recursive-descent
//! parser for the language's surface syntax ([`parser`]), and the
//! string-in, string-out entry points that the front ends drive ([`front`]).
//! The meaning of every construct is fixed by a definitional interpreter
//! written as specification functions ([`semantics`]), and the executable
//! engine is proved to agree with it; [`laws`] states the general properties
//! of the semantics as proved theorems.

pub mod ast;
pub mod decimal;
pub mod env;
pub mod fmt;
pub mod front;
pub mod interpreter;
pub mod laws;
pub mod parser;
pub mod semantics;

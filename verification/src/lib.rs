//! Name inference for anonymous function and class expressions.
//!
//! Older runtimes do not give `var f = function () {}` the name `f`. This
//! library rewrites a syntax tree so that such expressions carry the name
//! that their place in the program implies: the key of an object property,
//! the variable of a declarator, the target of a plain assignment.
//!
//! - [`ast`]: the syntax tree and its model.
//! - [`prepare`]: making an identifier fit to be a name.
//! - [`usage`]: whether a sub-tree mentions an identifier.
//! - [`renamer`]: carrying one candidate name to the expression it is for.
//! - [`pass`]: the pass over a whole tree.
//! - [`laws`]: what holds of the pass on every tree.

pub mod ast;
pub mod laws;
pub mod pass;
pub mod prepare;
pub mod renamer;
pub mod usage;

//! Front end of tahini, a small statically typed language written in Lisp
//! syntax.
//!
//! [`parser`] turns source text into declarations, [`transformer`] rewrites
//! chained `$` accesses into a flat form. What each function returns is
//! stated over the mathematical models of [`model`] and the grammar of
//! [`type_grammar`], [`stmt_grammar`] and [`unit_grammar`].
//!
//! What holds of every input is proved in [`laws`], [`well_formed`] and
//! [`spacing`]: among it, that no struct or data type comes out of the
//! grammar with a name twice, and that whitespace between tokens counts for
//! nothing.
//!
//! Parsing recurses once for each level of nesting in the input, so text that
//! nests very deeply can exhaust the call stack.

pub mod ast;
pub mod model;
pub mod duplicate;
pub mod text;
pub mod outcome;
pub mod type_grammar;
pub mod type_parser;
pub mod stmt_grammar;
pub mod stmt_parser;
pub mod unit_grammar;
pub mod unit_parser;
pub mod parser;
pub mod transformer;
pub mod well_formed;
pub mod spacing;
pub mod laws;

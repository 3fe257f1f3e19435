//! A verified model of the CSS `@supports` condition grammar: a condition
//! tree, a recursive-descent parser with verbatim fallback, algebraic
//! combinators, a vendor-prefix expansion pass, and a precedence-aware
//! printer.

pub mod combinators;
pub mod condition;
pub mod laws;
pub mod rule;
pub mod parser;
pub mod printer;
pub mod targets;
pub mod vendor_prefix;


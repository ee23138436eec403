//! Code synthesis for an LL(1) parser generator: an annotated grammar goes
//! in, the source text of a recursive-descent parser comes out.
//!
//! - [`frontend`] holds the grammar: interned names, ordered sets of them,
//!   and the rules with the lookahead sets that the analysis computed.
//! - [`backend`] writes the parser for a grammar, and the files that a new
//!   project starts from.
//! - [`semantics`] states what the parser that is written does with a
//!   sequence of tokens, and [`simulator`] runs it.

pub mod backend;
pub mod frontend;
pub mod semantics;
pub mod simulator;

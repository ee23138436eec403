//! The grammar as the back end receives it.

pub mod ast;
pub mod symbol;
pub mod token;

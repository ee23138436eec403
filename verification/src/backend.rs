//! The Rust back end.
//!
//! - [`text`] holds the operations on text that the rest is built on.
//! - [`generator`] writes lookahead sets.
//! - [`templates`] and [`regex`] write the bodies of rules.
//! - [`items`] writes the declarations around the rules, [`rules`] the rules
//!   and the parser that holds them.
//! - [`rust`] puts the parser file together.
//! - [`skeleton`] holds the files that a new project starts from.

pub mod generator;
pub mod items;
pub mod regex;
pub mod rules;
pub mod rust;
pub mod skeleton;
pub mod templates;
pub mod text;

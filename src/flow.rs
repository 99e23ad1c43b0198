//! The Flow animation language: a JSON-described program of operations over
//! dynamically typed values.

pub mod error;
pub mod literal;
pub mod duration;
pub mod ast;
pub mod validate;
pub mod operators;
pub mod scope;
pub mod interpret;
pub mod program;

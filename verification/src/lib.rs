//! A small markup parser: a cursor-driven scanner walks the input text once,
//! left to right, and builds a tree of elements, text runs and comments.
//!
//! The tree lives in `dom`, the failure cases in `errors`, the scanner in
//! `parser`. The module `model` states, over sequences of characters, what
//! the scanner computes; `props` proves the laws the parser obeys.

pub mod dom;
pub mod errors;
pub mod model;
pub mod parser;
pub mod props;

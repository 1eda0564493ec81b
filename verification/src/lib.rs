//! Annotates a markup syntax tree with source locations: every markup
//! element's opening tag receives one synthesized attribute whose value
//! records where the element originated, as `origin:line:column`.
//!
//! The crate has three parts: a source model (`source`) that resolves a
//! byte offset in a source buffer to a 1-based line and 0-based column,
//! a decimal/location formatter (`loctext`), and the annotating walker
//! (`walker`) over the tree model (`tree`).

pub mod laws;
pub mod loctext;
pub mod source;
pub mod tree;
pub mod walker;

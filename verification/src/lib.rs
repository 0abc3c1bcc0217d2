//! A CSS minifier: parses a stylesheet into a typed document tree, applies a
//! level-selected pipeline of semantics-preserving rewrites (color normalization,
//! zero-unit compression, shorthand synthesis, duplicate-block and
//! duplicate-media merging), and prints a byte-compact equivalent document.

pub mod dict;
pub mod optimizations;
pub mod parsers;
pub mod printer;
pub mod structure;
mod text;

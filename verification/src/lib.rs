//! A verified front-to-back interpreter pipeline for a small Python-like
//! scripting language: lexical analysis, recursive-descent parsing, and a
//! tree-walking evaluator over a mutable runtime environment.

pub mod interpreter;
pub mod tokenizer;
pub mod parser;

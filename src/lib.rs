//! A tokenizer for stylesheet-like source text: it turns a buffer into a
//! linear stream of positioned tokens whose raw texts, concatenated in
//! order, give back the buffer exactly.
pub mod chars;
pub mod grammar;
pub mod laws;
pub mod position;
pub mod tokenizer;

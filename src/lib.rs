//! A random program generator for an object-oriented modelling language with
//! futures: well-typed, well-scoped method bodies, the module around them,
//! and their source text.
//!
//! - `ast`: the syntax tree; `gen`: builders for its nodes
//! - `chance`: Bernoulli trials, rounded exponential counts, uniform picks
//! - `typing`: what well scoped and well typed mean for generated code
//! - `scope`: the stack of frames of typed entries
//! - `generator`: the body synthesiser and its expression layers
//! - `laws`: properties of every generated body
//! - `skeleton`: the fixed preamble and the random classes
//! - `fmt`: the pretty-printer
//! - `stats`: summaries of analyser timings over the corpus
//! - `text`: characters and digits
pub mod ast;
pub mod chance;
pub mod fmt;
pub mod gen;
pub mod generator;
pub mod laws;
pub mod scope;
pub mod skeleton;
pub mod stats;
pub mod text;
pub mod typing;

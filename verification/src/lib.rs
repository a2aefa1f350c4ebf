//! A schema-driven introspection compiler.
//!
//! Given a record definition — an ordered sequence of named or positional
//! fields, each optionally annotated with directives — this library parses
//! the per-field directives (`skip`, `value`, `link(...)`), resolves their
//! defaults, and deterministically synthesizes the text of two generated
//! procedures: a value provider that registers a reference to each exposed
//! field, and a link provider that pushes one `(key, target)` pair per link
//! entry, in field declaration order.
//!
//! The front end that reads annotations off an actual type definition and
//! hands them over as plain data, and the rendering of the generated text
//! back into a token stream, live outside this library.

pub mod digits;
pub mod model;
pub mod parse;
pub mod synth;
pub mod laws;

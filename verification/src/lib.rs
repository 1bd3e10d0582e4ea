//! A compiler for a Handlebars-like template language.
//!
//! The crate turns template source text into Rust code that, given a data
//! context, reproduces the template's output: plain text, interpolations,
//! conditional and else branches, iteration, and lexical scoping.
//!
//! The pipeline is a lazy scanner splitting the source into typed
//! expressions ([`expression`]), a tokenizer decomposing an expression's
//! content ([`expression_tokenizer`]), a scope stack resolving dotted and
//! relative variable paths, a set of block helpers driving control-flow
//! emission ([`block`]), and a driver batching everything between
//! control-flow boundaries into single merged emission instructions
//! ([`compiler`]).
//!
//! Every stage is pinned by a spec function over `Seq<char>`: the scanner
//! by [`expression::scan`], the tokenizer by
//! [`expression_tokenizer::scan_token`], and the whole compilation by
//! [`compiler::compile_spec`].

pub mod block;
pub mod compiler;
pub mod error;
pub mod expression;
pub mod expression_tokenizer;
pub mod text;

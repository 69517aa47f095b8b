//! Front end of a compiler for Junon, a small line-oriented language.
//!
//! The pipeline has three stages: the [`tokenizer`] turns raw source text
//! into a flat stream of [`tokens::Token`]s, the [`parser`] turns that
//! stream into a tree of [`elements::Element`]s, and the [`checker`]
//! validates the leading token of every instruction, collecting
//! diagnostics instead of failing. The [`rules`] module holds the
//! declarative grammar table, pure data keyed by each instruction's
//! leading token.
//!
//! Every stage is specified against a mathematical model of its data:
//! each executable type has a model type (`Token` and `TokenModel`, and
//! so on), and each stage's contract states that running it yields
//! exactly what the corresponding spec function says.

pub mod checker;
pub mod elements;
pub mod function;
pub mod operation;
pub mod parser;
pub mod rules;
pub mod tokenizer;
pub mod tokens;
pub mod types;
pub mod variable;
pub mod views;

//! Front end of the gaut language: syntax, a static checker for types, moves,
//! borrows and escapes, an evaluator that enforces moves again at run time,
//! and a C emitter.
//!
//! Each executable part comes with its rules as mathematics, and is proved
//! to compute exactly them:
//!
//! | executable | rules | laws |
//! |---|---|---|
//! | [`lexer`], [`parser`] | [`lexer`], [`parse_rules`] | [`parse_laws`] |
//! | [`typecheck`] | [`check_rules`] | [`check_laws`], [`move_laws`] |
//! | [`interp`], [`value`] | [`eval_rules`] | [`eval_laws`], [`run_move_laws`], [`names_laws`] |
//! | [`cgen`] | [`cgen_rules`] | |
//! | [`arena`] | | |
//!
//! [`agreement`] and [`depth_laws`] speak of the checker and the evaluator
//! together; [`ast`] holds the syntax and its models, [`builtins`] the
//! functions that every program may rely on, [`scopes`] and [`text`] what the
//! parts share.

pub mod agreement;
pub mod arena;
pub mod ast;
pub mod builtins;
pub mod cgen;
pub mod cgen_rules;
pub mod check_laws;
pub mod check_rules;
pub mod depth_laws;
pub mod eval_laws;
pub mod eval_rules;
pub mod interp;
pub mod lexer;
pub mod move_laws;
pub mod names_laws;
pub mod parse_laws;
pub mod parse_rules;
pub mod parser;
pub mod run_move_laws;
pub mod scopes;
pub mod text;
pub mod typecheck;
pub mod value;

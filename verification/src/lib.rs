//! A miniature imperative language with an ownership-aware type checker and a
//! matching tree-walking evaluator, both built on a stack of lexical scopes.
//!
//! - `ast`, `render`: the syntax tree and its text form.
//! - `lexer`, `grammar`, `rules`, `parser`, `progress`: from source text to
//!   syntax tree.
//! - `table`, `scope`: the stack of scope frames that both engines use.
//! - `types`, `typing`, `typechecker`: the typing rules and the checker.
//! - `values`, `ledger`, `semantics`, `interpreter`: the evaluation rules and
//!   the evaluator.
//! - `laws`, `invariants`, `fuel`: what holds of every program.

pub mod ast;
pub mod render;
pub mod lexer;
pub mod grammar;
pub mod rules;
pub mod parser;
pub mod progress;
pub mod table;
pub mod scope;
pub mod types;
pub mod typing;
pub mod typechecker;
pub mod values;
pub mod ledger;
pub mod semantics;
pub mod interpreter;
pub mod laws;
pub mod invariants;
pub mod fuel;

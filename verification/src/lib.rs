//! A recursive-descent parser, semantic analyzer and stack-machine code
//! generator for the small imperative language "Vanilla".
//!
//! Every pass works on plain values and is verified against a functional
//! model of what it computes.

pub mod token;

pub use token::{Cursor, Token, TokenType};
pub mod structures;
pub mod text;
pub mod values;
pub mod codegen;
pub mod parse_model;
pub mod parse;
pub mod parse_decl;
pub mod parse_stmt;
pub mod parse_expr;
pub mod ids;
pub mod analyze_model;
pub mod analyze;
pub mod tree;
pub mod parse_laws;
pub mod code_laws;
pub mod render;
pub mod grammar;
pub mod grammar_program;
pub mod parse_total;
pub mod code_labels;
pub mod analyze_floats;
pub mod analyze_stores;
pub mod analyze_types;
pub mod compare_laws;
pub mod tree_shape;

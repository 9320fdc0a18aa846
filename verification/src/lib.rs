//! A lexical analyzer and recursive-descent parser for a small
//! JavaScript-like language.
//!
//! Text goes in as a buffer of characters; the [`lexer::Lexer`] turns it into
//! a finite sequence of [`token::Token`]s, and the [`parser::Parser`] turns
//! that sequence into an abstract syntax tree ([`ast::ASTNode`]). Every stage
//! is specified against a mathematical model of the scan and of the grammar,
//! so the same buffer always yields the same tokens and the same tree.

pub mod ast;
pub mod chars;
pub mod lexer;
pub mod parser;
pub mod scan;
pub mod syntax;
pub mod token;

use vstd::prelude::*;

verus! {

broadcast use vstd::std_specs::vec::group_vec_axioms, vstd::seq::group_seq_axioms;

} // verus!

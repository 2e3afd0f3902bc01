//! Front end of a small expression language: a tokenizer, a structural type
//! interner, a scope binder, a constant-folding expression builder and the
//! single-pass parser that drives them.
//!
//! - [`lexer`] turns the characters of a source text into tokens.
//! - [`type_def`] has the types of the language and their structural
//!   signatures; [`type_env`] interns them, one canonical type for each
//!   signature.
//! - [`expr`] has the expression tree and the constructors that fold
//!   constants as they build it; [`scope`] has the names in scope.
//! - [`grammar`] says what a sequence of tokens means; [`parser`] reads
//!   tokens accordingly.
//! - [`resolve`] checks that a tree is fully resolved, [`type_check`] gives
//!   an expression its type, and [`llvm_ir`] writes a program as text in the
//!   intermediate representation of LLVM.
//!
//! Every function states what it computes over the mathematical value of its
//! arguments, their view, and is verified against that statement.
//!
//! A float is kept as the text that wrote it. The library negates a float,
//! which changes its sign only, and does no other arithmetic on floats: an
//! operation on two floats is built as a node and left for later, like any
//! operation that cannot be folded.

pub mod expr;
pub mod grammar;
pub mod lexer;
pub mod llvm_ir;
pub mod name_map;
pub mod parser;
pub mod resolve;
pub mod scope;
pub mod shared;
pub mod text;
pub mod type_check;
pub mod type_def;
pub mod type_env;

use vstd::prelude::*;

verus! {

/// A value of one of two types.
pub enum Either<A, B> {
    A(A),
    B(B),
}

} // verus!

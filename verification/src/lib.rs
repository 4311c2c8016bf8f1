//! A small ahead-of-time compiler for the Mini language: typed `let` bindings over
//! integers and strings, and `print` statements.
//!
//! Source text goes through [`parser`] (with [`lexer`], [`expr`] and [`strlit`]) to a
//! program ([`ast`]); [`lower`] checks the program against a symbol table ([`symbols`])
//! and lowers it to instructions ([`ir`]), whose meaning is that of the program
//! ([`semantics`]); [`codegen`] hands the instructions to the backend ([`llvm`]) and gets
//! the bytes of an object file; [`compile`] does all of this in one call; [`link`] decides
//! how the object file is linked.
//!
//! Beside the compiler stand a few small parts of a user service: [`runtime_env`],
//! [`error`], [`auth`] and [`user`].

pub mod ast;
pub mod auth;
pub mod codegen;
pub mod compile;
pub mod error;
pub mod expr;
pub mod ir;
pub mod lexer;
pub mod link;
pub mod llvm;
pub mod lower;
pub mod parser;
pub mod runtime_env;
pub mod semantics;
pub mod strlit;
pub mod symbols;
pub mod text;
pub mod user;

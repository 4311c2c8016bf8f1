//! The compiler from end to end: from source text to the bytes of an object file.
//!
//! The first error ends the compilation and is the one that is reported: a parse error
//! before any semantic error, a semantic error before anything is handed to the backend.

use crate::codegen::{Codegen, CodegenError, CodegenErrorView};
use crate::lower::{lower_program, lower_spec};
use crate::parser::{parse_spec, ParseError, ParseErrorView, Parser};
use inkwell::context::Context;
use inkwell::targets::TargetTriple;
use vstd::prelude::*;

verus! {

/// Why a source text was not compiled.
#[derive(Debug, PartialEq, Eq)]
pub enum CompileError {
    /// A line of the source text is no statement.
    Parse(ParseError),
    /// The program has no meaning, or the backend failed.
    Codegen(CodegenError),
}

/// Mathematical value of a [`CompileError`].
pub ghost enum CompileErrorView {
    Parse(ParseErrorView),
    Codegen(CodegenErrorView),
}

impl View for CompileError {
    type V = CompileErrorView;

    open spec fn view(&self) -> CompileErrorView {
        match self {
            CompileError::Parse(e) => CompileErrorView::Parse(e@),
            CompileError::Codegen(e) => CompileErrorView::Codegen(e@),
        }
    }
}

impl CompileError {
    /// The error in words.
    pub open spec fn message_spec(e: CompileErrorView) -> Seq<char> {
        match e {
            CompileErrorView::Parse(e) => ParseError::message_spec(e),
            CompileErrorView::Codegen(e) => CodegenError::message_spec(e),
        }
    }

    /// The error in words.
    pub fn message(&self) -> (text: String)
        ensures
            text@ == CompileError::message_spec(self@),
    {
        match self {
            CompileError::Parse(e) => e.message(),
            CompileError::Codegen(e) => e.message(),
        }
    }
}

/// The error that compiling `src` must end with, whatever the backend does: its first
/// parse error, or else its first semantic error.
pub open spec fn source_error(src: Seq<char>) -> Option<CompileErrorView> {
    match parse_spec(src) {
        Err(e) => Some(CompileErrorView::Parse(e)),
        Ok(program) => match lower_spec(program) {
            Err(e) => Some(CompileErrorView::Codegen(CodegenErrorView::Semantic(e))),
            Ok(_) => None,
        },
    }
}

/// Compiles `src` for the target `triple` and gives the bytes of the object file.
///
/// A source text with a parse error or a semantic error gives that error, and nothing is
/// built for it. For every other source text the result is the object file, unless the
/// backend fails.
pub fn compile(ctx: &Context, triple: &TargetTriple, src: &str) -> (r: Result<
    Vec<u8>,
    CompileError,
>)
    ensures
        match source_error(src@) {
            Some(e) => r is Err && r->Err_0@ == e,
            None => r is Err ==> r->Err_0 is Codegen && !(r->Err_0->Codegen_0 is Semantic),
        },
{
    let program = match Parser::parse(src) {
        Ok(program) => program,
        Err(e) => {
            return Err(CompileError::Parse(e));
        },
    };
    let code = match lower_program(&program) {
        Ok(code) => code,
        Err(e) => {
            return Err(CompileError::Codegen(CodegenError::Semantic(e)));
        },
    };
    let generator = match Codegen::new(ctx, triple) {
        Ok(generator) => generator,
        Err(e) => {
            return Err(CompileError::Codegen(e));
        },
    };
    match generator.emit_code(&code) {
        Ok(()) => {},
        Err(e) => {
            return Err(CompileError::Codegen(e));
        },
    }
    match generator.write_object(triple) {
        Ok(bytes) => Ok(bytes),
        Err(e) => Err(CompileError::Codegen(e)),
    }
}

} // verus!

//! Code generation: from a program to a module of the backend, and from the module to
//! the bytes of an object file.
//!
//! A program is first lowered to instructions, which is where every semantic error is
//! found; the instructions are then handed to the backend one call at a time. The module
//! holds the declaration of `printf`, two format constants, and the entry point `main`,
//! which runs the instructions and returns 0.
//!
//! Text reaches the backend as C strings: a string constant is kept up to its first zero
//! character, if it has one, and `printf` prints it up to there.

use crate::ast::Program;
use crate::expr::BinOp;
use crate::ir::{code_ok, insts_view, ops_ok, slot_kinds, Inst, Op};
pub use crate::llvm::host_triple;
use crate::llvm::{
    add_external_function, add_int_function, add_void_function, append_basic_block,
    build_alloca_int, build_alloca_ptr, build_call, build_global_string_ptr, build_int_add,
    build_int_mul, build_int_neg, build_int_signed_div, build_int_sub, build_load, build_return,
    build_store_int, build_store_ptr, builder_error_text, const_int, create_builder, create_module,
    create_target_machine, initialize_all_targets, int_value, message_text, position_at_end,
    set_triple, target_from_triple, verify_module, write_to_memory_buffer,
};
use crate::lower::{lower_program, lower_spec, SemanticError, SemanticErrorView};
use crate::symbols::ExprKind;
use crate::text::{decimal_digits, push_decimal};
use inkwell::builder::{Builder, BuilderError};
use inkwell::context::Context;
use inkwell::module::Module;
use inkwell::support::LLVMString;
use inkwell::targets::TargetTriple;
use inkwell::values::{FunctionValue, IntValue, PointerValue};
use vstd::prelude::*;

verus! {

/// Why no code was generated.
#[derive(Debug, PartialEq, Eq)]
pub enum CodegenError {
    /// The program has no meaning.
    Semantic(SemanticError),
    /// The backend refused an instruction.
    Backend(String),
    /// The backend found the finished module ill formed.
    Verification(String),
    /// The backend could not produce the object file.
    Toolchain(String),
}

/// Mathematical value of a [`CodegenError`].
pub ghost enum CodegenErrorView {
    Semantic(SemanticErrorView),
    Backend(Seq<char>),
    Verification(Seq<char>),
    Toolchain(Seq<char>),
}

impl View for CodegenError {
    type V = CodegenErrorView;

    open spec fn view(&self) -> CodegenErrorView {
        match self {
            CodegenError::Semantic(e) => CodegenErrorView::Semantic(e@),
            CodegenError::Backend(text) => CodegenErrorView::Backend(text@),
            CodegenError::Verification(text) => CodegenErrorView::Verification(text@),
            CodegenError::Toolchain(text) => CodegenErrorView::Toolchain(text@),
        }
    }
}

impl CodegenError {
    /// The error in words.
    pub open spec fn message_spec(e: CodegenErrorView) -> Seq<char> {
        match e {
            CodegenErrorView::Semantic(e) => SemanticError::message_spec(e),
            CodegenErrorView::Backend(text) => text,
            CodegenErrorView::Verification(text) => text,
            CodegenErrorView::Toolchain(text) => text,
        }
    }

    /// The error in words.
    pub fn message(&self) -> (text: String)
        ensures
            text@ == CodegenError::message_spec(self@),
    {
        match self {
            CodegenError::Semantic(e) => e.message(),
            CodegenError::Backend(text) => text.clone(),
            CodegenError::Verification(text) => text.clone(),
            CodegenError::Toolchain(text) => text.clone(),
        }
    }
}

/// What the backend built, or the error that it gave as a `CodegenError`.
fn built<T>(r: Result<T, BuilderError>) -> (out: Result<T, CodegenError>)
    ensures
        match r {
            Ok(v) => out == Ok::<T, CodegenError>(v),
            Err(_) => out is Err && out->Err_0 is Backend,
        },
{
    match r {
        Ok(v) => Ok(v),
        Err(e) => Err(CodegenError::Backend(builder_error_text(&e))),
    }
}

/// What the backend gave, with its message as text where it gave an error.
fn told<T>(r: Result<T, LLVMString>) -> (out: Result<T, String>)
    ensures
        match r {
            Ok(v) => out == Ok::<T, String>(v),
            Err(_) => out is Err,
        },
{
    match r {
        Ok(v) => Ok(v),
        Err(message) => Err(message_text(&message)),
    }
}

/// What the backend's check of a module means: a module that passed is in order, and the
/// complaint about one that did not is a `Verification` error.
pub fn checked(verdict: Result<(), String>) -> (r: Result<(), CodegenError>)
    ensures
        match verdict {
            Ok(_) => r is Ok,
            Err(complaint) => r is Err && r->Err_0@ == CodegenErrorView::Verification(
                complaint@,
            ),
        },
{
    match verdict {
        Ok(()) => Ok(()),
        Err(complaint) => Err(CodegenError::Verification(complaint)),
    }
}

/// What a step toward the object file means: what the backend produced is kept, and its
/// complaint is a `Toolchain` error.
pub fn produced<T>(step: Result<T, String>) -> (r: Result<T, CodegenError>)
    ensures
        match step {
            Ok(v) => r == Ok::<T, CodegenError>(v),
            Err(complaint) => r is Err && r->Err_0@ == CodegenErrorView::Toolchain(complaint@),
        },
{
    match step {
        Ok(v) => Ok(v),
        Err(complaint) => Err(CodegenError::Toolchain(complaint)),
    }
}

/// The target machine that the backend made; that it made none is a `Toolchain` error.
pub fn made<T>(machine: Option<T>) -> (r: Result<T, CodegenError>)
    ensures
        match machine {
            Some(m) => r == Ok::<T, CodegenError>(m),
            None => r is Err && r->Err_0@ == CodegenErrorView::Toolchain(
                "create target machine failed"@,
            ),
        },
{
    match machine {
        Some(m) => Ok(m),
        None => Err(CodegenError::Toolchain(String::from_str("create target machine failed"))),
    }
}

/// The name of the constant with the number `label`: `.str` and the number in base ten.
pub fn constant_name(label: usize) -> (name: String)
    ensures
        name@ == ".str"@ + decimal_digits(label as nat),
{
    let mut name = String::from_str(".str");
    push_decimal(&mut name, label);
    name
}

/// Whether every operation of `code` is a constant.
pub open spec fn constants_only(code: Seq<Op>) -> bool {
    forall|i: int| 0 <= i < code.len() ==> (#[trigger] code[i]) is Const
}

/// Generator of the module of one program.
pub struct Codegen<'ctx> {
    ctx: &'ctx Context,
    builder: Builder<'ctx>,
    module: Module<'ctx>,
    printf: FunctionValue<'ctx>,
    fmt_int: PointerValue<'ctx>,
    fmt_str: PointerValue<'ctx>,
}

impl<'ctx> Codegen<'ctx> {
    /// A generator with a fresh module for the target `triple`. The module declares
    /// `printf` and holds the formats `"%d\n"` and `"%s\n"`. Fails only if the backend
    /// refuses an instruction.
    pub fn new(ctx: &'ctx Context, triple: &TargetTriple) -> (r: Result<Self, CodegenError>)
        ensures
            r is Err ==> r->Err_0 is Backend,
    {
        let module = create_module(ctx, "mini");
        set_triple(&module, triple);
        let builder = create_builder(ctx);
        let printf = add_external_function(ctx, &module, "printf", true);
        let init = add_void_function(ctx, &module, "__mini_init");
        let block = append_basic_block(ctx, init, "entry");
        position_at_end(&builder, block);
        let fmt_int = built(build_global_string_ptr(&builder, "%d\n", ".fmt_int"))?;
        let fmt_str = built(build_global_string_ptr(&builder, "%s\n", ".fmt_str"))?;
        built(build_return(&builder, None))?;
        Ok(Codegen { ctx, builder, module, printf, fmt_int, fmt_str })
    }

    /// The module as the backend holds it.
    pub closed spec fn backend_module(&self) -> Module<'ctx> {
        self.module
    }

    /// The module as the backend holds it.
    pub fn module(&self) -> (module: &Module<'ctx>)
        ensures
            *module == self.backend_module(),
    {
        &self.module
    }

    /// Checks `program`, lowers it, and builds the entry point `main` from its
    /// instructions. A semantic error is found before anything is built, and it is the
    /// error of the first statement that has one.
    pub fn emit_program(&self, program: &Program) -> (r: Result<(), CodegenError>)
        ensures
            match lower_spec(program@) {
                Ok(_) => r is Err ==> r->Err_0 is Backend,
                Err(e) => r is Err && r->Err_0@ == CodegenErrorView::Semantic(e),
            },
    {
        match lower_program(program) {
            Ok(code) => self.emit_code(&code),
            Err(e) => Err(CodegenError::Semantic(e)),
        }
    }

    /// Builds the entry point `main`: the instructions of `code` in order, then the
    /// return of 0. Fails only if the backend refuses an instruction.
    pub fn emit_code(&self, code: &Vec<Inst>) -> (r: Result<(), CodegenError>)
        requires
            code_ok(insts_view(code@)),
        ensures
            r is Err ==> r->Err_0 is Backend,
    {
        let main = add_int_function(self.ctx, &self.module, "main");
        let entry = append_basic_block(self.ctx, main, "entry");
        position_at_end(&self.builder, entry);
        let mut slots: Vec<PointerValue<'ctx>> = Vec::new();
        let mut i: usize = 0;
        while i < code.len()
            invariant
                i <= code.len(),
                code_ok(insts_view(code@)),
                slots@.len() == slot_kinds(insts_view(code@), i as int).len(),
            decreases code.len() - i,
        {
            let ghost kinds = slot_kinds(insts_view(code@), i as int);
            assert(insts_view(code@)[i as int] == code@[i as int]@);
            match &code[i] {
                Inst::BindInt { name, code: ops } => {
                    let value = self.emit_ops(ops, &slots, Ghost(kinds))?;
                    let slot = built(build_alloca_int(self.ctx, &self.builder, name.as_str()))?;
                    built(build_store_int(&self.builder, slot, value))?;
                    slots.push(slot);
                },
                Inst::BindStr { name, text, label } => {
                    let constant = constant_name(*label);
                    let reference = built(
                        build_global_string_ptr(&self.builder, text.as_str(), constant.as_str()),
                    )?;
                    let slot = built(build_alloca_ptr(self.ctx, &self.builder, name.as_str()))?;
                    built(build_store_ptr(&self.builder, slot, reference))?;
                    slots.push(slot);
                },
                Inst::PrintInt { slot } => {
                    let value = built(build_load(&self.builder, slots[*slot], "ival"))?;
                    built(build_call(&self.builder, self.printf, self.fmt_int, value, ""))?;
                },
                Inst::PrintStr { slot } => {
                    let value = built(build_load(&self.builder, slots[*slot], "sval"))?;
                    built(build_call(&self.builder, self.printf, self.fmt_str, value, ""))?;
                },
            }
            i += 1;
        }
        built(build_return(&self.builder, Some(const_int(self.ctx, 0))))
    }

    /// Builds the operations of `code` in order and gives the value of the last one.
    /// Constants are made without the builder, so code that holds nothing but constants
    /// always has a value; every other operation is an instruction that the backend may
    /// refuse.
    fn emit_ops(
        &self,
        code: &Vec<Op>,
        slots: &Vec<PointerValue<'ctx>>,
        Ghost(kinds): Ghost<Seq<ExprKind>>,
    ) -> (r: Result<IntValue<'ctx>, CodegenError>)
        requires
            ops_ok(code@, kinds),
            kinds.len() == slots@.len(),
        ensures
            constants_only(code@) ==> r is Ok,
            r is Err ==> r->Err_0 is Backend,
    {
        let mut values: Vec<IntValue<'ctx>> = Vec::new();
        let mut i: usize = 0;
        while i < code.len()
            invariant
                i <= code.len(),
                values@.len() == i,
                ops_ok(code@, kinds),
                kinds.len() == slots@.len(),
            decreases code.len() - i,
        {
            let value = match code[i] {
                Op::Const(v) => const_int(self.ctx, v),
                Op::Load(slot) => {
                    let loaded = built(build_load(&self.builder, slots[slot], "loadi"))?;
                    match int_value(loaded) {
                        Some(v) => v,
                        None => {
                            return Err(
                                CodegenError::Backend(
                                    String::from_str("an integer slot holds no integer"),
                                ),
                            );
                        },
                    }
                },
                Op::Neg(a) => built(build_int_neg(&self.builder, values[a], "neg"))?,
                Op::Binary(op, a, b) => {
                    let lhs = values[a];
                    let rhs = values[b];
                    match op {
                        BinOp::Add => built(build_int_add(&self.builder, lhs, rhs, "add"))?,
                        BinOp::Sub => built(build_int_sub(&self.builder, lhs, rhs, "sub"))?,
                        BinOp::Mul => built(build_int_mul(&self.builder, lhs, rhs, "mul"))?,
                        BinOp::Div => built(
                            build_int_signed_div(&self.builder, lhs, rhs, "div"),
                        )?,
                    }
                },
            };
            values.push(value);
            i += 1;
        }
        Ok(values[values.len() - 1])
    }

    /// Has the backend check the module and gives the bytes of its object file for the
    /// target `triple`, generated for the generic CPU without optimization. A module that
    /// fails the check is a `Verification` error; everything else that goes wrong is a
    /// `Toolchain` error.
    pub fn write_object(&self, triple: &TargetTriple) -> (r: Result<Vec<u8>, CodegenError>)
        ensures
            r is Err ==> r->Err_0 is Verification || r->Err_0 is Toolchain,
    {
        checked(told(verify_module(&self.module)))?;
        initialize_all_targets();
        let target = produced(told(target_from_triple(triple)))?;
        let machine = made(create_target_machine(&target, triple, "generic", ""))?;
        produced(told(write_to_memory_buffer(&machine, &self.module)))
    }
}

} // verus!

//! The code-generation backend: LLVM, reached through `inkwell`.
//!
//! Every function here hands one call to the backend. What the backend builds is not
//! modelled: a handle says nothing to the verifier, and no function here promises that a
//! call succeeds.

use inkwell::basic_block::BasicBlock;
use inkwell::builder::{Builder, BuilderError};
use inkwell::context::Context;
use inkwell::module::{Linkage, Module};
use inkwell::support::LLVMString;
use inkwell::targets::{
    CodeModel, FileType, InitializationConfig, RelocMode, Target, TargetMachine, TargetTriple,
};
use inkwell::values::{BasicValue, BasicValueEnum, FunctionValue, IntValue, PointerValue};
use inkwell::{AddressSpace, OptimizationLevel};
use vstd::prelude::*;

verus! {

/// `inkwell::context::Context`: owner of everything that is built.
#[verifier::external_type_specification]
#[verifier::external_body]
pub struct ExContext(Context);

/// `inkwell::builder::Builder`: appends instructions at its position.
#[verifier::external_type_specification]
#[verifier::external_body]
pub struct ExBuilder<'ctx>(Builder<'ctx>);

/// `inkwell::module::Module`: the functions and constants of one program.
#[verifier::external_type_specification]
#[verifier::external_body]
pub struct ExModule<'ctx>(Module<'ctx>);

/// `inkwell::basic_block::BasicBlock`: a straight run of instructions.
#[verifier::external_type_specification]
#[verifier::external_body]
pub struct ExBasicBlock<'ctx>(BasicBlock<'ctx>);

/// `inkwell::values::IntValue`: an integer value.
#[verifier::external_type_specification]
#[verifier::external_body]
pub struct ExIntValue<'ctx>(IntValue<'ctx>);

/// `inkwell::values::PointerValue`: a pointer value.
#[verifier::external_type_specification]
#[verifier::external_body]
pub struct ExPointerValue<'ctx>(PointerValue<'ctx>);

/// `inkwell::values::FunctionValue`: a function of the module.
#[verifier::external_type_specification]
#[verifier::external_body]
pub struct ExFunctionValue<'ctx>(FunctionValue<'ctx>);

/// `inkwell::values::BasicValueEnum`: a value of any first-class type.
#[verifier::external_type_specification]
#[verifier::external_body]
pub struct ExBasicValueEnum<'ctx>(BasicValueEnum<'ctx>);

/// `inkwell::builder::BuilderError`: why the builder refused an instruction.
#[verifier::external_type_specification]
#[verifier::external_body]
pub struct ExBuilderError(BuilderError);

/// `inkwell::support::LLVMString`: a message of the backend.
#[verifier::external_type_specification]
#[verifier::external_body]
pub struct ExLLVMString(LLVMString);

/// `inkwell::targets::TargetTriple`: architecture, vendor, system and ABI of a target.
#[verifier::external_type_specification]
#[verifier::external_body]
pub struct ExTargetTriple(TargetTriple);

/// `inkwell::targets::Target`: a target that the backend can generate code for.
#[verifier::external_type_specification]
#[verifier::external_body]
pub struct ExTarget(Target);

/// `inkwell::targets::TargetMachine`: a target with its code-generation settings.
#[verifier::external_type_specification]
#[verifier::external_body]
pub struct ExTargetMachine(TargetMachine);

/// `TargetMachine::get_default_triple`: the triple of the machine that this runs on.
#[verifier::external_body]
pub fn host_triple() -> TargetTriple {
    TargetMachine::get_default_triple()
}

/// `Context::create_module`: a new, empty module.
#[verifier::external_body]
pub(crate) fn create_module<'ctx>(ctx: &'ctx Context, name: &str) -> Module<'ctx> {
    ctx.create_module(name)
}

/// `Module::set_triple`: records the target of the module.
#[verifier::external_body]
pub(crate) fn set_triple<'ctx>(module: &Module<'ctx>, triple: &TargetTriple) {
    module.set_triple(triple)
}

/// `Context::create_builder`: a new builder without a position.
#[verifier::external_body]
pub(crate) fn create_builder<'ctx>(ctx: &'ctx Context) -> Builder<'ctx> {
    ctx.create_builder()
}

/// `Module::add_function`, for a function with external linkage that takes a pointer to
/// bytes, and more arguments if it is `variadic`, and returns a 32-bit integer.
#[verifier::external_body]
pub(crate) fn add_external_function<'ctx>(
    ctx: &'ctx Context,
    module: &Module<'ctx>,
    name: &str,
    variadic: bool,
) -> FunctionValue<'ctx> {
    let text = ctx.i8_type().ptr_type(AddressSpace::default());
    let ty = ctx.i32_type().fn_type(&[text.into()], variadic);
    module.add_function(name, ty, Some(Linkage::External))
}

/// `Module::add_function`, for a function without parameters and without a result.
#[verifier::external_body]
pub(crate) fn add_void_function<'ctx>(
    ctx: &'ctx Context,
    module: &Module<'ctx>,
    name: &str,
) -> FunctionValue<'ctx> {
    module.add_function(name, ctx.void_type().fn_type(&[], false), None)
}

/// `Module::add_function`, for a function without parameters that returns a 32-bit
/// integer.
#[verifier::external_body]
pub(crate) fn add_int_function<'ctx>(
    ctx: &'ctx Context,
    module: &Module<'ctx>,
    name: &str,
) -> FunctionValue<'ctx> {
    module.add_function(name, ctx.i32_type().fn_type(&[], false), None)
}

/// `Context::append_basic_block`: a new block at the end of `function`.
#[verifier::external_body]
pub(crate) fn append_basic_block<'ctx>(
    ctx: &'ctx Context,
    function: FunctionValue<'ctx>,
    name: &str,
) -> BasicBlock<'ctx> {
    ctx.append_basic_block(function, name)
}

/// `Builder::position_at_end`: puts the builder at the end of `block`.
#[verifier::external_body]
pub(crate) fn position_at_end<'ctx>(builder: &Builder<'ctx>, block: BasicBlock<'ctx>) {
    builder.position_at_end(block)
}

/// `Builder::build_global_string_ptr`: a constant that holds `text` up to its first zero
/// character, if it has one, and a terminating zero byte, as a pointer to its first byte.
/// `name` too is cut at its first zero character.
#[verifier::external_body]
pub(crate) fn build_global_string_ptr<'ctx>(
    builder: &Builder<'ctx>,
    text: &str,
    name: &str,
) -> Result<PointerValue<'ctx>, BuilderError> {
    builder.build_global_string_ptr(text, name).map(|global| global.as_pointer_value())
}

/// `Builder::build_return`: returns `value`, or nothing, from the function.
#[verifier::external_body]
pub(crate) fn build_return<'ctx>(builder: &Builder<'ctx>, value: Option<IntValue<'ctx>>) -> Result<
    (),
    BuilderError,
> {
    builder.build_return(value.as_ref().map(|v| v as &dyn BasicValue<'ctx>)).map(|_| ())
}

/// `IntType::const_int`, on the 32-bit integer type: the constant `v`.
#[verifier::external_body]
pub(crate) fn const_int<'ctx>(ctx: &'ctx Context, v: i32) -> IntValue<'ctx> {
    ctx.i32_type().const_int(v as i64 as u64, true)
}

/// `Builder::build_alloca`, for a 32-bit integer: a fresh stack slot.
#[verifier::external_body]
pub(crate) fn build_alloca_int<'ctx>(
    ctx: &'ctx Context,
    builder: &Builder<'ctx>,
    name: &str,
) -> Result<PointerValue<'ctx>, BuilderError> {
    builder.build_alloca(ctx.i32_type(), name)
}

/// `Builder::build_alloca`, for a pointer to bytes: a fresh stack slot.
#[verifier::external_body]
pub(crate) fn build_alloca_ptr<'ctx>(
    ctx: &'ctx Context,
    builder: &Builder<'ctx>,
    name: &str,
) -> Result<PointerValue<'ctx>, BuilderError> {
    builder.build_alloca(ctx.i8_type().ptr_type(AddressSpace::default()), name)
}

/// `Builder::build_store`, for an integer: stores `value` in the slot.
#[verifier::external_body]
pub(crate) fn build_store_int<'ctx>(
    builder: &Builder<'ctx>,
    slot: PointerValue<'ctx>,
    value: IntValue<'ctx>,
) -> Result<(), BuilderError> {
    builder.build_store(slot, value).map(|_| ())
}

/// `Builder::build_store`, for a pointer: stores `value` in the slot.
#[verifier::external_body]
pub(crate) fn build_store_ptr<'ctx>(
    builder: &Builder<'ctx>,
    slot: PointerValue<'ctx>,
    value: PointerValue<'ctx>,
) -> Result<(), BuilderError> {
    builder.build_store(slot, value).map(|_| ())
}

/// `Builder::build_load`: loads what the slot holds.
#[verifier::external_body]
pub(crate) fn build_load<'ctx>(
    builder: &Builder<'ctx>,
    slot: PointerValue<'ctx>,
    name: &str,
) -> Result<BasicValueEnum<'ctx>, BuilderError> {
    builder.build_load(slot, name)
}

/// The integer in a `BasicValueEnum`, if it holds one.
#[verifier::external_body]
pub(crate) fn int_value<'ctx>(value: BasicValueEnum<'ctx>) -> Option<IntValue<'ctx>> {
    match value {
        BasicValueEnum::IntValue(v) => Some(v),
        BasicValueEnum::ArrayValue(_) => None,
        BasicValueEnum::FloatValue(_) => None,
        BasicValueEnum::PointerValue(_) => None,
        BasicValueEnum::StructValue(_) => None,
        BasicValueEnum::VectorValue(_) => None,
    }
}

/// `Builder::build_call`: calls `function` with a format and one more argument, and
/// calls the result `name`.
#[verifier::external_body]
pub(crate) fn build_call<'ctx>(
    builder: &Builder<'ctx>,
    function: FunctionValue<'ctx>,
    format: PointerValue<'ctx>,
    argument: BasicValueEnum<'ctx>,
    name: &str,
) -> Result<(), BuilderError> {
    builder.build_call(function, &[format.into(), argument.into()], name).map(|_| ())
}

/// `Builder::build_int_neg`: the negation of `value`, called `name`.
#[verifier::external_body]
pub(crate) fn build_int_neg<'ctx>(
    builder: &Builder<'ctx>,
    value: IntValue<'ctx>,
    name: &str,
) -> Result<IntValue<'ctx>, BuilderError> {
    builder.build_int_neg(value, name)
}

/// `Builder::build_int_add`: the sum of `lhs` and `rhs`, called `name`.
#[verifier::external_body]
pub(crate) fn build_int_add<'ctx>(
    builder: &Builder<'ctx>,
    lhs: IntValue<'ctx>,
    rhs: IntValue<'ctx>,
    name: &str,
) -> Result<IntValue<'ctx>, BuilderError> {
    builder.build_int_add(lhs, rhs, name)
}

/// `Builder::build_int_sub`: the difference of `lhs` and `rhs`, called `name`.
#[verifier::external_body]
pub(crate) fn build_int_sub<'ctx>(
    builder: &Builder<'ctx>,
    lhs: IntValue<'ctx>,
    rhs: IntValue<'ctx>,
    name: &str,
) -> Result<IntValue<'ctx>, BuilderError> {
    builder.build_int_sub(lhs, rhs, name)
}

/// `Builder::build_int_mul`: the product of `lhs` and `rhs`, called `name`.
#[verifier::external_body]
pub(crate) fn build_int_mul<'ctx>(
    builder: &Builder<'ctx>,
    lhs: IntValue<'ctx>,
    rhs: IntValue<'ctx>,
    name: &str,
) -> Result<IntValue<'ctx>, BuilderError> {
    builder.build_int_mul(lhs, rhs, name)
}

/// `Builder::build_int_signed_div`: the signed quotient of `lhs` and `rhs`, called `name`.
#[verifier::external_body]
pub(crate) fn build_int_signed_div<'ctx>(
    builder: &Builder<'ctx>,
    lhs: IntValue<'ctx>,
    rhs: IntValue<'ctx>,
    name: &str,
) -> Result<IntValue<'ctx>, BuilderError> {
    builder.build_int_signed_div(lhs, rhs, name)
}

/// The text of a `BuilderError`.
#[verifier::external_body]
pub(crate) fn builder_error_text(error: &BuilderError) -> String {
    format!("{}", error)
}

/// `LLVMString::to_string`: the text of a message of the backend.
#[verifier::external_body]
pub(crate) fn message_text(message: &LLVMString) -> String {
    message.to_string()
}

/// `Module::verify`: checks that the module is well formed.
#[verifier::external_body]
pub(crate) fn verify_module<'ctx>(module: &Module<'ctx>) -> Result<(), LLVMString> {
    module.verify()
}

/// `Target::initialize_all`: makes every target of the backend available.
#[verifier::external_body]
pub(crate) fn initialize_all_targets() {
    Target::initialize_all(&InitializationConfig::default())
}

/// `Target::from_triple`: the target that a triple names.
#[verifier::external_body]
pub(crate) fn target_from_triple(triple: &TargetTriple) -> Result<Target, LLVMString> {
    Target::from_triple(triple)
}

/// `Target::create_target_machine`, for the CPU `cpu` with the features `features`,
/// without optimization (`OptimizationLevel::None`) and with the default relocation and
/// code models.
#[verifier::external_body]
pub(crate) fn create_target_machine(
    target: &Target,
    triple: &TargetTriple,
    cpu: &str,
    features: &str,
) -> Option<TargetMachine> {
    target.create_target_machine(
        triple,
        cpu,
        features,
        OptimizationLevel::None,
        RelocMode::Default,
        CodeModel::Default,
    )
}

/// `TargetMachine::write_to_memory_buffer`, for an object file: the bytes of the object
/// file of `module`. The module should have passed `verify_module`.
#[verifier::external_body]
pub(crate) fn write_to_memory_buffer<'ctx>(machine: &TargetMachine, module: &Module<'ctx>) -> Result<
    Vec<u8>,
    LLVMString,
> {
    machine.write_to_memory_buffer(module, FileType::Object).map(|buffer| buffer.as_slice().to_vec())
}

} // verus!

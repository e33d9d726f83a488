//! Lowering a unit to the back end.
//!
//! `lower_unit` walks a unit and builds the back end's module from it:
//! one function for each declaration, and the instructions of the entry
//! block of `main`. The back end is LLVM, through the crate `inkwell`. It
//! is reached through the functions of the first half of this file; each
//! holds one call, and nothing is proved of them. What they hand out is
//! opaque here. A few things are said of it, under names of their own:
//! the functions that a module holds, each with its linkage and the shape
//! of its type; the integer type of a width and the constants of a type;
//! whether a builder stands in a block; whether a type or a value is one
//! of those that this file makes; the type that a pointer points to; and
//! the operands of a store and of a return. The instructions that hand
//! out a value get no such name: what the builder hands out depends on
//! where it stands, and the back end may fold constants.
//!
//! The back end panics on types and values of kinds that it does not
//! know. So the functions that read a type or emit an instruction ask for
//! a builder that stands in a block, and for types and values that this
//! file has made. The second half keeps both through types of its own,
//! whose invariants say so.

use vstd::prelude::*;
use vstd::string::*;
use vstd::utf8::encode_utf8;
use either::Either;
use inkwell::context::Context;
use inkwell::module::{Linkage, Module};
use inkwell::types::{
    AnyTypeEnum, ArrayType, BasicTypeEnum, FloatType, FunctionType, IntType, PointerType,
    StructType, VectorType, VoidType,
};
use inkwell::values::{
    ArrayValue, BasicValueEnum, FloatValue, InstructionValue, IntValue,
    PointerValue, StructValue, VectorValue,
};
use inkwell::IntPredicate;
use crate::text::str_eq;
use crate::ir::{insts_view, Inst, InstSpec, Predicate, Slot, Value, ValueKind};
use crate::module::{decls_view, names_distinct, DeclSpec, FunDecl, SigSpec, Signature, VMMod};
use crate::types::{Prim, TypeDesc, TypeTable};

verus! {

#[verifier::external_type_specification]
#[verifier::external_body]
pub struct ExContext(Context);

#[verifier::external_type_specification]
#[verifier::external_body]
pub struct ExModule<'ctx>(Module<'ctx>);

#[verifier::external_type_specification]
#[verifier::external_body]
pub struct ExBuilder<'ctx>(inkwell::builder::Builder<'ctx>);

#[verifier::external_type_specification]
#[verifier::external_body]
pub struct ExBasicBlock<'ctx>(inkwell::basic_block::BasicBlock<'ctx>);

#[verifier::external_type_specification]
#[verifier::external_body]
pub struct ExFunctionValue<'ctx>(inkwell::values::FunctionValue<'ctx>);

#[verifier::external_type_specification]
#[verifier::external_body]
pub struct ExFunctionType<'ctx>(FunctionType<'ctx>);

#[verifier::external_type_specification]
#[verifier::external_body]
pub struct ExIntType<'ctx>(IntType<'ctx>);

#[verifier::external_type_specification]
#[verifier::external_body]
pub struct ExFloatType<'ctx>(FloatType<'ctx>);

#[verifier::external_type_specification]
#[verifier::external_body]
pub struct ExPointerType<'ctx>(PointerType<'ctx>);

#[verifier::external_type_specification]
#[verifier::external_body]
pub struct ExStructType<'ctx>(StructType<'ctx>);

#[verifier::external_type_specification]
#[verifier::external_body]
pub struct ExArrayType<'ctx>(ArrayType<'ctx>);

#[verifier::external_type_specification]
#[verifier::external_body]
pub struct ExVectorType<'ctx>(VectorType<'ctx>);

#[verifier::external_type_specification]
pub struct ExBasicTypeEnum<'ctx>(BasicTypeEnum<'ctx>);

#[verifier::external_type_specification]
#[verifier::external_body]
pub struct ExVoidType<'ctx>(VoidType<'ctx>);

#[verifier::external_type_specification]
pub struct ExAnyTypeEnum<'ctx>(AnyTypeEnum<'ctx>);

#[verifier::external_type_specification]
#[verifier::external_body]
pub struct ExIntValue<'ctx>(IntValue<'ctx>);

#[verifier::external_type_specification]
#[verifier::external_body]
pub struct ExFloatValue<'ctx>(FloatValue<'ctx>);

#[verifier::external_type_specification]
#[verifier::external_body]
pub struct ExPointerValue<'ctx>(PointerValue<'ctx>);

#[verifier::external_type_specification]
#[verifier::external_body]
pub struct ExStructValue<'ctx>(StructValue<'ctx>);

#[verifier::external_type_specification]
#[verifier::external_body]
pub struct ExArrayValue<'ctx>(ArrayValue<'ctx>);

#[verifier::external_type_specification]
#[verifier::external_body]
pub struct ExVectorValue<'ctx>(VectorValue<'ctx>);

#[verifier::external_type_specification]
pub struct ExBasicValueEnum<'ctx>(BasicValueEnum<'ctx>);

#[verifier::external_type_specification]
#[verifier::external_body]
pub struct ExInstructionValue<'ctx>(InstructionValue<'ctx>);

#[verifier::external_type_specification]
pub struct ExLinkage(Linkage);

#[verifier::external_type_specification]
pub struct ExIntPredicate(IntPredicate);

/// `Context::create` of the back end: a new code-generation context.
#[verifier::external_body]
pub fn get_ctx() -> (ctx: Context) {
    Context::create()
}

/// What a function returns, as far as its type tells: nothing, an
/// integer of so many bits, or another value.
pub enum Yield {
    Nothing,
    Int(u32),
    Other,
}

/// The shape of a function type: the number of its parameters, whether
/// more arguments may follow them, and what the function returns.
pub struct Shape {
    pub arity: nat,
    pub variadic: bool,
    pub yields: Yield,
    /// What the function returns, if anything, is of a plain type.
    pub plain: bool,
}

/// A function as a module holds it: its name, its linkage and the shape
/// of its type.
pub struct Held {
    pub name: Seq<char>,
    pub linkage: Linkage,
    pub shape: Shape,
}

/// The shape of a function type: what `FunctionType::count_param_types`,
/// `is_var_arg` and `get_return_type` of the back end tell.
pub uninterp spec fn shape_of(ty: FunctionType<'_>) -> Shape;

/// The shape of the type of a function.
pub uninterp spec fn shape_held(function: inkwell::values::FunctionValue<'_>) -> Shape;

/// The number of global variables that a module holds.
pub uninterp spec fn globals_in(module: &Module<'_>) -> nat;

/// What a function that returns a value of type `ret` yields.
pub open spec fn yield_for<'ctx>(ret: BasicTypeEnum<'ctx>) -> Yield {
    match ret {
        BasicTypeEnum::IntType(t) => Yield::Int(bits_in(t)),
        _ => Yield::Other,
    }
}

/// The linkage of a function that was added with `named`: where none was
/// named, the back end's default, which is the external linkage.
pub open spec fn linkage_given(named: Option<Linkage>) -> Linkage {
    match named {
        Some(linkage) => linkage,
        None => Linkage::External,
    }
}

/// The functions that a module holds, in the order in which they were
/// added: what `Module::get_functions` of the back end walks.
pub uninterp spec fn functions_of(module: &Module<'_>) -> Seq<Held>;

/// One of the functions has this name.
pub open spec fn holds_name(held: Seq<Held>, name: Seq<char>) -> bool {
    exists|k: int| 0 <= k < held.len() && (#[trigger] held[k]).name == name
}

/// Whether a builder stands in a block.
pub uninterp spec fn standing(builder: &inkwell::builder::Builder<'_>) -> bool;

/// Whether a type is plain: an integer type, the double-precision type,
/// an array of a plain type, or a pointer to a plain type or to a
/// structure. These are the types of the values that this file makes;
/// each has a size.
pub uninterp spec fn plain_type(ty: BasicTypeEnum<'_>) -> bool;

/// Whether a value is of a plain type.
pub uninterp spec fn plain(val: BasicValueEnum<'_>) -> bool;

/// The type of what a pointer points to: what `PointerValue::get_type`
/// and then `PointerType::get_element_type` of the back end give.
pub uninterp spec fn pointee_in(ptr: PointerValue<'_>) -> AnyTypeEnum<'_>;

/// What a store instruction stores, and where: the two operands that
/// `InstructionValue::get_operand` of the back end tells of it. `None` for
/// an instruction that is no store.
pub uninterp spec fn stored_by(instr: InstructionValue<'_>) -> Option<
    (BasicValueEnum<'_>, PointerValue<'_>),
>;

/// What a return instruction returns: its operand, as
/// `InstructionValue::get_operand` of the back end tells it, where it has
/// one. `None` for an instruction that is no return.
pub uninterp spec fn returned_by(instr: InstructionValue<'_>) -> Option<Option<BasicValueEnum<'_>>>;

/// The function and the arguments of a call instruction that returns
/// nothing. `None` for an instruction that is no call.
pub uninterp spec fn called_by(instr: InstructionValue<'_>) -> Option<
    (inkwell::values::FunctionValue<'_>, Seq<BasicValueEnum<'_>>),
>;

/// The function and the arguments of the call instruction whose result a
/// value is. `None` for a value that is not the result of a call.
pub uninterp spec fn call_of(val: BasicValueEnum<'_>) -> Option<
    (inkwell::values::FunctionValue<'_>, Seq<BasicValueEnum<'_>>),
>;

/// The pointer of the load instruction whose result a value is. `None`
/// for a value that is not the result of a load.
pub uninterp spec fn loaded_from(val: BasicValueEnum<'_>) -> Option<PointerValue<'_>>;

/// The type for which a pointer value reserves a stack slot, and the
/// number of values of that type, where one was given. `None` for a value
/// that is not the result of a reservation.
pub uninterp spec fn reserved_by(ptr: PointerValue<'_>) -> Option<
    (BasicTypeEnum<'_>, Option<IntValue<'_>>),
>;

/// The constant array of the bytes of a text and a closing zero byte:
/// what `Context::const_string` of the back end gives.
pub uninterp spec fn text_in(ctx: &Context, text: Seq<char>) -> ArrayValue<'_>;

/// `Context::create_module`: a new module called `name`, which holds no
/// function and no global variable.
#[verifier::external_body]
fn create_module<'ctx>(ctx: &'ctx Context, name: &str) -> (module: Module<'ctx>)
    ensures
        functions_of(&module) == Seq::<Held>::empty(),
        globals_in(&module) == 0,
{
    ctx.create_module(name)
}

/// `Context::create_builder`: a builder that stands nowhere yet.
#[verifier::external_body]
fn create_builder<'ctx>(ctx: &'ctx Context) -> (builder: inkwell::builder::Builder<'ctx>) {
    ctx.create_builder()
}

/// `Context::append_basic_block`: a new block at the end of `function`.
#[verifier::external_body]
fn append_block<'ctx>(
    ctx: &'ctx Context,
    function: inkwell::values::FunctionValue<'ctx>,
    name: &str,
) -> (block: inkwell::basic_block::BasicBlock<'ctx>) {
    ctx.append_basic_block(function, name)
}

/// `Builder::position_at_end`: puts the builder at the end of `block`.
/// It then stands in a block.
#[verifier::external_body]
fn stand_at_end<'ctx>(
    builder: inkwell::builder::Builder<'ctx>,
    block: inkwell::basic_block::BasicBlock<'ctx>,
) -> (put: inkwell::builder::Builder<'ctx>)
    ensures
        standing(&put),
{
    builder.position_at_end(block);
    builder
}

/// The width in bits of an integer type: what `IntType::get_bit_width`
/// of the back end gives.
pub uninterp spec fn bits_in(ty: IntType<'_>) -> u32;

/// The integer type of `bits` bits of a context: what
/// `Context::custom_width_int_type` of the back end gives.
pub uninterp spec fn int_type_in(ctx: &Context, bits: u32) -> IntType<'_>;

/// The constant of an integer type with the low bits of `bits`: what
/// `IntType::const_int` of the back end gives without sign extension.
pub uninterp spec fn constant_of(ty: IntType<'_>, bits: u64) -> IntValue<'_>;

/// The type of an integer value: what `IntValue::get_type` of the back
/// end gives.
pub uninterp spec fn type_held(value: IntValue<'_>) -> IntType<'_>;

/// `IntValue::get_type`: the type of an integer value.
#[verifier::external_body]
fn int_type_of<'ctx>(value: IntValue<'ctx>) -> (ty: IntType<'ctx>)
    ensures
        ty == type_held(value),
{
    value.get_type()
}

/// `IntType::get_bit_width`: the width in bits of an integer type.
#[verifier::external_body]
fn width_in<'ctx>(ty: IntType<'ctx>) -> (bits: u32)
    ensures
        bits == bits_in(ty),
{
    ty.get_bit_width()
}

/// `Context::custom_width_int_type`: the integer type of `bits` bits. The
/// library asks for widths from 1 to 128 only.
#[verifier::external_body]
fn int_type<'ctx>(ctx: &'ctx Context, bits: u32) -> (ty: IntType<'ctx>)
    requires
        1 <= bits <= 128,
    ensures
        ty == int_type_in(ctx, bits),
        bits_in(ty) == bits,
        plain_type(BasicTypeEnum::IntType(ty)),
{
    ctx.custom_width_int_type(bits)
}

/// `Context::f64_type`: the double-precision type.
#[verifier::external_body]
fn double_type<'ctx>(ctx: &'ctx Context) -> (ty: FloatType<'ctx>)
    ensures
        plain_type(BasicTypeEnum::FloatType(ty)),
{
    ctx.f64_type()
}

/// `Context::opaque_struct_type`: a new structure type without a body,
/// called `name`.
#[verifier::external_body]
fn opaque_struct<'ctx>(ctx: &'ctx Context, name: &str) -> (ty: StructType<'ctx>) {
    ctx.opaque_struct_type(name)
}

/// `BasicType::ptr_type`: the type of a pointer to `ty`, in the default
/// address space. A pointer to a plain type or to a structure is plain.
#[verifier::external_body]
fn pointer_to<'ctx>(ty: BasicTypeEnum<'ctx>) -> (ptr: PointerType<'ctx>)
    requires
        plain_type(ty) || ty is StructType,
    ensures
        plain_type(BasicTypeEnum::PointerType(ptr)),
{
    inkwell::types::BasicType::ptr_type(&ty, inkwell::AddressSpace::default())
}

/// `BasicType::array_type`: the type of `len` values of `ty` in a row.
#[verifier::external_body]
fn array_of<'ctx>(ty: BasicTypeEnum<'ctx>, len: u32) -> (array: ArrayType<'ctx>)
    requires
        plain_type(ty),
    ensures
        plain_type(BasicTypeEnum::ArrayType(array)),
{
    inkwell::types::BasicType::array_type(&ty, len)
}

/// `BasicType::fn_type`: the type of a function from `params` to `ret`.
/// The back end counts the parameters in 32 bits.
#[verifier::external_body]
fn function_type<'ctx>(ret: BasicTypeEnum<'ctx>, params: &Vec<BasicTypeEnum<'ctx>>, variadic: bool) -> (ty:
    FunctionType<'ctx>)
    requires
        params@.len() <= u32::MAX,
        plain_type(ret),
    ensures
        shape_of(ty) == (Shape {
            arity: params@.len(),
            variadic,
            yields: yield_for(ret),
            plain: true,
        }),
{
    let params: Vec<inkwell::types::BasicMetadataTypeEnum<'ctx>> = params.iter().map(
        |p| (*p).into(),
    ).collect();
    inkwell::types::BasicType::fn_type(&ret, &params, variadic)
}

/// `Context::void_type`: the type of nothing.
#[verifier::external_body]
fn void_type<'ctx>(ctx: &'ctx Context) -> (ty: VoidType<'ctx>) {
    ctx.void_type()
}

/// `VoidType::fn_type`: the type of a function from `params` that returns
/// nothing. The back end counts the parameters in 32 bits.
#[verifier::external_body]
fn void_function_type<'ctx>(void: VoidType<'ctx>, params: &Vec<BasicTypeEnum<'ctx>>, variadic: bool) -> (ty:
    FunctionType<'ctx>)
    requires
        params@.len() <= u32::MAX,
    ensures
        shape_of(ty) == (Shape {
            arity: params@.len(),
            variadic,
            yields: Yield::Nothing,
            plain: true,
        }),
{
    let params: Vec<inkwell::types::BasicMetadataTypeEnum<'ctx>> = params.iter().map(
        |p| (*p).into(),
    ).collect();
    void.fn_type(&params, variadic)
}

/// `Module::add_function`: adds a function called `name`, of type `ty`,
/// to the module, sets its linkage where one is named, and returns it.
/// The module then holds the function behind those that it held, with
/// the linkage that was named or else the external one. The back end
/// cuts a name at its first zero byte, and gives a function another name
/// where the module holds the name already; both are left out, and so is
/// a module with global variables, whose names could be in the way.
#[verifier::external_body]
fn add_function<'ctx>(
    module: &mut Module<'ctx>,
    name: &str,
    ty: FunctionType<'ctx>,
    linkage: Option<Linkage>,
) -> (function: inkwell::values::FunctionValue<'ctx>)
    requires
        !has_zero(name@),
        !holds_name(functions_of(old(module)), name@),
        globals_in(old(module)) == 0,
    ensures
        functions_of(final(module)) == functions_of(old(module)).push(
            Held { name: name@, linkage: linkage_given(linkage), shape: shape_of(ty) },
        ),
        globals_in(final(module)) == 0,
        shape_held(function) == shape_of(ty),
{
    module.add_function(name, ty, linkage)
}

/// `IntType::const_int`, without sign extension: the constant of type
/// `ty` with the low bits of `bits`. It is a value of that type.
#[verifier::external_body]
fn const_int<'ctx>(ty: IntType<'ctx>, bits: u64) -> (value: IntValue<'ctx>)
    ensures
        value == constant_of(ty, bits),
        type_held(value) == ty,
{
    ty.const_int(bits, false)
}

/// `Context::const_string`, with the closing zero byte: the constant
/// array of the bytes of `text` and a zero byte. The back end counts the
/// bytes in 32 bits.
#[verifier::external_body]
fn const_text<'ctx>(ctx: &'ctx Context, text: &str) -> (value: ArrayValue<'ctx>)
    requires
        text.spec_bytes().len() <= u32::MAX,
    ensures
        value == text_in(ctx, text@),
{
    ctx.const_string(text.as_bytes(), true)
}

/// `IntType::const_array`: the constant array of `items`, which are
/// constants of type `ty`. The back end counts the items in 32 bits.
#[verifier::external_body]
fn const_int_array<'ctx>(ty: IntType<'ctx>, items: &Vec<IntValue<'ctx>>) -> (value: ArrayValue<'ctx>)
    requires
        items@.len() <= u32::MAX,
{
    ty.const_array(items.as_slice())
}

/// `Builder::build_alloca`: emits the reservation of a stack slot for a
/// value of `ty`, and hands out the result of that reservation, the
/// pointer to the slot, which is a pointer to `ty`.
#[verifier::external_body]
fn build_alloca<'ctx>(builder: &inkwell::builder::Builder<'ctx>, ty: BasicTypeEnum<'ctx>) -> (ptr:
    PointerValue<'ctx>)
    requires
        standing(builder),
        plain_type(ty),
    ensures
        plain(BasicValueEnum::PointerValue(ptr)),
        reserved_by(ptr) == Some((ty, None::<IntValue<'ctx>>)),
{
    builder.build_alloca(ty, "")
}

/// `Builder::build_array_alloca`: emits the reservation of a stack slot
/// for `count` values of `ty`, and hands out the result of that
/// reservation, the pointer to the first, which is a pointer to `ty`.
#[verifier::external_body]
fn build_array_alloca<'ctx>(
    builder: &inkwell::builder::Builder<'ctx>,
    ty: BasicTypeEnum<'ctx>,
    count: IntValue<'ctx>,
) -> (ptr: PointerValue<'ctx>)
    requires
        standing(builder),
        plain_type(ty),
    ensures
        plain(BasicValueEnum::PointerValue(ptr)),
        reserved_by(ptr) == Some((ty, Some(count))),
{
    builder.build_array_alloca(ty, count, "")
}

/// `Builder::build_store`: emits the store of `val` to where `ptr`
/// points, and hands out the store instruction, whose operands are `val`
/// and `ptr`.
#[verifier::external_body]
fn build_store<'ctx>(
    builder: &inkwell::builder::Builder<'ctx>,
    ptr: PointerValue<'ctx>,
    val: BasicValueEnum<'ctx>,
) -> (instr: InstructionValue<'ctx>)
    requires
        standing(builder),
    ensures
        stored_by(instr) == Some((val, ptr)),
{
    builder.build_store(ptr, val)
}

/// `Builder::build_load`: emits the load of what `ptr` points to, and
/// hands out the result of that load, a value of the type that `ptr`
/// points to. The back end
/// panics where that is no type of a value of its six classes; so the
/// pointer must point to a plain type that can be loaded.
#[verifier::external_body]
fn build_load<'ctx>(builder: &inkwell::builder::Builder<'ctx>, ptr: PointerValue<'ctx>) -> (val:
    BasicValueEnum<'ctx>)
    requires
        standing(builder),
        plain(BasicValueEnum::PointerValue(ptr)),
        can_load_spec(pointee_in(ptr)),
    ensures
        plain(val),
        val is IntValue <==> pointee_in(ptr) is IntType,
        val is PointerValue <==> pointee_in(ptr) is PointerType,
        loaded_from(val) == Some(ptr),
{
    builder.build_load(ptr, "")
}

/// `Builder::build_int_add`: emits the sum of two integers.
#[verifier::external_body]
fn build_add<'ctx>(
    builder: &inkwell::builder::Builder<'ctx>,
    lhs: IntValue<'ctx>,
    rhs: IntValue<'ctx>,
) -> (sum: IntValue<'ctx>)
    requires
        standing(builder),
        int_bits(lhs) == int_bits(rhs),
{
    builder.build_int_add(lhs, rhs, "")
}

/// `Builder::build_int_compare`: emits the comparison of two integers.
#[verifier::external_body]
fn build_compare<'ctx>(
    builder: &inkwell::builder::Builder<'ctx>,
    test: IntPredicate,
    lhs: IntValue<'ctx>,
    rhs: IntValue<'ctx>,
) -> (bit: IntValue<'ctx>)
    requires
        standing(builder),
        int_bits(lhs) == int_bits(rhs),
{
    builder.build_int_compare(test, lhs, rhs, "")
}

/// `Builder::build_bitcast`: emits the cast of `val` to the type `to`,
/// and hands out a value of that type: an integer for an integer type, a
/// pointer for a pointer type.
#[verifier::external_body]
fn build_cast<'ctx>(
    builder: &inkwell::builder::Builder<'ctx>,
    val: BasicValueEnum<'ctx>,
    to: BasicTypeEnum<'ctx>,
) -> (cast: BasicValueEnum<'ctx>)
    requires
        standing(builder),
        plain_type(to),
    ensures
        plain(cast),
        cast is IntValue <==> to is IntType,
        cast is PointerValue <==> to is PointerType,
{
    builder.build_bitcast(val, to, "")
}

/// `Builder::build_call`, then `CallSiteValue::try_as_basic_value`: emits
/// the call of `function` with `args`, and hands out what the call
/// returns, on the left, or, on the right, the call itself where the
/// function returns nothing. Either is the call of `function` with
/// `args`. The back end counts the arguments in 32
/// bits, and panics where the function returns a value of none of its six
/// classes.
#[verifier::external_body]
fn build_call<'ctx>(
    builder: &inkwell::builder::Builder<'ctx>,
    function: inkwell::values::FunctionValue<'ctx>,
    args: &Vec<BasicValueEnum<'ctx>>,
) -> (ret: Either<BasicValueEnum<'ctx>, InstructionValue<'ctx>>)
    requires
        standing(builder),
        args@.len() <= u32::MAX,
        shape_held(function).plain,
    ensures
        ret is Right <==> shape_held(function).yields is Nothing,
        ret matches Either::Left(val) ==> plain(val) && call_of(val) == Some((function, args@)),
        ret matches Either::Right(instr) ==> called_by(instr) == Some((function, args@)),
{
    let args: Vec<inkwell::values::BasicMetadataValueEnum<'ctx>> = args.iter().map(
        |a| (*a).into(),
    ).collect();
    builder.build_call(function, &args, "").try_as_basic_value()
}

/// `Builder::build_return`: emits the return from the function, of `val`
/// where there is one, and hands out the return instruction, whose
/// operand is `val`.
#[verifier::external_body]
fn build_ret<'ctx>(builder: &inkwell::builder::Builder<'ctx>, val: Option<BasicValueEnum<'ctx>>) -> (instr:
    InstructionValue<'ctx>)
    requires
        standing(builder),
    ensures
        returned_by(instr) == Some(val),
{
    builder.build_return(val.as_ref().map(|v| v as &dyn inkwell::values::BasicValue<'ctx>))
}

/// `PointerValue::get_type`, then `PointerType::get_element_type`: the
/// type of what `ptr` points to. The back end panics where that is a
/// type of a kind that it does not know; so the pointer must point to a
/// plain type.
#[verifier::external_body]
fn pointee_of<'ctx>(ptr: PointerValue<'ctx>) -> (pointee: AnyTypeEnum<'ctx>)
    requires
        plain(BasicValueEnum::PointerValue(ptr)),
    ensures
        pointee == pointee_in(ptr),
{
    ptr.get_type().get_element_type()
}

/// Why a unit could not be lowered.
#[derive(Clone, Copy, Debug, PartialEq, Eq, Structural)]
pub enum EmitError {
    /// Two functions of the unit have one name, or a name holds a zero
    /// byte.
    Name,
    /// A type has no counterpart in the back end: `void` as the type of a
    /// value or behind a pointer, an opaque structure behind no pointer or
    /// that the table does not hold, or more elements, bytes, parameters
    /// or arguments than 32 bits count. A constant whose type is not that
    /// of its kind, a floating-point constant where an integer or a
    /// pointer is taken, and a sum or comparison whose two sides are
    /// tagged with two types, are refused under this name too.
    Type,
    /// The instruction is one that this library does not lower: the
    /// address of an element, which the back end offers as an unsafe call
    /// only. The item of a constant array that is no constant is refused
    /// under this name too.
    Unsupported,
    /// A register, or a function, that is used is not defined, or there
    /// is no entry block.
    Undefined,
    /// An operand is of another class than the instruction takes, the two
    /// sides of a sum or of a comparison are of two widths, a load reads
    /// through a pointer to what cannot be loaded or through one that the
    /// lowering has not made, or the result is taken of a call that
    /// returns none.
    Operand,
}

/// The classes of value that the lowering tells apart.
#[derive(Clone, Copy, Debug, PartialEq, Eq, Structural)]
pub enum Class {
    Int,
    Pointer,
    Other,
}

/// The class of a value of the back end.
pub open spec fn class_of<'ctx>(val: BasicValueEnum<'ctx>) -> Class {
    match val {
        BasicValueEnum::IntValue(_) => Class::Int,
        BasicValueEnum::PointerValue(_) => Class::Pointer,
        _ => Class::Other,
    }
}

/// Whether a value of a type can be loaded: an integer, a floating-point
/// number, a pointer or an array can; a structure, which here has no
/// body, a vector, a function and nothing cannot.
pub open spec fn can_load_spec<'ctx>(ty: AnyTypeEnum<'ctx>) -> bool {
    ty is IntType || ty is FloatType || ty is PointerType || ty is ArrayType
}

/// Whether a value of a type that the back end handed out can be loaded.
#[verifier::when_used_as_spec(can_load_spec)]
pub fn can_load<'ctx>(ty: AnyTypeEnum<'ctx>) -> (yes: bool)
    ensures
        yes == can_load_spec(ty),
{
    match ty {
        AnyTypeEnum::IntType(_) => true,
        AnyTypeEnum::FloatType(_) => true,
        AnyTypeEnum::PointerType(_) => true,
        AnyTypeEnum::ArrayType(_) => true,
        _ => false,
    }
}

/// The integer in a value that the back end handed out; the class error
/// where the value is no integer.
pub fn int_of<'ctx>(val: BasicValueEnum<'ctx>) -> (r: Result<IntValue<'ctx>, EmitError>)
    ensures
        r is Ok <==> class_of(val) == Class::Int,
        r matches Ok(found) ==> val == BasicValueEnum::IntValue(found),
        r matches Err(e) ==> e == EmitError::Operand,
{
    match val {
        BasicValueEnum::IntValue(found) => Ok(found),
        _ => Err(EmitError::Operand),
    }
}

/// The pointer in a value that the back end handed out; the class error
/// where the value is no pointer.
pub fn ptr_of<'ctx>(val: BasicValueEnum<'ctx>) -> (r: Result<PointerValue<'ctx>, EmitError>)
    ensures
        r is Ok <==> class_of(val) == Class::Pointer,
        r matches Ok(found) ==> val == BasicValueEnum::PointerValue(found),
        r matches Err(e) ==> e == EmitError::Operand,
{
    match val {
        BasicValueEnum::PointerValue(found) => Ok(found),
        _ => Err(EmitError::Operand),
    }
}

/// The width in bits of an integer value.
pub open spec fn int_bits<'ctx>(value: IntValue<'ctx>) -> u32 {
    bits_in(type_held(value))
}

/// Whether two integers that the back end handed out are of one width.
pub fn same_width<'ctx>(lhs: IntValue<'ctx>, rhs: IntValue<'ctx>) -> (yes: bool)
    ensures
        yes == (int_bits(lhs) == int_bits(rhs)),
{
    width_in(int_type_of(lhs)) == width_in(int_type_of(rhs))
}

/// The linkage under which the function at place `i` of a unit is added:
/// none is named for `main`, every other function is external.
pub fn linkage_for(unit: &VMMod, i: usize) -> (linkage: Option<Linkage>)
    ensures
        linkage == linkage_of(unit, i as int),
{
    match unit.entry {
        Some(e) if e == i => None,
        _ => Some(Linkage::External),
    }
}

/// The comparison of the back end for a comparison of the unit.
pub fn predicate_for(test: Predicate) -> (predicate: IntPredicate)
    ensures
        predicate == match test {
            Predicate::Sgt => IntPredicate::SGT,
            Predicate::Sge => IntPredicate::SGE,
        },
{
    match test {
        Predicate::Sgt => IntPredicate::SGT,
        Predicate::Sge => IntPredicate::SGE,
    }
}

/// The width in bits of an integer primitive; the platform word is as
/// wide as the word of this machine.
pub open spec fn width_of(base: Prim) -> Option<u32> {
    match base {
        Prim::Bit => Some(1u32),
        Prim::I8 => Some(8u32),
        Prim::I32 => Some(32u32),
        Prim::I64 => Some(64u32),
        Prim::I128 => Some(128u32),
        Prim::Word => Some(usize::BITS),
        _ => None,
    }
}

/// The width in bits of an integer primitive.
pub fn bits_of(base: Prim) -> (bits: Option<u32>)
    ensures
        bits == width_of(base),
        bits is Some <==> (TypeDesc { base, depth: 0 }).spec_is_int(),
        bits matches Some(b) ==> 1 <= b <= 128,
{
    match base {
        Prim::Bit => Some(1),
        Prim::I8 => Some(8),
        Prim::I32 => Some(32),
        Prim::I64 => Some(64),
        Prim::I128 => Some(128),
        Prim::Word => Some(usize::BITS),
        _ => None,
    }
}

/// The name of the entry block.
pub fn entry_label() -> (label: &'static str)
    ensures
        label@ == "blk_main"@,
{
    "blk_main"
}

/// `t` is `void`, behind no pointer.
pub open spec fn is_void(t: TypeDesc) -> bool {
    t.base == Prim::Void && t.depth == 0
}

/// `t` is the type of a value of the back end, given the number of opaque
/// structures that it knows: not `void`, nor a pointer to it, and an
/// opaque structure only behind a pointer.
pub open spec fn expressible(t: TypeDesc, n_opaque: nat) -> bool {
    &&& t.base != Prim::Void
    &&& t.base matches Prim::Opaque(k) ==> k < n_opaque && t.depth > 0
}

/// `sig` is the type of a function of the back end.
pub open spec fn sig_expressible(sig: SigSpec, n_opaque: nat) -> bool {
    &&& sig.params.len() <= u32::MAX
    &&& forall|i: int| 0 <= i < sig.params.len() ==> expressible(#[trigger] sig.params[i], n_opaque)
    &&& is_void(sig.ret) || expressible(sig.ret, n_opaque)
}

/// The name holds a zero byte.
pub open spec fn has_zero(name: Seq<char>) -> bool {
    exists|k: int| 0 <= k < encode_utf8(name).len() && #[trigger] encode_utf8(name)[k] == 0u8
}

/// The names of the declarations can be given to the back end: none
/// holds a zero byte, and no two are the same.
pub open spec fn names_ok(decls: Seq<DeclSpec>) -> bool {
    &&& names_distinct(decls)
    &&& forall|i: int| 0 <= i < decls.len() ==> !has_zero((#[trigger] decls[i]).name)
}

/// The linkage that is named when the function at place `i` of a unit
/// is added: none for `main`, which so gets the back end's default, and
/// the external one for every other function.
pub open spec fn linkage_of(unit: &VMMod, i: int) -> Option<Linkage> {
    if unit.entry matches Some(e) && e == i {
        None
    } else {
        Some(Linkage::External)
    }
}

/// What a function that returns a value of the type `ret` yields, as
/// the unit tells it.
pub open spec fn yield_of(ret: TypeDesc) -> Yield {
    if is_void(ret) {
        Yield::Nothing
    } else if ret.spec_is_int() {
        Yield::Int(width_of(ret.base).unwrap())
    } else {
        Yield::Other
    }
}

/// The shape of the function type for a signature.
pub open spec fn shape_for(sig: SigSpec) -> Shape {
    Shape {
        arity: sig.params.len(),
        variadic: sig.is_variadic,
        yields: yield_of(sig.ret),
        plain: true,
    }
}

/// The functions of a unit as the back end's module is to hold them:
/// each under its name, with the external linkage and with the shape of
/// its signature, in their order. `main` so returns an integer as wide as
/// the platform word.
pub open spec fn held_of(unit: &VMMod) -> Seq<Held> {
    Seq::new(
        unit.declared().len(),
        |i: int|
            Held {
                name: unit.declared()[i].name,
                linkage: Linkage::External,
                shape: shape_for(unit.declared()[i].sig),
            },
    )
}

/// Which of the functions of a unit return a value.
pub open spec fn gives_of(unit: &VMMod) -> Seq<bool> {
    Seq::new(unit.declared().len(), |i: int| !is_void(unit.declared()[i].sig.ret))
}

/// The first of two faults.
pub open spec fn first(a: Option<EmitError>, b: Option<EmitError>) -> Option<EmitError> {
    if a is Some {
        a
    } else {
        b
    }
}

/// The fault `e` where `cond` holds.
pub open spec fn when(cond: bool, e: EmitError) -> Option<EmitError> {
    if cond {
        Some(e)
    } else {
        None
    }
}

/// What the unit itself decides about the lowering of its declarations:
/// first the names, then the signatures, then that the entry is one of
/// the functions.
pub open spec fn decls_fault(unit: &VMMod, n_opaque: nat) -> Option<EmitError> {
    first(
        when(!names_ok(unit.declared()), EmitError::Name),
        first(
            when(
                !(forall|i: int|
                    0 <= i < unit.decls@.len() ==> sig_expressible(
                        (#[trigger] unit.decls@[i]).sig@,
                        n_opaque,
                    )),
                EmitError::Type,
            ),
            when(unit.entry matches Some(e) && e >= unit.decls@.len(), EmitError::Undefined),
        ),
    )
}

/// What the registers hold, as far as the lowering tells it: nothing, or
/// a value of a class.
pub open spec fn classes<'ctx>(regs: Seq<Option<BasicValueEnum<'ctx>>>) -> Seq<Option<Class>> {
    Seq::new(
        regs.len(),
        |i: int|
            match regs[i] {
                Some(val) => Some(class_of(val)),
                None => None,
            },
    )
}

/// The registers that hold a value.
pub open spec fn defined_in(holds: Seq<Option<Class>>) -> Set<usize> {
    Set::new(|id: usize| id < holds.len() && holds[id as int] is Some)
}

/// Why an operand cannot be lowered: a constant whose type is not that
/// of its kind, or a register that holds nothing.
pub open spec fn operand_fault(v: Value, defined: Set<usize>) -> Option<EmitError> {
    match v.kind {
        ValueKind::Int(_) => when(!v.ty.spec_is_int(), EmitError::Type),
        ValueKind::Double(_) => when(
            v.ty != (TypeDesc { base: Prim::Double, depth: 0 }),
            EmitError::Type,
        ),
        ValueKind::Reg(id) => when(!defined.contains(id), EmitError::Undefined),
    }
}

/// Why an operand that is taken as an integer or as a pointer cannot be
/// lowered: as any operand, and a floating-point constant is neither.
pub open spec fn classed_fault(v: Value, defined: Set<usize>) -> Option<EmitError> {
    if v.kind is Double {
        Some(EmitError::Type)
    } else {
        operand_fault(v, defined)
    }
}

/// The first fault among the arguments of a call.
pub open spec fn args_fault(args: Seq<Value>, defined: Set<usize>) -> Option<EmitError>
    decreases args.len(),
{
    if args.len() == 0 {
        None
    } else {
        first(args_fault(args.drop_last(), defined), operand_fault(args.last(), defined))
    }
}

/// Why an item cannot stand in a constant array of `elem`: it is no
/// constant, or it is not of that type.
pub open spec fn item_fault(item: Value, elem: TypeDesc) -> Option<EmitError> {
    first(when(!(item.kind is Int), EmitError::Unsupported), when(item.ty != elem, EmitError::Type))
}

/// The first fault among the items of a constant array.
pub open spec fn items_fault(items: Seq<Value>, elem: TypeDesc) -> Option<EmitError>
    decreases items.len(),
{
    if items.len() == 0 {
        None
    } else {
        first(items_fault(items.drop_last(), elem), item_fault(items.last(), elem))
    }
}

/// The slot can be reserved.
pub open spec fn slot_ok(slot: Slot, n_opaque: nat) -> bool {
    match slot {
        Slot::One(t) => expressible(t, n_opaque),
        Slot::Array(t, n) => expressible(t, n_opaque) && n <= u32::MAX,
        Slot::Text(n) => n < u32::MAX,
    }
}

/// The register that an instruction defines.
pub open spec fn dst_of(inst: InstSpec) -> Option<usize> {
    match inst {
        InstSpec::Alloca { dst, .. } => Some(dst),
        InstSpec::ArrayAlloca { dst, .. } => Some(dst),
        InstSpec::Load { dst, .. } => Some(dst),
        InstSpec::Add { dst, .. } => Some(dst),
        InstSpec::Compare { dst, .. } => Some(dst),
        InstSpec::Cast { dst, .. } => Some(dst),
        InstSpec::ElementPtr { dst, .. } => Some(dst),
        InstSpec::Call { dst, .. } => dst,
        _ => None,
    }
}

/// What the unit itself decides about lowering an instruction, given the
/// registers that hold a value, the number of registers, which of the
/// functions return a value, and the number of opaque structures: the
/// first of the faults that it has, in the order in which they are looked
/// for, or none. A call whose result is taken, of a function that returns
/// none, is a fault of the class of operands.
pub open spec fn inst_fault(
    inst: InstSpec,
    defined: Set<usize>,
    n_regs: nat,
    gives: Seq<bool>,
    n_opaque: nat,
) -> Option<EmitError> {
    match inst {
        InstSpec::Alloca { dst, slot } => first(
            when(dst >= n_regs, EmitError::Undefined),
            when(!slot_ok(slot, n_opaque), EmitError::Type),
        ),
        InstSpec::ArrayAlloca { dst, elem, count } => first(
            when(dst >= n_regs, EmitError::Undefined),
            first(when(!expressible(elem, n_opaque), EmitError::Type), classed_fault(count, defined)),
        ),
        InstSpec::Store { ptr, val } => first(operand_fault(val, defined), classed_fault(ptr, defined)),
        InstSpec::StoreText { ptr, text } => first(
            when(encode_utf8(text).len() > u32::MAX, EmitError::Type),
            classed_fault(ptr, defined),
        ),
        InstSpec::StoreArray { ptr, elem, items } => first(
            when(items.len() > u32::MAX, EmitError::Type),
            first(
                when(!elem.spec_is_int(), EmitError::Type),
                first(items_fault(items, elem), classed_fault(ptr, defined)),
            ),
        ),
        InstSpec::Load { dst, ptr } => first(
            when(dst >= n_regs, EmitError::Undefined),
            classed_fault(ptr, defined),
        ),
        InstSpec::Add { dst, lhs, rhs } => first(
            when(dst >= n_regs, EmitError::Undefined),
            first(
                when(lhs.ty != rhs.ty, EmitError::Type),
                first(classed_fault(lhs, defined), classed_fault(rhs, defined)),
            ),
        ),
        InstSpec::Compare { dst, test, lhs, rhs } => first(
            when(dst >= n_regs, EmitError::Undefined),
            first(
                when(lhs.ty != rhs.ty, EmitError::Type),
                first(classed_fault(lhs, defined), classed_fault(rhs, defined)),
            ),
        ),
        InstSpec::Cast { dst, src, to } => first(
            when(dst >= n_regs, EmitError::Undefined),
            first(when(!expressible(to, n_opaque), EmitError::Type), operand_fault(src, defined)),
        ),
        InstSpec::ElementPtr { .. } => Some(EmitError::Unsupported),
        InstSpec::Call { dst, callee, args } => first(
            when(callee.index >= gives.len(), EmitError::Undefined),
            first(
                when(args.len() > u32::MAX, EmitError::Type),
                first(
                    when(dst matches Some(d) && d >= n_regs, EmitError::Undefined),
                    first(
                        args_fault(args, defined),
                        when(dst is Some && !gives[callee.index as int], EmitError::Operand),
                    ),
                ),
            ),
        ),
        InstSpec::Ret { val } => match val {
            Some(v) => operand_fault(v, defined),
            None => None,
        },
    }
}

/// The class of what an operand is lowered to, as far as the registers
/// tell it.
pub open spec fn operand_class(v: Value, holds: Seq<Option<Class>>) -> Option<Class> {
    match v.kind {
        ValueKind::Int(_) => Some(Class::Int),
        ValueKind::Double(_) => None,
        ValueKind::Reg(id) => if id < holds.len() {
            holds[id as int]
        } else {
            None
        },
    }
}

/// The instruction takes a value of another class than the one that the
/// registers hold: no integer where it counts, adds or compares, no
/// pointer where it stores or loads.
pub open spec fn class_error(inst: InstSpec, holds: Seq<Option<Class>>) -> bool {
    match inst {
        InstSpec::ArrayAlloca { count, .. } => operand_class(count, holds) != Some(Class::Int),
        InstSpec::Store { ptr, .. } => operand_class(ptr, holds) != Some(Class::Pointer),
        InstSpec::StoreText { ptr, .. } => operand_class(ptr, holds) != Some(Class::Pointer),
        InstSpec::StoreArray { ptr, .. } => operand_class(ptr, holds) != Some(Class::Pointer),
        InstSpec::Load { ptr, .. } => operand_class(ptr, holds) != Some(Class::Pointer),
        InstSpec::Add { lhs, rhs, .. } => operand_class(lhs, holds) != Some(Class::Int)
            || operand_class(rhs, holds) != Some(Class::Int),
        InstSpec::Compare { lhs, rhs, .. } => operand_class(lhs, holds) != Some(Class::Int)
            || operand_class(rhs, holds) != Some(Class::Int),
        _ => false,
    }
}

/// Whether the instruction succeeds is for the back end to say: a load
/// needs a pointer to a value that can be loaded, and a sum or comparison
/// that takes a register needs two integers of one width.
pub open spec fn outside_decides(inst: InstSpec) -> bool {
    match inst {
        InstSpec::Load { .. } => true,
        InstSpec::Add { lhs, rhs, .. } => lhs.kind is Reg || rhs.kind is Reg,
        InstSpec::Compare { lhs, rhs, .. } => lhs.kind is Reg || rhs.kind is Reg,
        _ => false,
    }
}

/// What an operand is lowered to, where that is not for the back end to
/// say.
pub open spec fn value_for<'ctx>(
    ctx: &'ctx Context,
    v: Value,
    values: Seq<Option<BasicValueEnum<'ctx>>>,
) -> BasicValueEnum<'ctx> {
    match v.kind {
        ValueKind::Reg(id) => values[id as int].unwrap(),
        _ => constant_for(ctx, v),
    }
}

/// The two sides of a sum or of a comparison are integers of two widths.
pub open spec fn width_error<'ctx>(
    inst: InstSpec,
    ctx: &'ctx Context,
    values: Seq<Option<BasicValueEnum<'ctx>>>,
) -> bool {
    match inst {
        InstSpec::Add { lhs, rhs, .. } => sides_differ(
            value_for(ctx, lhs, values),
            value_for(ctx, rhs, values),
        ),
        InstSpec::Compare { lhs, rhs, .. } => sides_differ(
            value_for(ctx, lhs, values),
            value_for(ctx, rhs, values),
        ),
        _ => false,
    }
}

/// The value is an integer as wide as the primitive.
pub open spec fn wide_as<'ctx>(val: BasicValueEnum<'ctx>, base: Prim) -> bool {
    match val {
        BasicValueEnum::IntValue(i) => Some(int_bits(i)) == width_of(base),
        _ => false,
    }
}

/// Two values are integers of two widths.
pub open spec fn sides_differ<'ctx>(lhs: BasicValueEnum<'ctx>, rhs: BasicValueEnum<'ctx>) -> bool {
    match (lhs, rhs) {
        (BasicValueEnum::IntValue(a), BasicValueEnum::IntValue(b)) => int_bits(a) != int_bits(b),
        _ => false,
    }
}

/// The class of the values of a type.
pub open spec fn class_for(t: TypeDesc) -> Class {
    if t.depth > 0 {
        Class::Pointer
    } else if t.spec_is_int() {
        Class::Int
    } else {
        Class::Other
    }
}

/// The class of what the instruction defines, where the library knows
/// it: a reservation defines a pointer, a sum and a comparison an
/// integer, and a cast a value of the class of its type.
pub open spec fn made(inst: InstSpec) -> Option<Class> {
    match inst {
        InstSpec::Alloca { .. } => Some(Class::Pointer),
        InstSpec::ArrayAlloca { .. } => Some(Class::Pointer),
        InstSpec::Add { .. } => Some(Class::Int),
        InstSpec::Compare { .. } => Some(Class::Int),
        InstSpec::Cast { to, .. } => Some(class_for(to)),
        _ => None,
    }
}

/// What the registers hold after an instruction that succeeded: its
/// register holds a value, of the class that the instruction makes where
/// that is known; every other register holds what it held.
pub open spec fn stepped(before: Seq<Option<Class>>, after: Seq<Option<Class>>, inst: InstSpec) -> bool {
    &&& after.len() == before.len()
    &&& match dst_of(inst) {
        None => after == before,
        Some(d) => {
            &&& d < after.len()
            &&& after[d as int] is Some
            &&& made(inst) matches Some(c) ==> after[d as int] == Some(c)
            &&& forall|id: int| 0 <= id < after.len() && id != d ==> after[id] == before[id]
        },
    }
}

/// Every register but the one that the instruction defines holds the
/// value that it held.
pub open spec fn kept<'ctx>(
    before: Seq<Option<BasicValueEnum<'ctx>>>,
    after: Seq<Option<BasicValueEnum<'ctx>>>,
    inst: InstSpec,
) -> bool {
    &&& after.len() == before.len()
    &&& forall|id: int|
        0 <= id < after.len() && dst_of(inst) != Some(id as usize) ==> #[trigger] after[id]
            == before[id]
}

/// The class of a value that is loaded through a pointer to type `ty`.
pub open spec fn class_loaded<'ctx>(ty: AnyTypeEnum<'ctx>) -> Class {
    match ty {
        AnyTypeEnum::IntType(_) => Class::Int,
        AnyTypeEnum::PointerType(_) => Class::Pointer,
        _ => Class::Other,
    }
}

/// The value is a pointer to a type whose values can be loaded.
pub open spec fn loadable<'ctx>(val: BasicValueEnum<'ctx>) -> bool {
    match val {
        BasicValueEnum::PointerValue(ptr) => can_load_spec(pointee_in(ptr)),
        _ => false,
    }
}

/// A load cannot be made: its pointer is none that the lowering made
/// itself, from a reservation, a cast, a load or a call, or it points to
/// a type whose values cannot be loaded.
pub open spec fn load_error<'ctx>(
    inst: InstSpec,
    values: Seq<Option<BasicValueEnum<'ctx>>>,
    own: Seq<bool>,
) -> bool {
    match inst {
        InstSpec::Load { ptr, .. } => match ptr.kind {
            ValueKind::Reg(id) => !(own[id as int] && loadable(values[id as int].unwrap())),
            _ => true,
        },
        _ => false,
    }
}

/// The values `lowered` are what the arguments `args` are lowered to.
pub open spec fn args_as<'ctx>(
    ctx: &'ctx Context,
    args: Seq<Value>,
    values: Seq<Option<BasicValueEnum<'ctx>>>,
    lowered: Seq<BasicValueEnum<'ctx>>,
) -> bool {
    &&& lowered.len() == args.len()
    &&& forall|j: int| 0 <= j < args.len() ==> lowered_as(ctx, args[j], values, #[trigger] lowered[j])
}

/// What an instruction that succeeded put into its register, where the
/// back end emits one instruction for it whatever it is given: a
/// reservation the result of a reservation, with the lowered count where
/// it has one; a load the result of the load through the lowered pointer,
/// which is a value of the class of what the pointer pointed to; a call
/// the result of the call of the function with the lowered arguments.
pub open spec fn defines<'ctx>(
    inst: InstSpec,
    ctx: &'ctx Context,
    functions: Seq<inkwell::values::FunctionValue<'ctx>>,
    before: Seq<Option<BasicValueEnum<'ctx>>>,
    after: Seq<Option<BasicValueEnum<'ctx>>>,
) -> bool {
    match inst {
        InstSpec::Alloca { dst, .. } => match after[dst as int] {
            Some(BasicValueEnum::PointerValue(p)) => match reserved_by(p) {
                Some((_, count)) => count is None,
                None => false,
            },
            _ => false,
        },
        InstSpec::ArrayAlloca { dst, count, .. } => match after[dst as int] {
            Some(BasicValueEnum::PointerValue(p)) => match reserved_by(p) {
                Some((_, Some(n))) => lowered_as(ctx, count, before, BasicValueEnum::IntValue(n)),
                _ => false,
            },
            _ => false,
        },
        InstSpec::Load { dst, ptr } => match ptr.kind {
            ValueKind::Reg(id) => match (before[id as int], after[dst as int]) {
                (Some(BasicValueEnum::PointerValue(p)), Some(val)) => class_of(val) == class_loaded(
                    pointee_in(p),
                ) && loaded_from(val) == Some(p),
                _ => false,
            },
            _ => false,
        },
        InstSpec::Call { dst: Some(d), callee, args } => match after[d as int] {
            Some(val) => match call_of(val) {
                Some((function, lowered)) => function == functions[callee.index as int] && args_as(
                    ctx,
                    args,
                    before,
                    lowered,
                ),
                None => false,
            },
            None => false,
        },
        _ => true,
    }
}

/// Which registers hold a pointer of the lowering's own after an
/// instruction that succeeded: the register that the instruction defines
/// does if it holds a pointer; every other register is as it was.
pub open spec fn owned<'ctx>(
    before: Seq<bool>,
    after: Seq<bool>,
    values: Seq<Option<BasicValueEnum<'ctx>>>,
    inst: InstSpec,
) -> bool {
    &&& after.len() == before.len()
    &&& forall|id: int|
        0 <= id < after.len() ==> #[trigger] after[id] == if dst_of(inst) == Some(id as usize) {
            values[id] matches Some(BasicValueEnum::PointerValue(_))
        } else {
            before[id]
        }
}

/// The instruction that was emitted last is the one that the unit asks
/// for: the store of the lowered value through the lowered pointer, the
/// return of the lowered value, or the call of a function that returns
/// nothing with the lowered arguments. Of a constant array that is
/// stored, this says that it is an array. Every other instruction leaves
/// `before` as the last.
pub open spec fn emits<'ctx>(
    inst: InstSpec,
    ctx: &'ctx Context,
    functions: Seq<inkwell::values::FunctionValue<'ctx>>,
    values: Seq<Option<BasicValueEnum<'ctx>>>,
    before: Option<InstructionValue<'ctx>>,
    last: Option<InstructionValue<'ctx>>,
) -> bool {
    match inst {
        InstSpec::Store { ptr, val } => match last {
            Some(i) => match stored_by(i) {
                Some((v, p)) => lowered_as(ctx, val, values, v) && lowered_as(
                    ctx,
                    ptr,
                    values,
                    BasicValueEnum::PointerValue(p),
                ),
                None => false,
            },
            None => false,
        },
        InstSpec::StoreText { ptr, text } => match last {
            Some(i) => match stored_by(i) {
                Some((v, p)) => v == BasicValueEnum::ArrayValue(text_in(ctx, text)) && lowered_as(
                    ctx,
                    ptr,
                    values,
                    BasicValueEnum::PointerValue(p),
                ),
                None => false,
            },
            None => false,
        },
        InstSpec::StoreArray { ptr, .. } => match last {
            Some(i) => match stored_by(i) {
                Some((v, p)) => v is ArrayValue && lowered_as(
                    ctx,
                    ptr,
                    values,
                    BasicValueEnum::PointerValue(p),
                ),
                None => false,
            },
            None => false,
        },
        InstSpec::Ret { val } => match last {
            Some(i) => match (returned_by(i), val) {
                (Some(None), None) => true,
                (Some(Some(v)), Some(operand)) => lowered_as(ctx, operand, values, v),
                _ => false,
            },
            None => false,
        },
        InstSpec::Call { dst: None, callee, args } => if shape_held(
            functions[callee.index as int],
        ).yields is Nothing {
            match last {
                Some(i) => match called_by(i) {
                    Some((function, lowered)) => function == functions[callee.index as int]
                        && args_as(ctx, args, values, lowered),
                    None => false,
                },
                None => false,
            }
        } else {
            last == before
        },
        _ => last == before,
    }
}

/// A builder that stands in a block.
struct Emitter<'ctx> {
    builder: inkwell::builder::Builder<'ctx>,
}

impl<'ctx> Emitter<'ctx> {
    #[verifier::type_invariant]
    spec fn stands(&self) -> bool {
        standing(&self.builder)
    }

    fn new(builder: inkwell::builder::Builder<'ctx>) -> (emitter: Emitter<'ctx>)
        requires
            standing(&builder),
        ensures
            emitter.builder == builder,
    {
        Emitter { builder }
    }

    fn get(&self) -> (builder: &inkwell::builder::Builder<'ctx>)
        ensures
            *builder == self.builder,
            standing(builder),
    {
        proof {
            use_type_invariant(self);
        }
        &self.builder
    }
}

/// A function of the module, of which it is known whether it returns a
/// value, and that what it returns is of a plain type.
struct Callee<'ctx> {
    function: inkwell::values::FunctionValue<'ctx>,
    gives: bool,
}

impl<'ctx> Callee<'ctx> {
    #[verifier::type_invariant]
    spec fn known(&self) -> bool {
        shape_held(self.function).plain && (shape_held(self.function).yields is Nothing
            <==> !self.gives)
    }

    fn new(function: inkwell::values::FunctionValue<'ctx>, gives: bool) -> (callee: Callee<'ctx>)
        requires
            shape_held(function).plain,
            shape_held(function).yields is Nothing <==> !gives,
        ensures
            callee.gives == gives,
            callee.function == function,
    {
        Callee { function, gives }
    }

    fn get(&self) -> (function: inkwell::values::FunctionValue<'ctx>)
        ensures
            function == self.function,
            shape_held(function).plain,
            shape_held(function).yields is Nothing <==> !self.gives,
    {
        proof {
            use_type_invariant(self);
        }
        self.function
    }
}

/// What is in a register: nothing, a pointer that this lowering made,
/// which so points to a plain type, or any other value.
enum Reg<'ctx> {
    Empty,
    Tame(PointerValue<'ctx>),
    Value(BasicValueEnum<'ctx>),
}

impl<'ctx> Reg<'ctx> {
    #[verifier::type_invariant]
    spec fn tamed(&self) -> bool {
        *self matches Reg::Tame(ptr) ==> plain(BasicValueEnum::PointerValue(ptr))
    }

    /// The register for a value that this lowering made.
    fn own(val: BasicValueEnum<'ctx>) -> (reg: Reg<'ctx>)
        requires
            plain(val),
        ensures
            val_in(reg) == Some(val),
            reg is Tame <==> val is PointerValue,
    {
        match val {
            BasicValueEnum::PointerValue(ptr) => Reg::Tame(ptr),
            other => Reg::Value(other),
        }
    }

    /// Whether the register holds a pointer that this lowering made.
    fn is_tame(&self) -> (yes: bool)
        ensures
            yes == (self is Tame),
            yes ==> plain(val_in(*self).unwrap()),
    {
        proof {
            use_type_invariant(self);
        }
        match self {
            Reg::Tame(_) => true,
            _ => false,
        }
    }

    /// The value in the register.
    fn get(&self) -> (val: Option<BasicValueEnum<'ctx>>)
        ensures
            val == val_in(*self),
    {
        match self {
            Reg::Empty => None,
            Reg::Tame(ptr) => Some(BasicValueEnum::PointerValue(*ptr)),
            Reg::Value(val) => Some(*val),
        }
    }
}

/// The value in a register.
spec fn val_in<'ctx>(reg: Reg<'ctx>) -> Option<BasicValueEnum<'ctx>> {
    match reg {
        Reg::Empty => None,
        Reg::Tame(ptr) => Some(BasicValueEnum::PointerValue(ptr)),
        Reg::Value(val) => Some(val),
    }
}

/// The values in the registers.
spec fn vals<'ctx>(regs: Seq<Reg<'ctx>>) -> Seq<Option<BasicValueEnum<'ctx>>> {
    Seq::new(regs.len(), |i: int| val_in(regs[i]))
}

/// Which registers hold a pointer that this lowering made.
spec fn tames<'ctx>(regs: Seq<Reg<'ctx>>) -> Seq<bool> {
    Seq::new(regs.len(), |i: int| regs[i] is Tame)
}

/// The integer type of the back end for an integer primitive.
fn lower_int_type<'ctx>(ctx: &'ctx Context, base: Prim) -> (ty: Option<IntType<'ctx>>)
    ensures
        ty is Some <==> (TypeDesc { base, depth: 0 }).spec_is_int(),
        ty matches Some(t) ==> Some(bits_in(t)) == width_of(base) && t == int_type_in(
            ctx,
            width_of(base).unwrap(),
        ) && plain_type(BasicTypeEnum::IntType(t)),
{
    match bits_of(base) {
        Some(bits) => Some(int_type(ctx, bits)),
        None => None,
    }
}

/// The type of the back end for a type descriptor.
fn lower_type<'ctx>(ctx: &'ctx Context, opaque: &Vec<StructType<'ctx>>, ty: TypeDesc) -> (r: Result<
    BasicTypeEnum<'ctx>,
    EmitError,
>)
    ensures
        r is Ok <==> expressible(ty, opaque@.len()),
        r matches Err(e) ==> e == EmitError::Type,
        r matches Ok(lowered) ==> plain_type(lowered) && match lowered {
            BasicTypeEnum::IntType(t) => ty.spec_is_int() && Some(bits_in(t)) == width_of(ty.base),
            BasicTypeEnum::FloatType(_) => ty == (TypeDesc { base: Prim::Double, depth: 0 }),
            BasicTypeEnum::PointerType(_) => ty.depth > 0,
            _ => false,
        },
{
    let base = match ty.base {
        Prim::Void => {
            return Err(EmitError::Type);
        },
        Prim::Double => BasicTypeEnum::FloatType(double_type(ctx)),
        Prim::Opaque(k) => {
            if k >= opaque.len() || ty.depth == 0 {
                return Err(EmitError::Type);
            }
            BasicTypeEnum::StructType(opaque[k])
        },
        other => match lower_int_type(ctx, other) {
            Some(t) => BasicTypeEnum::IntType(t),
            None => {
                return Err(EmitError::Type);
            },
        },
    };
    let mut lowered = base;
    let mut level: usize = 0;
    while level < ty.depth
        invariant
            level <= ty.depth,
            level > 0 ==> lowered is PointerType,
            level == 0 ==> lowered == base,
            plain_type(lowered) || (level == 0 && lowered is StructType),
        decreases ty.depth - level,
    {
        lowered = BasicTypeEnum::PointerType(pointer_to(lowered));
        level += 1;
    }
    Ok(lowered)
}

/// The types of the back end for a list of parameter types.
fn lower_params<'ctx>(ctx: &'ctx Context, opaque: &Vec<StructType<'ctx>>, params: &Vec<TypeDesc>) -> (r:
    Result<Vec<BasicTypeEnum<'ctx>>, EmitError>)
    ensures
        r is Ok <==> forall|i: int|
            0 <= i < params@.len() ==> expressible(#[trigger] params@[i], opaque@.len()),
        r matches Ok(v) ==> v@.len() == params@.len(),
{
    let mut lowered: Vec<BasicTypeEnum<'ctx>> = Vec::new();
    let mut i: usize = 0;
    while i < params.len()
        invariant
            i <= params@.len(),
            lowered@.len() == i,
            forall|j: int| 0 <= j < i ==> expressible(#[trigger] params@[j], opaque@.len()),
        decreases params@.len() - i,
    {
        match lower_type(ctx, opaque, params[i]) {
            Err(e) => {
                return Err(e);
            },
            Ok(t) => {
                lowered.push(t);
            },
        }
        i += 1;
    }
    Ok(lowered)
}

/// The function type of the back end for a signature.
fn lower_signature<'ctx>(ctx: &'ctx Context, opaque: &Vec<StructType<'ctx>>, sig: &Signature) -> (r:
    Result<FunctionType<'ctx>, EmitError>)
    ensures
        r is Ok <==> sig_expressible(sig@, opaque@.len()),
        r matches Err(e) ==> e == EmitError::Type,
        r matches Ok(ty) ==> shape_of(ty) == shape_for(sig@),
{
    if sig.params.len() > 0xffff_ffff {
        return Err(EmitError::Type);
    }
    let params = match lower_params(ctx, opaque, &sig.params) {
        Err(_) => {
            return Err(EmitError::Type);
        },
        Ok(params) => params,
    };
    if sig.ret.depth == 0 && sig.ret.base == Prim::Void {
        Ok(void_function_type(void_type(ctx), &params, sig.is_variadic))
    } else {
        match lower_type(ctx, opaque, sig.ret) {
            Err(e) => Err(e),
            Ok(ret) => Ok(function_type(ret, &params, sig.is_variadic)),
        }
    }
}

/// Whether a name holds a zero byte.
fn holds_zero(name: &str) -> (yes: bool)
    ensures
        yes == has_zero(name@),
{
    let bytes = name.as_bytes();
    let mut k: usize = 0;
    while k < bytes.len()
        invariant
            k <= bytes@.len(),
            bytes@ == encode_utf8(name@),
            forall|j: int| 0 <= j < k ==> #[trigger] encode_utf8(name@)[j] != 0u8,
        decreases bytes@.len() - k,
    {
        if bytes[k] == 0 {
            assert(encode_utf8(name@)[k as int] == 0u8);
            return true;
        }
        k += 1;
    }
    false
}

/// Whether the names of the declarations can be given to the back end.
fn names_fit(decls: &Vec<FunDecl>) -> (yes: bool)
    ensures
        yes == names_ok(decls_view(decls@)),
{
    let ghost all = decls_view(decls@);
    let n = decls.len();
    let mut j: usize = 0;
    while j < n
        invariant
            n == decls@.len(),
            all == decls_view(decls@),
            j <= n,
            forall|a: int, b: int| #![trigger all[a], all[b]] 0 <= a < b < j ==> all[a].name != all[b].name,
            forall|a: int| 0 <= a < j ==> !has_zero((#[trigger] all[a]).name),
        decreases n - j,
    {
        if holds_zero(decls[j].name.as_str()) {
            assert(has_zero(all[j as int].name));
            return false;
        }
        let mut i: usize = 0;
        while i < j
            invariant
                n == decls@.len(),
                all == decls_view(decls@),
                i <= j < n,
                forall|a: int| 0 <= a < i ==> (#[trigger] all[a]).name != all[j as int].name,
            decreases j - i,
        {
            if str_eq(decls[i].name.as_str(), decls[j].name.as_str()) {
                assert(all[i as int].name == all[j as int].name);
                return false;
            }
            i += 1;
        }
        j += 1;
    }
    true
}

/// The value of the back end for an integer constant: the constant of
/// the integer type of its width with its bits.
pub open spec fn constant_for<'ctx>(ctx: &'ctx Context, v: Value) -> BasicValueEnum<'ctx> {
    BasicValueEnum::IntValue(
        constant_of(
            int_type_in(ctx, width_of(v.ty.base).unwrap()),
            match v.kind {
                ValueKind::Int(bits) => bits,
                _ => 0,
            },
        ),
    )
}

/// What lowering an operand gives, where that is not for the back end to
/// say: the constant for an integer constant, and for a register what is
/// in it.
pub open spec fn lowered_as<'ctx>(
    ctx: &'ctx Context,
    v: Value,
    values: Seq<Option<BasicValueEnum<'ctx>>>,
    val: BasicValueEnum<'ctx>,
) -> bool {
    match v.kind {
        ValueKind::Int(_) => val == constant_for(ctx, v),
        ValueKind::Double(_) => true,
        ValueKind::Reg(id) => Some(val) == values[id as int],
    }
}

/// The value of the back end for an operand. A floating-point constant
/// is made from its bits: the 64-bit integer constant with these bits,
/// cast to the floating-point type.
fn lower_operand<'ctx>(
    ctx: &'ctx Context,
    builder: &inkwell::builder::Builder<'ctx>,
    regs: &Vec<Reg<'ctx>>,
    v: Value,
) -> (r: Result<BasicValueEnum<'ctx>, EmitError>)
    requires
        standing(builder),
    ensures
        match operand_fault(v, defined_in(classes(vals(regs@)))) {
            Some(e) => r == Err::<BasicValueEnum<'ctx>, EmitError>(e),
            None => r is Ok && lowered_as(ctx, v, vals(regs@), r.unwrap()) && (!(v.kind is Double)
                ==> Some(class_of(r.unwrap())) == operand_class(v, classes(vals(regs@)))) && (
            v.kind is Int ==> wide_as(r.unwrap(), v.ty.base)),
        },
{
    match v.kind {
        ValueKind::Int(bits) => {
            if v.ty.depth != 0 {
                return Err(EmitError::Type);
            }
            match lower_int_type(ctx, v.ty.base) {
                Some(ty) => Ok(BasicValueEnum::IntValue(const_int(ty, bits))),
                None => Err(EmitError::Type),
            }
        },
        ValueKind::Double(bits) => {
            if !(v.ty.depth == 0 && v.ty.base == Prim::Double) {
                return Err(EmitError::Type);
            }
            let raw = BasicValueEnum::IntValue(const_int(int_type(ctx, 64), bits));
            Ok(build_cast(builder, raw, BasicTypeEnum::FloatType(double_type(ctx))))
        },
        ValueKind::Reg(id) => {
            if id >= regs.len() {
                return Err(EmitError::Undefined);
            }
            match regs[id].get() {
                Some(val) => Ok(val),
                None => Err(EmitError::Undefined),
            }
        },
    }
}

/// The value of the back end for an operand that is taken as an integer
/// or as a pointer.
fn lower_classed<'ctx>(
    ctx: &'ctx Context,
    builder: &inkwell::builder::Builder<'ctx>,
    regs: &Vec<Reg<'ctx>>,
    v: Value,
) -> (r: Result<BasicValueEnum<'ctx>, EmitError>)
    requires
        standing(builder),
    ensures
        match classed_fault(v, defined_in(classes(vals(regs@)))) {
            Some(e) => r == Err::<BasicValueEnum<'ctx>, EmitError>(e),
            None => r is Ok && lowered_as(ctx, v, vals(regs@), r.unwrap()) && Some(
                class_of(r.unwrap()),
            ) == operand_class(v, classes(vals(regs@))) && (v.kind is Int ==> wide_as(
                r.unwrap(),
                v.ty.base,
            )),
        },
{
    match v.kind {
        ValueKind::Double(_) => Err(EmitError::Type),
        _ => lower_operand(ctx, builder, regs, v),
    }
}

/// Fills register `dst`.
fn put<'ctx>(regs: &mut Vec<Reg<'ctx>>, dst: usize, reg: Reg<'ctx>)
    requires
        dst < old(regs)@.len(),
        val_in(reg) is Some,
    ensures
        vals(final(regs)@) == vals(old(regs)@).update(dst as int, val_in(reg)),
        tames(final(regs)@) == tames(old(regs)@).update(dst as int, reg is Tame),
        classes(vals(final(regs)@)) == classes(vals(old(regs)@)).update(
            dst as int,
            Some(class_of(val_in(reg).unwrap())),
        ),
{
    regs.set(dst, reg);
    assert(vals(regs@) =~= vals(old(regs)@).update(dst as int, val_in(reg)));
    assert(tames(regs@) =~= tames(old(regs)@).update(dst as int, reg is Tame));
    assert(classes(vals(regs@)) =~= classes(vals(old(regs)@)).update(
        dst as int,
        Some(class_of(val_in(reg).unwrap())),
    ));
}

/// Whether an operand is a register that holds a pointer of the
/// lowering's own, which so points to a plain type.
fn tame_at<'ctx>(regs: &Vec<Reg<'ctx>>, v: Value) -> (yes: bool)
    ensures
        yes == match v.kind {
            ValueKind::Reg(id) => id < regs@.len() && tames(regs@)[id as int],
            _ => false,
        },
        yes ==> match v.kind {
            ValueKind::Reg(id) => plain(vals(regs@)[id as int].unwrap()),
            _ => false,
        },
{
    match v.kind {
        ValueKind::Reg(id) => {
            if id >= regs.len() {
                return false;
            }
            regs[id].is_tame()
        },
        _ => false,
    }
}

/// The constants of the back end for the items of a constant array of
/// the integer type `elem`.
fn lower_items<'ctx>(ctx: &'ctx Context, elem: TypeDesc, items: &Vec<Value>) -> (r: Result<
    (IntType<'ctx>, Vec<IntValue<'ctx>>),
    EmitError,
>)
    ensures
        match first(when(!elem.spec_is_int(), EmitError::Type), items_fault(items@, elem)) {
            Some(e) => r matches Err(x) && x == e,
            None => r is Ok,
        },
        r matches Ok(pair) ==> pair.1@.len() == items@.len(),
{
    if elem.depth != 0 {
        return Err(EmitError::Type);
    }
    let ty = match lower_int_type(ctx, elem.base) {
        Some(ty) => ty,
        None => {
            return Err(EmitError::Type);
        },
    };
    let mut lowered: Vec<IntValue<'ctx>> = Vec::new();
    let mut i: usize = 0;
    assert(items@.take(0) =~= Seq::<Value>::empty());
    while i < items.len()
        invariant
            i <= items@.len(),
            lowered@.len() == i,
            elem.spec_is_int(),
            items_fault(items@.take(i as int), elem) is None,
        decreases items@.len() - i,
    {
        let item = items[i];
        proof {
            assert(items@.take(i + 1).drop_last() =~= items@.take(i as int));
            assert(items@.take(i + 1).last() == item);
            if items_fault(items@.take(i + 1), elem) is Some {
                lemma_items_fault_stays(items@, elem, i + 1);
            }
        }
        match item.kind {
            ValueKind::Int(bits) => {
                if !(item.ty.base == elem.base && item.ty.depth == elem.depth) {
                    return Err(EmitError::Type);
                }
                lowered.push(const_int(ty, bits));
            },
            _ => {
                return Err(EmitError::Unsupported);
            },
        }
        i += 1;
    }
    assert(items@.take(i as int) =~= items@);
    Ok((ty, lowered))
}

/// A fault among the first items is the fault among all of them.
proof fn lemma_items_fault_stays(items: Seq<Value>, elem: TypeDesc, k: int)
    requires
        0 <= k <= items.len(),
        items_fault(items.take(k), elem) is Some,
    ensures
        items_fault(items, elem) == items_fault(items.take(k), elem),
    decreases items.len() - k,
{
    if k < items.len() {
        assert(items.take(k + 1).drop_last() =~= items.take(k));
        lemma_items_fault_stays(items, elem, k + 1);
    } else {
        assert(items.take(k) =~= items);
    }
}

/// A fault among the first arguments is the fault among all of them.
proof fn lemma_args_fault_stays(args: Seq<Value>, defined: Set<usize>, k: int)
    requires
        0 <= k <= args.len(),
        args_fault(args.take(k), defined) is Some,
    ensures
        args_fault(args, defined) == args_fault(args.take(k), defined),
    decreases args.len() - k,
{
    if k < args.len() {
        assert(args.take(k + 1).drop_last() =~= args.take(k));
        lemma_args_fault_stays(args, defined, k + 1);
    } else {
        assert(args.take(k) =~= args);
    }
}

/// The values of the back end for the arguments of a call.
fn lower_args<'ctx>(
    ctx: &'ctx Context,
    builder: &inkwell::builder::Builder<'ctx>,
    regs: &Vec<Reg<'ctx>>,
    args: &Vec<Value>,
) -> (r: Result<Vec<BasicValueEnum<'ctx>>, EmitError>)
    requires
        standing(builder),
    ensures
        match args_fault(args@, defined_in(classes(vals(regs@)))) {
            Some(e) => r matches Err(x) && x == e,
            None => r is Ok,
        },
        r matches Ok(lowered) ==> args_as(ctx, args@, vals(regs@), lowered@),
{
    let ghost defined = defined_in(classes(vals(regs@)));
    let mut lowered: Vec<BasicValueEnum<'ctx>> = Vec::new();
    let mut i: usize = 0;
    assert(args@.take(0) =~= Seq::<Value>::empty());
    while i < args.len()
        invariant
            i <= args@.len(),
            lowered@.len() == i,
            defined == defined_in(classes(vals(regs@))),
            standing(builder),
            args_fault(args@.take(i as int), defined) is None,
            forall|j: int|
                0 <= j < i ==> lowered_as(ctx, args@[j], vals(regs@), #[trigger] lowered@[j]),
        decreases args@.len() - i,
    {
        proof {
            assert(args@.take(i + 1).drop_last() =~= args@.take(i as int));
            assert(args@.take(i + 1).last() == args@[i as int]);
            if args_fault(args@.take(i + 1), defined) is Some {
                lemma_args_fault_stays(args@, defined, i + 1);
            }
        }
        match lower_operand(ctx, builder, regs, args[i]) {
            Err(e) => {
                return Err(e);
            },
            Ok(val) => {
                lowered.push(val);
            },
        }
        i += 1;
    }
    assert(args@.take(i as int) =~= args@);
    Ok(lowered)
}

/// The type of the back end for what a slot holds.
fn lower_slot<'ctx>(ctx: &'ctx Context, opaque: &Vec<StructType<'ctx>>, slot: Slot) -> (r: Result<
    BasicTypeEnum<'ctx>,
    EmitError,
>)
    ensures
        r is Ok <==> slot_ok(slot, opaque@.len()),
        r matches Err(e) ==> e == EmitError::Type,
        r matches Ok(ty) ==> plain_type(ty),
{
    match slot {
        Slot::One(t) => lower_type(ctx, opaque, t),
        Slot::Array(t, n) => {
            if n > 0xffff_ffff {
                return Err(EmitError::Type);
            }
            match lower_type(ctx, opaque, t) {
                Err(e) => Err(e),
                Ok(elem) => Ok(BasicTypeEnum::ArrayType(array_of(elem, n as u32))),
            }
        },
        Slot::Text(n) => {
            if n >= 0xffff_ffff {
                return Err(EmitError::Type);
            }
            let byte = BasicTypeEnum::IntType(int_type(ctx, 8));
            Ok(BasicTypeEnum::ArrayType(array_of(byte, (n + 1) as u32)))
        },
    }
}


/// A lowering in progress: the back end's module with its functions, the
/// builder that stands at the end of the entry block, and the registers
/// that the instructions lowered so far have defined.
pub struct Lowering<'ctx> {
    module: Module<'ctx>,
    builder: Option<Emitter<'ctx>>,
    opaque: Vec<StructType<'ctx>>,
    functions: Vec<Callee<'ctx>>,
    regs: Vec<Reg<'ctx>>,
    last: Option<InstructionValue<'ctx>>,
}

impl<'ctx> Lowering<'ctx> {
    /// What is in each register of the unit: nothing, or a value of the
    /// back end.
    pub closed spec fn values(&self) -> Seq<Option<BasicValueEnum<'ctx>>> {
        vals(self.regs@)
    }

    /// Which registers hold a pointer of the lowering's own: one that an
    /// instruction of the unit defined, and none that `define` put there.
    /// Such a pointer points to a plain type.
    pub closed spec fn own(&self) -> Seq<bool> {
        tames(self.regs@)
    }

    /// What each register of the unit holds: nothing, or a value of a
    /// class.
    pub open spec fn holds(&self) -> Seq<Option<Class>> {
        classes(self.values())
    }

    /// The builder that stands at the end of the entry block, where there
    /// is one.
    pub closed spec fn emitter(&self) -> Option<inkwell::builder::Builder<'ctx>> {
        match self.builder {
            Some(emitter) => Some(emitter.builder),
            None => None,
        }
    }

    /// Which of the functions of the unit return a value.
    pub closed spec fn gives(&self) -> Seq<bool> {
        Seq::new(self.functions@.len(), |i: int| self.functions@[i].gives)
    }

    /// The number of opaque structures of the table.
    pub closed spec fn n_opaque(&self) -> nat {
        self.opaque@.len()
    }

    /// Whether the unit has an entry block, at whose end the builder
    /// stands.
    pub open spec fn has_block(&self) -> bool {
        self.emitter() is Some
    }

    /// The back end's module that this lowering builds.
    pub closed spec fn built(&self) -> Module<'ctx> {
        self.module
    }

    /// The store, the return or the call of a function that returns
    /// nothing that was emitted last, if any was.
    pub closed spec fn last(&self) -> Option<InstructionValue<'ctx>> {
        self.last
    }

    /// The functions of the back end's module, in the order of the
    /// unit's.
    pub closed spec fn functions(&self) -> Seq<inkwell::values::FunctionValue<'ctx>> {
        Seq::new(self.functions@.len(), |i: int| self.functions@[i].function)
    }

    /// What the unit itself decides about lowering an instruction now.
    pub open spec fn fault(&self, inst: InstSpec) -> Option<EmitError> {
        first(
            when(!self.has_block(), EmitError::Undefined),
            inst_fault(
                inst,
                defined_in(self.holds()),
                self.holds().len(),
                self.gives(),
                self.n_opaque(),
            ),
        )
    }

    /// This is the lowering of `unit` as it starts: no register holds
    /// anything, nothing was emitted, the builder stands in the entry
    /// block if the unit has one, and the module holds the functions of
    /// the unit, each under its name, with the external linkage and with
    /// the shape of its signature, in their order.
    pub open spec fn begins(&self, unit: &VMMod, n_opaque: nat) -> bool {
        &&& self.values() == Seq::new(unit.regs@.len(), |i: int| None::<BasicValueEnum<'ctx>>)
        &&& self.own() == Seq::new(unit.regs@.len(), |i: int| false)
        &&& self.gives() == gives_of(unit)
        &&& self.functions().len() == unit.decls@.len()
        &&& forall|i: int|
            0 <= i < unit.decls@.len() ==> shape_held(#[trigger] self.functions()[i]) == shape_for(
                unit.declared()[i].sig,
            )
        &&& self.n_opaque() == n_opaque
        &&& self.has_block() == (unit.entry is Some)
        &&& functions_of(&self.built()) == held_of(unit)
        &&& self.last() is None
    }

    /// `after` is this lowering once `inst` was emitted: the module, the
    /// builder and the functions are the same, the register of the
    /// instruction holds what it defines, every other register holds
    /// what it held, and the instruction that was emitted last is as
    /// `emits` says.
    pub open spec fn steps_to(&self, after: &Lowering<'ctx>, ctx: &'ctx Context, inst: InstSpec) -> bool {
        &&& after.gives() == self.gives()
        &&& after.functions() == self.functions()
        &&& after.n_opaque() == self.n_opaque()
        &&& after.emitter() == self.emitter()
        &&& after.built() == self.built()
        &&& stepped(self.holds(), after.holds(), inst)
        &&& kept(self.values(), after.values(), inst)
        &&& owned(self.own(), after.own(), after.values(), inst)
        &&& defines(inst, ctx, self.functions(), self.values(), after.values())
        &&& emits(inst, ctx, self.functions(), self.values(), self.last(), after.last())
    }

    /// As many registers as values, and no register is the lowering's
    /// own that holds no pointer.
    pub proof fn lemma_own_is_pointer(&self)
        ensures
            self.own().len() == self.values().len(),
            forall|id: int|
                0 <= id < self.own().len() && #[trigger] self.own()[id] ==> self.holds()[id]
                    == Some(Class::Pointer),
    {
    }

    /// Starts the lowering of a unit: builds the back end's module with an
    /// opaque structure for each of the table's and a function for each
    /// declaration, under its name and with the linkage of `linkage_for`,
    /// and puts the builder at the end of a new block of `main`, if the
    /// unit has a `main`.
    ///
    /// This fails exactly where `decls_fault` names a fault, and with
    /// that fault. The module then holds the functions of the unit, each
    /// under its name, with the external linkage and with the shape of its
    /// signature, in their order.
    pub fn begin(ctx: &'ctx Context, unit: &VMMod, table: &TypeTable) -> (r: Result<
        Lowering<'ctx>,
        EmitError,
    >)
        ensures
            match decls_fault(unit, table.opaque@.len()) {
                Some(e) => r matches Err(x) && x == e,
                None => r is Ok,
            },
            r matches Ok(l) ==> l.begins(unit, table.opaque@.len()),
    {
        if !names_fit(&unit.decls) {
            return Err(EmitError::Name);
        }
        let mut module = create_module(ctx, unit.name.as_str());
        let mut opaque: Vec<StructType<'ctx>> = Vec::new();
        let mut s: usize = 0;
        while s < table.opaque.len()
            invariant
                s <= table.opaque@.len(),
                opaque@.len() == s,
            decreases table.opaque@.len() - s,
        {
            opaque.push(opaque_struct(ctx, table.opaque[s].as_str()));
            s += 1;
        }
        let ghost names = held_of(unit);
        let mut functions: Vec<Callee<'ctx>> = Vec::new();
        let mut i: usize = 0;
        assert(functions_of(&module) =~= names.take(0));
        while i < unit.decls.len()
            invariant
                i <= unit.decls@.len(),
                functions@.len() == i,
                opaque@.len() == table.opaque@.len(),
                names == held_of(unit),
                names_ok(unit.declared()),
                functions_of(&module) == names.take(i as int),
                globals_in(&module) == 0,
                forall|j: int|
                    0 <= j < i ==> sig_expressible((#[trigger] unit.decls@[j]).sig@, opaque@.len()),
                forall|j: int|
                    0 <= j < i ==> (#[trigger] functions@[j]).gives == !is_void(
                        unit.declared()[j].sig.ret,
                    ) && shape_held(functions@[j].function) == shape_for(unit.declared()[j].sig),
            decreases unit.decls@.len() - i,
        {
            let sig = &unit.decls[i].sig;
            let ty = match lower_signature(ctx, &opaque, sig) {
                Err(e) => {
                    return Err(e);
                },
                Ok(ty) => ty,
            };
            let linkage = linkage_for(unit, i);
            let gives = !(sig.ret.depth == 0 && sig.ret.base == Prim::Void);
            proof {
                let decls = unit.declared();
                assert(decls[i as int].name == unit.decls@[i as int].name@);
                assert(!has_zero(decls[i as int].name));
                if holds_name(names.take(i as int), decls[i as int].name) {
                    let j = choose|j: int|
                        0 <= j < names.take(i as int).len() && (#[trigger] names.take(
                            i as int,
                        )[j]).name == decls[i as int].name;
                    assert(decls[j].name != decls[i as int].name);
                }
                assert(names.take(i + 1) =~= names.take(i as int).push(
                    Held {
                        name: decls[i as int].name,
                        linkage: linkage_given(linkage),
                        shape: shape_for(decls[i as int].sig),
                    },
                ));
                assert(decls[i as int].sig == unit.decls@[i as int].sig@);
                assert(gives == !is_void(decls[i as int].sig.ret));
            }
            let function = add_function(&mut module, unit.decls[i].name.as_str(), ty, linkage);
            functions.push(Callee::new(function, gives));
            i += 1;
        }
        assert(names.take(i as int) =~= names);
        let builder = match unit.entry {
            None => None,
            Some(entry) => {
                if entry >= functions.len() {
                    return Err(EmitError::Undefined);
                }
                let block = append_block(ctx, functions[entry].get(), entry_label());
                Some(Emitter::new(stand_at_end(create_builder(ctx), block)))
            },
        };
        let mut regs: Vec<Reg<'ctx>> = Vec::new();
        let mut n: usize = 0;
        while n < unit.regs.len()
            invariant
                n <= unit.regs@.len(),
                regs@.len() == n,
                forall|j: int| 0 <= j < n ==> (#[trigger] regs@[j]) is Empty,
            decreases unit.regs@.len() - n,
        {
            regs.push(Reg::Empty);
            n += 1;
        }
        let lowering = Lowering { module, builder, opaque, functions, regs, last: None };
        assert(lowering.values() =~= Seq::new(
            unit.regs@.len(),
            |i: int| None::<BasicValueEnum<'ctx>>,
        ));
        assert(lowering.own() =~= Seq::new(unit.regs@.len(), |i: int| false));
        assert(lowering.gives() =~= gives_of(unit));
        Ok(lowering)
    }

    /// The store, the return or the call of a function that returns
    /// nothing that was emitted last, if any was.
    pub fn last_emitted(&self) -> (instr: Option<InstructionValue<'ctx>>)
        ensures
            instr == self.last(),
    {
        self.last
    }

    /// The builder, which stands at the end of the entry block; `None`
    /// where the unit has no entry block. Who emits with it leaves it in
    /// that block.
    pub fn cursor(&self) -> (builder: Option<&inkwell::builder::Builder<'ctx>>)
        ensures
            match builder {
                Some(b) => self.emitter() == Some(*b) && standing(b),
                None => self.emitter() is None,
            },
    {
        match &self.builder {
            Some(emitter) => Some(emitter.get()),
            None => None,
        }
    }

    /// The value of the back end for an operand: the constant for a
    /// constant, and for a register what was put into it. Without an
    /// entry block this fails with `EmitError::Undefined`; else exactly
    /// where `operand_fault` names a fault, and with that fault. What is
    /// handed out for a floating-point constant is for the back end to
    /// say.
    pub fn operand(&self, ctx: &'ctx Context, v: Value) -> (r: Result<BasicValueEnum<'ctx>, EmitError>)
        ensures
            match first(
                when(!self.has_block(), EmitError::Undefined),
                operand_fault(v, defined_in(self.holds())),
            ) {
                Some(e) => r matches Err(x) && x == e,
                None => r is Ok && lowered_as(ctx, v, self.values(), r.unwrap()) && (!(v.kind
                    is Double) ==> Some(class_of(r.unwrap())) == operand_class(v, self.holds())),
            },
    {
        match &self.builder {
            None => Err(EmitError::Undefined),
            Some(emitter) => lower_operand(ctx, emitter.get(), &self.regs, v),
        }
    }

    /// Puts `val` into register `dst`, and says whether the unit has such
    /// a register. The register then holds a value of the class of `val`,
    /// which is none of the lowering's own: where it is a pointer, nothing
    /// is known of what it points to, and a load through it is refused.
    pub fn define(&mut self, dst: usize, val: BasicValueEnum<'ctx>) -> (done: bool)
        ensures
            done == (dst < old(self).values().len()),
            final(self).values() == if done {
                old(self).values().update(dst as int, Some(val))
            } else {
                old(self).values()
            },
            final(self).own() == if done {
                old(self).own().update(dst as int, false)
            } else {
                old(self).own()
            },
            final(self).gives() == old(self).gives(),
            final(self).functions() == old(self).functions(),
            final(self).n_opaque() == old(self).n_opaque(),
            final(self).emitter() == old(self).emitter(),
            final(self).built() == old(self).built(),
            final(self).last() == old(self).last(),
    {
        if dst < self.regs.len() {
            put(&mut self.regs, dst, Reg::Value(val));
            true
        } else {
            false
        }
    }

    /// Emits one instruction at the end of the entry block, and puts what
    /// it defines into its register.
    ///
    /// The unit decides first: where `fault` names a fault, this fails
    /// with it. Then the registers decide: where one holds a value of
    /// another class than the instruction takes, this fails with
    /// `EmitError::Operand`, and so where the two sides of a sum or of a
    /// comparison are integers of two widths, and where a load cannot be
    /// made, as `load_error` says. Beyond that the instruction succeeds,
    /// and the lowering is then as `steps_to` says: what the instruction
    /// defines is in its register, as `defines` says of it, and a store, a
    /// return and a call of a function that returns nothing are the
    /// instruction that was emitted last, with the operands that `emits`
    /// names.
    pub fn step(&mut self, ctx: &'ctx Context, inst: &Inst) -> (r: Result<(), EmitError>)
        ensures
            final(self).gives() == old(self).gives(),
            final(self).functions() == old(self).functions(),
            final(self).n_opaque() == old(self).n_opaque(),
            final(self).emitter() == old(self).emitter(),
            final(self).built() == old(self).built(),
            old(self).fault(inst@) matches Some(e) ==> r matches Err(x) && x == e,
            old(self).fault(inst@) is None && class_error(inst@, old(self).holds()) ==> r matches Err(
                EmitError::Operand,
            ),
            old(self).fault(inst@) is None && !class_error(inst@, old(self).holds()) ==> r is Ok
                || (outside_decides(inst@) && r matches Err(EmitError::Operand)),
            old(self).fault(inst@) is None && !class_error(inst@, old(self).holds()) && (inst@
                is Add || inst@ is Compare) ==> (r is Ok <==> !width_error(
                inst@,
                ctx,
                old(self).values(),
            )),
            old(self).fault(inst@) is None && !class_error(inst@, old(self).holds()) && inst@
                is Load ==> (r is Ok <==> !load_error(inst@, old(self).values(), old(self).own())),
            r is Ok ==> old(self).steps_to(final(self), ctx, inst@),
            r is Err ==> final(self).values() == old(self).values() && final(self).own() == old(
                self,
            ).own() && final(self).last() == old(self).last(),
    {
        let builder = match &self.builder {
            None => {
                return Err(EmitError::Undefined);
            },
            Some(emitter) => emitter.get(),
        };
        match inst {
            Inst::Alloca { dst, slot } => {
                if *dst >= self.regs.len() {
                    return Err(EmitError::Undefined);
                }
                let ty = lower_slot(ctx, &self.opaque, *slot)?;
                let ptr = build_alloca(builder, ty);
                put(&mut self.regs, *dst, Reg::own(BasicValueEnum::PointerValue(ptr)));
                Ok(())
            },
            Inst::ArrayAlloca { dst, elem, count } => {
                if *dst >= self.regs.len() {
                    return Err(EmitError::Undefined);
                }
                let ty = lower_type(ctx, &self.opaque, *elem)?;
                let count = lower_classed(ctx, builder, &self.regs, *count)?;
                let count = int_of(count)?;
                let ptr = build_array_alloca(builder, ty, count);
                put(&mut self.regs, *dst, Reg::own(BasicValueEnum::PointerValue(ptr)));
                Ok(())
            },
            Inst::Store { ptr, val } => {
                let val = lower_operand(ctx, builder, &self.regs, *val)?;
                let ptr = lower_classed(ctx, builder, &self.regs, *ptr)?;
                let ptr = ptr_of(ptr)?;
                self.last = Some(build_store(builder, ptr, val));
                Ok(())
            },
            Inst::StoreText { ptr, text } => {
                if text.as_str().as_bytes().len() > 0xffff_ffff {
                    return Err(EmitError::Type);
                }
                let ptr = lower_classed(ctx, builder, &self.regs, *ptr)?;
                let ptr = ptr_of(ptr)?;
                let val = const_text(ctx, text.as_str());
                self.last = Some(build_store(builder, ptr, BasicValueEnum::ArrayValue(val)));
                Ok(())
            },
            Inst::StoreArray { ptr, elem, items } => {
                if items.len() > 0xffff_ffff {
                    return Err(EmitError::Type);
                }
                let (ty, lowered) = lower_items(ctx, *elem, items)?;
                let ptr = lower_classed(ctx, builder, &self.regs, *ptr)?;
                let ptr = ptr_of(ptr)?;
                let val = const_int_array(ty, &lowered);
                self.last = Some(build_store(builder, ptr, BasicValueEnum::ArrayValue(val)));
                Ok(())
            },
            Inst::Load { dst, ptr } => {
                if *dst >= self.regs.len() {
                    return Err(EmitError::Undefined);
                }
                let from = lower_classed(ctx, builder, &self.regs, *ptr)?;
                let from = ptr_of(from)?;
                if !tame_at(&self.regs, *ptr) {
                    return Err(EmitError::Operand);
                }
                if !can_load(pointee_of(from)) {
                    return Err(EmitError::Operand);
                }
                let val = build_load(builder, from);
                put(&mut self.regs, *dst, Reg::own(val));
                Ok(())
            },
            Inst::Add { dst, lhs, rhs } => {
                if *dst >= self.regs.len() {
                    return Err(EmitError::Undefined);
                }
                if lhs.ty != rhs.ty {
                    return Err(EmitError::Type);
                }
                let lhs = lower_classed(ctx, builder, &self.regs, *lhs)?;
                let rhs = lower_classed(ctx, builder, &self.regs, *rhs)?;
                let lhs = int_of(lhs)?;
                let rhs = int_of(rhs)?;
                if !same_width(lhs, rhs) {
                    return Err(EmitError::Operand);
                }
                let sum = build_add(builder, lhs, rhs);
                put(&mut self.regs, *dst, Reg::Value(BasicValueEnum::IntValue(sum)));
                Ok(())
            },
            Inst::Compare { dst, test, lhs, rhs } => {
                if *dst >= self.regs.len() {
                    return Err(EmitError::Undefined);
                }
                if lhs.ty != rhs.ty {
                    return Err(EmitError::Type);
                }
                let lhs = lower_classed(ctx, builder, &self.regs, *lhs)?;
                let rhs = lower_classed(ctx, builder, &self.regs, *rhs)?;
                let lhs = int_of(lhs)?;
                let rhs = int_of(rhs)?;
                if !same_width(lhs, rhs) {
                    return Err(EmitError::Operand);
                }
                let bit = build_compare(builder, predicate_for(*test), lhs, rhs);
                put(&mut self.regs, *dst, Reg::Value(BasicValueEnum::IntValue(bit)));
                Ok(())
            },
            Inst::Cast { dst, src, to } => {
                if *dst >= self.regs.len() {
                    return Err(EmitError::Undefined);
                }
                let to = lower_type(ctx, &self.opaque, *to)?;
                let src = lower_operand(ctx, builder, &self.regs, *src)?;
                let cast = build_cast(builder, src, to);
                put(&mut self.regs, *dst, Reg::own(cast));
                Ok(())
            },
            Inst::ElementPtr { .. } => Err(EmitError::Unsupported),
            Inst::Call { dst, callee, args } => {
                if callee.index >= self.functions.len() {
                    return Err(EmitError::Undefined);
                }
                if args.len() > 0xffff_ffff {
                    return Err(EmitError::Type);
                }
                if let Some(d) = dst {
                    if *d >= self.regs.len() {
                        return Err(EmitError::Undefined);
                    }
                }
                assert(inst@ == (InstSpec::Call { dst: *dst, callee: *callee, args: args@ }));
                let lowered = lower_args(ctx, builder, &self.regs, args)?;
                let function = self.functions[callee.index].get();
                assert(function == self.functions()[callee.index as int]);
                if dst.is_some() && !self.functions[callee.index].gives {
                    return Err(EmitError::Operand);
                }
                match build_call(builder, function, &lowered) {
                    Either::Left(val) => {
                        if let Some(d) = dst {
                            put(&mut self.regs, *d, Reg::own(val));
                        }
                    },
                    Either::Right(instr) => {
                        self.last = Some(instr);
                    },
                }
                Ok(())
            },
            Inst::Ret { val } => {
                let val = match val {
                    None => None,
                    Some(v) => Some(lower_operand(ctx, builder, &self.regs, *v)?),
                };
                self.last = Some(build_ret(builder, val));
                Ok(())
            },
        }
    }

    /// Ends the lowering and hands out the module that it has built.
    pub fn finish(self) -> (module: Module<'ctx>)
        ensures
            module == self.built(),
    {
        self.module
    }
}

/// `states` are the states that a lowering goes through while it emits
/// the instructions `from..to` of `code`, one after the other.
pub open spec fn runs_through<'ctx>(
    states: Seq<Lowering<'ctx>>,
    ctx: &'ctx Context,
    code: Seq<InstSpec>,
    from: int,
    to: int,
) -> bool {
    &&& states.len() == if to > from {
        to - from + 1
    } else {
        1
    }
    &&& forall|i: int|
        0 <= i < states.len() - 1 ==> (#[trigger] states[i]).steps_to(
            &states[i + 1],
            ctx,
            code[from + i],
        )
}

/// `after` is `before` once the instructions `from..to` of `code` were
/// emitted, one after the other.
pub open spec fn runs_to<'ctx>(
    before: Lowering<'ctx>,
    after: Lowering<'ctx>,
    ctx: &'ctx Context,
    code: Seq<InstSpec>,
    from: int,
    to: int,
) -> bool {
    exists|states: Seq<Lowering<'ctx>>| #[trigger]
        runs_through(states, ctx, code, from, to) && states.first() == before && states.last()
            == after
}

/// `module` is what the lowering of `unit` has built: a lowering that
/// began with the unit and then, where the unit has an entry, emitted
/// every one of its instructions.
pub open spec fn lowered_by<'ctx>(
    module: Module<'ctx>,
    ctx: &'ctx Context,
    unit: &VMMod,
    n_opaque: nat,
) -> bool {
    exists|first: Lowering<'ctx>, last: Lowering<'ctx>| #[trigger]
        runs_to(first, last, ctx, unit.body(), 0, lowered_len(unit)) && first.begins(unit, n_opaque)
            && last.built() == module
}

/// The number of instructions of a unit that are lowered: all, or none
/// where the unit has no entry.
pub open spec fn lowered_len(unit: &VMMod) -> int {
    if unit.entry is Some {
        unit.code@.len() as int
    } else {
        0
    }
}

/// What is known of a register ahead of the lowering: nothing is in it
/// (`None`), or a value is in it whose class is known, or is for the
/// back end to say (`Some(None)`).
pub type Forecast = Seq<Option<Option<Class>>>;

/// The forecast in which no register holds anything.
pub open spec fn blank(n_regs: nat) -> Forecast {
    Seq::new(n_regs, |i: int| None::<Option<Class>>)
}

/// The forecast that says what the registers hold.
pub open spec fn known_of(holds: Seq<Option<Class>>) -> Forecast {
    Seq::new(
        holds.len(),
        |i: int|
            match holds[i] {
                Some(c) => Some(Some(c)),
                None => None,
            },
    )
}

/// The forecast after an instruction that succeeds.
pub open spec fn forecast_step(known: Forecast, inst: InstSpec) -> Forecast {
    match dst_of(inst) {
        Some(d) => if d < known.len() {
            known.update(d as int, Some(made(inst)))
        } else {
            known
        },
        None => known,
    }
}

/// The forecast before instruction `k` of `code`, where `start` is the
/// forecast before instruction `from`.
pub open spec fn forecast(start: Forecast, code: Seq<InstSpec>, from: int, k: int) -> Forecast
    decreases k - from,
{
    if k <= from {
        start
    } else {
        forecast_step(forecast(start, code, from, k - 1), code[k - 1])
    }
}

/// The registers in which the forecast sees a value.
pub open spec fn forecast_defined(known: Forecast) -> Set<usize> {
    Set::new(|id: usize| id < known.len() && known[id as int] is Some)
}

/// The registers hold what the forecast says.
pub open spec fn as_forecast(holds: Seq<Option<Class>>, known: Forecast) -> bool {
    &&& holds.len() == known.len()
    &&& forall|id: int|
        0 <= id < holds.len() ==> ((#[trigger] known[id]) is None <==> holds[id] is None)
    &&& forall|id: int|
        0 <= id < holds.len() ==> ((#[trigger] known[id]) matches Some(Some(c)) ==> holds[id]
            == Some(c))
}

/// What the unit itself decides about lowering an instruction, given a
/// forecast of the registers and whether there is an entry block.
pub open spec fn forecast_fault(
    inst: InstSpec,
    known: Forecast,
    block: bool,
    gives: Seq<bool>,
    n_opaque: nat,
) -> Option<EmitError> {
    first(
        when(!block, EmitError::Undefined),
        inst_fault(inst, forecast_defined(known), known.len(), gives, n_opaque),
    )
}

/// The first fault among the instructions `from..k` of `code`, each held
/// against the forecast before it.
pub open spec fn code_fault(
    start: Forecast,
    code: Seq<InstSpec>,
    from: int,
    k: int,
    block: bool,
    gives: Seq<bool>,
    n_opaque: nat,
) -> Option<EmitError>
    decreases k - from,
{
    if k <= from {
        None
    } else {
        first(
            code_fault(start, code, from, k - 1, block, gives, n_opaque),
            forecast_fault(code[k - 1], forecast(start, code, from, k - 1), block, gives, n_opaque),
        )
    }
}

/// What the unit itself decides about its lowering: the fault of its
/// declarations, or else the first fault of its instructions, or none. A
/// unit without an entry has no fault in its instructions: they are not
/// lowered.
pub open spec fn unit_fault(unit: &VMMod, n_opaque: nat) -> Option<EmitError> {
    first(
        decls_fault(unit, n_opaque),
        if unit.entry is Some {
            code_fault(
                blank(unit.regs@.len()),
                unit.body(),
                0,
                unit.code@.len() as int,
                true,
                gives_of(unit),
                n_opaque,
            )
        } else {
            None
        },
    )
}

/// The class that the forecast knows of what an operand is lowered to.
pub open spec fn forecast_class(v: Value, known: Forecast) -> Option<Class> {
    match v.kind {
        ValueKind::Int(_) => Some(Class::Int),
        ValueKind::Double(_) => None,
        ValueKind::Reg(id) => if id < known.len() && known[id as int] is Some {
            known[id as int].unwrap()
        } else {
            None
        },
    }
}

/// The forecast is sure that the instruction succeeds once the unit has
/// no fault in it: its success is not for the back end to say, and every
/// value that it takes as an integer or as a pointer is known to be one.
pub open spec fn sure(inst: InstSpec, known: Forecast) -> bool {
    &&& !outside_decides(inst)
    &&& match inst {
        InstSpec::ArrayAlloca { count, .. } => forecast_class(count, known) == Some(Class::Int),
        InstSpec::Store { ptr, .. } => forecast_class(ptr, known) == Some(Class::Pointer),
        InstSpec::StoreText { ptr, .. } => forecast_class(ptr, known) == Some(Class::Pointer),
        InstSpec::StoreArray { ptr, .. } => forecast_class(ptr, known) == Some(Class::Pointer),
        InstSpec::Add { lhs, rhs, .. } => forecast_class(lhs, known) == Some(Class::Int)
            && forecast_class(rhs, known) == Some(Class::Int),
        InstSpec::Compare { lhs, rhs, .. } => forecast_class(lhs, known) == Some(Class::Int)
            && forecast_class(rhs, known) == Some(Class::Int),
        _ => true,
    }
}

/// The forecast is sure of every one of the instructions `from..to`.
pub open spec fn all_sure(start: Forecast, code: Seq<InstSpec>, from: int, to: int) -> bool {
    forall|k: int| from <= k < to ==> sure(#[trigger] code[k], forecast(start, code, from, k))
}

/// The unit has no entry, or the forecast is sure of every one of its
/// instructions.
pub open spec fn classes_known(unit: &VMMod) -> bool {
    unit.entry is Some ==> all_sure(blank(unit.regs@.len()), unit.body(), 0, unit.code@.len() as int)
}

/// A fault among the first instructions is the fault among all of them.
pub proof fn lemma_code_fault_stays(
    start: Forecast,
    code: Seq<InstSpec>,
    from: int,
    j: int,
    k: int,
    block: bool,
    gives: Seq<bool>,
    n_opaque: nat,
)
    requires
        from <= j <= k,
    ensures
        code_fault(start, code, from, j, block, gives, n_opaque) is Some ==> code_fault(
            start,
            code,
            from,
            k,
            block,
            gives,
            n_opaque,
        ) == code_fault(start, code, from, j, block, gives, n_opaque),
        code_fault(start, code, from, k, block, gives, n_opaque) is None ==> code_fault(
            start,
            code,
            from,
            j,
            block,
            gives,
            n_opaque,
        ) is None,
    decreases k - j,
{
    if j < k {
        lemma_code_fault_stays(start, code, from, j, k - 1, block, gives, n_opaque);
    }
}

/// Where the registers hold what the forecast says, both see a value in
/// the same registers, and what the forecast is sure of holds of the
/// registers.
pub proof fn lemma_forecast_holds(holds: Seq<Option<Class>>, known: Forecast, inst: InstSpec)
    requires
        as_forecast(holds, known),
    ensures
        defined_in(holds) == forecast_defined(known),
        sure(inst, known) ==> !class_error(inst, holds) && !outside_decides(inst),
{
    assert(defined_in(holds) =~= forecast_defined(known));
}

/// After an instruction that succeeded the registers hold what the
/// forecast says of them then.
pub proof fn lemma_forecast_steps(
    before: Seq<Option<Class>>,
    after: Seq<Option<Class>>,
    known: Forecast,
    inst: InstSpec,
)
    requires
        as_forecast(before, known),
        stepped(before, after, inst),
    ensures
        as_forecast(after, forecast_step(known, inst)),
{
}

impl<'ctx> Lowering<'ctx> {
    /// Emits the instructions of `code` from place `from` on, one after
    /// the other, until all are emitted or one is met that this library
    /// does not lower, the address of an element. Returns the place of
    /// that instruction, or `None` where all were emitted.
    ///
    /// The instructions are held against the forecast that starts from
    /// what the registers hold. This fails on the first instruction that
    /// has a fault, with that fault, or before it on an instruction that
    /// meets a value of another class than it takes, with
    /// `EmitError::Operand`. Where no instruction has a fault and the
    /// forecast is sure of every one, all are emitted. Where this
    /// succeeds, the lowering is as `runs_to` says: every instruction up
    /// to the place where it stopped was emitted, one after the other.
    pub fn run(&mut self, ctx: &'ctx Context, code: &Vec<Inst>, from: usize) -> (r: Result<
        Option<usize>,
        EmitError,
    >)
        ensures
            final(self).gives() == old(self).gives(),
            final(self).functions() == old(self).functions(),
            final(self).n_opaque() == old(self).n_opaque(),
            final(self).emitter() == old(self).emitter(),
            final(self).built() == old(self).built(),
            ({
                let start = known_of(old(self).holds());
                let body = insts_view(code@);
                let len = code@.len() as int;
                let fault = |k: int|
                    code_fault(
                        start,
                        body,
                        from as int,
                        k,
                        old(self).has_block(),
                        old(self).gives(),
                        old(self).n_opaque(),
                    );
                &&& r matches Ok(None) ==> fault(len) is None && as_forecast(
                    final(self).holds(),
                    forecast(start, body, from as int, len),
                ) && runs_to(*old(self), *final(self), ctx, body, from as int, len)
                &&& r matches Ok(Some(at)) ==> from <= at < len && body[at as int] is ElementPtr
                    && fault(at as int) is None && as_forecast(
                    final(self).holds(),
                    forecast(start, body, from as int, at as int),
                ) && runs_to(*old(self), *final(self), ctx, body, from as int, at as int)
                &&& r matches Err(e) ==> e == EmitError::Operand || fault(len) == Some(e)
                &&& fault(len) is None && all_sure(start, body, from as int, len) ==> r matches Ok(
                    None,
                )
            }),
    {
        let ghost start = known_of(self.holds());
        let ghost body = insts_view(code@);
        let ghost block = self.has_block();
        let ghost gives = self.gives();
        let ghost n_opaque = self.n_opaque();
        let ghost len = code@.len() as int;
        let mut k: usize = from;
        let ghost mut states = seq![*self];
        while k < code.len()
            invariant
                from <= k,
                k <= len || k == from,
                start == known_of(old(self).holds()),
                body == insts_view(code@),
                len == code@.len(),
                block == old(self).has_block(),
                gives == old(self).gives(),
                n_opaque == old(self).n_opaque(),
                self.gives() == gives,
                self.functions() == old(self).functions(),
                self.n_opaque() == n_opaque,
                self.emitter() == old(self).emitter(),
                self.built() == old(self).built(),
                as_forecast(self.holds(), forecast(start, body, from as int, k as int)),
                code_fault(start, body, from as int, k as int, block, gives, n_opaque) is None,
                runs_through(states, ctx, body, from as int, k as int),
                states.first() == *old(self),
                states.last() == *self,
            decreases code@.len() - k,
        {
            let ghost known = forecast(start, body, from as int, k as int);
            let ghost before = self.holds();
            proof {
                assert(body[k as int] == code@[k as int]@);
                lemma_forecast_holds(before, known, body[k as int]);
                lemma_code_fault_stays(start, body, from as int, k + 1, len, block, gives, n_opaque);
            }
            if let Inst::ElementPtr { .. } = &code[k] {
                return Ok(Some(k));
            }
            match self.step(ctx, &code[k]) {
                Err(e) => {
                    return Err(e);
                },
                Ok(()) => {
                    proof {
                        lemma_forecast_steps(before, self.holds(), known, body[k as int]);
                        states = states.push(*self);
                    }
                },
            }
            k += 1;
        }
        proof {
            if k > len {
                assert(forecast(start, body, from as int, len) == start);
                assert(forecast(start, body, from as int, k as int) == start);
            }
            assert(runs_through(states, ctx, body, from as int, len));
        }
        Ok(None)
    }
}

/// Builds the back end's module for a unit: an opaque structure for each
/// of the table's, a function for each declaration, and in the entry
/// block of `main` the unit's instructions.
///
/// The unit decides first: where `unit_fault` names a fault, lowering
/// fails, with that fault or, where an instruction before the faulty one
/// meets a value of another class than it takes, with
/// `EmitError::Operand`. A unit without a fault is lowered, unless such
/// a value is met; it is lowered for sure where the forecast is sure of
/// every instruction. The module holds the functions of the unit, each
/// under its name, with the external linkage and with the shape of its
/// signature, in their order, and it is what a lowering built that
/// emitted every instruction of the unit, as `lowered_by` says.
pub fn lower_unit<'ctx>(ctx: &'ctx Context, unit: &VMMod, table: &TypeTable) -> (r: Result<
    Module<'ctx>,
    EmitError,
>)
    ensures
        r is Ok ==> unit_fault(unit, table.opaque@.len()) is None,
        r matches Err(e) ==> e == EmitError::Operand || unit_fault(unit, table.opaque@.len())
            == Some(e),
        decls_fault(unit, table.opaque@.len()) matches Some(e) ==> r matches Err(x) && x == e,
        unit_fault(unit, table.opaque@.len()) is None && classes_known(unit) ==> r is Ok,
        r matches Ok(module) ==> functions_of(&module) == held_of(unit) && lowered_by(
            module,
            ctx,
            unit,
            table.opaque@.len(),
        ),
{
    let mut lowering = match Lowering::begin(ctx, unit, table) {
        Err(e) => {
            return Err(e);
        },
        Ok(lowering) => lowering,
    };
    let ghost first = lowering;
    if unit.entry.is_none() {
        assert(runs_through(seq![first], ctx, unit.body(), 0, lowered_len(unit)));
        assert(runs_to(first, first, ctx, unit.body(), 0, lowered_len(unit)));
        return Ok(lowering.finish());
    }
    proof {
        assert(known_of(lowering.holds()) =~= blank(unit.regs@.len()));
        lemma_code_fault_stays(
            blank(unit.regs@.len()),
            unit.body(),
            0,
            0,
            unit.code@.len() as int,
            true,
            gives_of(unit),
            table.opaque@.len(),
        );
    }
    match lowering.run(ctx, &unit.code, 0) {
        Err(e) => Err(e),
        Ok(None) => {
            assert(runs_to(first, lowering, ctx, unit.body(), 0, lowered_len(unit)));
            Ok(lowering.finish())
        },
        Ok(Some(at)) => {
            proof {
                lemma_code_fault_stays(
                    blank(unit.regs@.len()),
                    unit.body(),
                    0,
                    at + 1,
                    unit.code@.len() as int,
                    true,
                    gives_of(unit),
                    table.opaque@.len(),
                );
            }
            Err(EmitError::Unsupported)
        },
    }
}

/// Lowers a unit in a context of its own and says whether that succeeded;
/// the module is dropped. This succeeds and fails as `lower_unit` does.
pub fn try_lower(unit: &VMMod, table: &TypeTable) -> (r: Result<(), EmitError>)
    ensures
        r is Ok ==> unit_fault(unit, table.opaque@.len()) is None,
        r matches Err(e) ==> e == EmitError::Operand || unit_fault(unit, table.opaque@.len())
            == Some(e),
        decls_fault(unit, table.opaque@.len()) matches Some(e) ==> r matches Err(x) && x == e,
        unit_fault(unit, table.opaque@.len()) is None && classes_known(unit) ==> r is Ok,
{
    let ctx = get_ctx();
    let lowered = lower_unit(&ctx, unit, table);
    let outcome = match lowered {
        Ok(_) => Ok(()),
        Err(e) => Err(e),
    };
    outcome
}

} // verus!

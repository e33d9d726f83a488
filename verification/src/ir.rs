//! The data of the intermediate representation: value handles, stack
//! slots and instructions.

use vstd::prelude::*;
use crate::types::TypeDesc;

verus! {

/// A handle on a function of a unit: its place among the unit's
/// functions.
#[derive(Clone, Copy, Debug, PartialEq, Eq, Structural)]
pub struct Function {
    pub index: usize,
}

/// A handle on the entry block of a function of a unit.
#[derive(Clone, Copy, Debug, PartialEq, Eq, Structural)]
pub struct Block {
    pub func: usize,
}

/// What a value handle refers to.
#[derive(Clone, Copy, Debug, PartialEq, Eq, Structural)]
pub enum ValueKind {
    /// An integer constant, given by its bits.
    Int(u64),
    /// A double-precision constant, given by its bits.
    Double(u64),
    /// The result of the instruction that defines this register.
    Reg(usize),
}

/// A value handle: what it refers to, tagged by its type.
#[derive(Clone, Copy, Debug, PartialEq, Eq, Structural)]
pub struct Value {
    pub ty: TypeDesc,
    pub kind: ValueKind,
}

/// The signed comparisons.
#[derive(Clone, Copy, Debug, PartialEq, Eq, Structural)]
pub enum Predicate {
    /// Signed greater than.
    Sgt,
    /// Signed greater than or equal.
    Sge,
}

/// What a stack slot holds.
#[derive(Clone, Copy, Debug, PartialEq, Eq, Structural)]
pub enum Slot {
    /// One value of the type.
    One(TypeDesc),
    /// So many values of the type, in a row.
    Array(TypeDesc, usize),
    /// A text of so many bytes, and the zero byte that ends it.
    Text(usize),
}

/// A constant text: its bytes, the zero byte that ends it included.
#[derive(Clone, Debug, PartialEq, Eq)]
pub struct TextConst {
    pub bytes: Vec<u8>,
}

/// An instruction. `dst` is the register that the instruction defines.
#[allow(inconsistent_fields)]
#[derive(Clone, Debug, PartialEq, Eq)]
pub enum Inst {
    /// Reserves a stack slot; the result points to it. The result of a
    /// slot for a row or a text is tagged as a pointer to its first
    /// element.
    Alloca { dst: usize, slot: Slot },
    /// Reserves a stack slot of `count` values of `elem`; the result
    /// points to the first.
    ArrayAlloca { dst: usize, elem: TypeDesc, count: Value },
    /// Writes `val` to where `ptr` points.
    Store { ptr: Value, val: Value },
    /// Writes the text, and the zero byte that ends it, to where `ptr`
    /// points.
    StoreText { ptr: Value, text: String },
    /// Writes the array of `items`, each of type `elem`, to where `ptr`
    /// points.
    StoreArray { ptr: Value, elem: TypeDesc, items: Vec<Value> },
    /// Reads the value that `ptr` points to.
    Load { dst: usize, ptr: Value },
    /// The sum of two integers.
    Add { dst: usize, lhs: Value, rhs: Value },
    /// Compares two integers, `lhs` against `rhs`.
    Compare { dst: usize, test: Predicate, lhs: Value, rhs: Value },
    /// The pointer `src`, taken as a pointer of type `to`.
    Cast { dst: usize, src: Value, to: TypeDesc },
    /// The address of element `index` of the row that `ptr` points to.
    ElementPtr { dst: usize, ptr: Value, index: Value },
    /// Calls a function of the unit; `dst` is `None` where it returns
    /// nothing.
    Call { dst: Option<usize>, callee: Function, args: Vec<Value> },
    /// Returns from the function.
    Ret { val: Option<Value> },
}

/// What an instruction says.
#[allow(inconsistent_fields)]
pub enum InstSpec {
    Alloca { dst: usize, slot: Slot },
    ArrayAlloca { dst: usize, elem: TypeDesc, count: Value },
    Store { ptr: Value, val: Value },
    StoreText { ptr: Value, text: Seq<char> },
    StoreArray { ptr: Value, elem: TypeDesc, items: Seq<Value> },
    Load { dst: usize, ptr: Value },
    Add { dst: usize, lhs: Value, rhs: Value },
    Compare { dst: usize, test: Predicate, lhs: Value, rhs: Value },
    Cast { dst: usize, src: Value, to: TypeDesc },
    ElementPtr { dst: usize, ptr: Value, index: Value },
    Call { dst: Option<usize>, callee: Function, args: Seq<Value> },
    Ret { val: Option<Value> },
}

impl View for Inst {
    type V = InstSpec;

    open spec fn view(&self) -> InstSpec {
        match *self {
            Inst::Alloca { dst, slot } => InstSpec::Alloca { dst, slot },
            Inst::ArrayAlloca { dst, elem, count } => InstSpec::ArrayAlloca { dst, elem, count },
            Inst::Store { ptr, val } => InstSpec::Store { ptr, val },
            Inst::StoreText { ptr, text } => InstSpec::StoreText { ptr, text: text@ },
            Inst::StoreArray { ptr, elem, items } => InstSpec::StoreArray {
                ptr,
                elem,
                items: items@,
            },
            Inst::Load { dst, ptr } => InstSpec::Load { dst, ptr },
            Inst::Add { dst, lhs, rhs } => InstSpec::Add { dst, lhs, rhs },
            Inst::Compare { dst, test, lhs, rhs } => InstSpec::Compare { dst, test, lhs, rhs },
            Inst::Cast { dst, src, to } => InstSpec::Cast { dst, src, to },
            Inst::ElementPtr { dst, ptr, index } => InstSpec::ElementPtr { dst, ptr, index },
            Inst::Call { dst, callee, args } => InstSpec::Call { dst, callee, args: args@ },
            Inst::Ret { val } => InstSpec::Ret { val },
        }
    }
}

/// What a list of instructions says.
pub open spec fn insts_view(v: Seq<Inst>) -> Seq<InstSpec> {
    Seq::new(v.len(), |i: int| v[i]@)
}

/// `s` with `new` put in at position `at`.
pub open spec fn splice<A>(s: Seq<A>, at: int, new: Seq<A>) -> Seq<A> {
    s.subrange(0, at) + new + s.subrange(at, s.len() as int)
}

/// Putting in `a` and then, behind it, `b` is putting in `a + b`.
pub proof fn lemma_splice_twice<A>(s: Seq<A>, at: int, a: Seq<A>, b: Seq<A>)
    requires
        0 <= at <= s.len(),
    ensures
        splice(splice(s, at, a), at + a.len(), b) =~= splice(s, at, a + b),
        splice(s, at, Seq::<A>::empty()) =~= s,
        splice(s, s.len() as int, a) =~= s + a,
{
}

} // verus!

//! What the instructions of a counter compute.
//!
//! A machine holds a number in each register and in each stack slot. An
//! integer is held by its bits, as a number below two to the power of its
//! width; a pointer to a slot is held as the number of the register that
//! the reservation of the slot defined. Calls, returns, texts, arrays and
//! element addresses are not given a meaning here: they leave the machine
//! as it is.

use vstd::prelude::*;
use either::Either;
use crate::builder::{counter_check, counter_forward, counter_init, ptr_to, reg};
use crate::ir::{InstSpec, Predicate, Value, ValueKind};
use crate::types::Prim;

verus! {

/// What the registers and the stack slots hold.
pub struct Machine {
    pub regs: Map<int, int>,
    pub slots: Map<int, int>,
}

/// One more than the greatest number that the bits of an integer of the
/// primitive `base` can hold.
pub open spec fn modulus(base: Prim) -> int {
    match base {
        Prim::Bit => 2,
        Prim::I8 => 0x100,
        Prim::I32 => 0x1_0000_0000,
        Prim::I64 => 0x1_0000_0000_0000_0000int,
        Prim::I128 => 0x1_0000_0000_0000_0000_0000_0000_0000_0000int,
        Prim::Word => usize::MAX + 1,
        _ => 1,
    }
}

/// The number that the bits `bits` of an integer of the primitive `base`
/// stand for in two's complement.
pub open spec fn signed(bits: int, base: Prim) -> int {
    let low = bits % modulus(base);
    if 2 * low < modulus(base) {
        low
    } else {
        low - modulus(base)
    }
}

/// What an operand holds.
pub open spec fn value_of(m: Machine, v: Value) -> int {
    match v.kind {
        ValueKind::Int(bits) => if v.ty.depth == 0 {
            (bits as int) % modulus(v.ty.base)
        } else {
            bits as int
        },
        ValueKind::Double(bits) => bits as int,
        ValueKind::Reg(id) => m.regs[id as int],
    }
}

/// Whether the comparison holds of two integers of the primitive `base`,
/// given by their bits.
pub open spec fn holds(test: Predicate, lhs: int, rhs: int, base: Prim) -> bool {
    match test {
        Predicate::Sgt => signed(lhs, base) > signed(rhs, base),
        Predicate::Sge => signed(lhs, base) >= signed(rhs, base),
    }
}

/// The machine after one instruction.
pub open spec fn step(m: Machine, inst: InstSpec) -> Machine {
    match inst {
        InstSpec::Alloca { dst, .. } => Machine { regs: m.regs.insert(dst as int, dst as int), ..m },
        InstSpec::ArrayAlloca { dst, .. } => Machine {
            regs: m.regs.insert(dst as int, dst as int),
            ..m
        },
        InstSpec::Store { ptr, val } => Machine {
            slots: m.slots.insert(value_of(m, ptr), value_of(m, val)),
            ..m
        },
        InstSpec::Load { dst, ptr } => Machine {
            regs: m.regs.insert(dst as int, m.slots[value_of(m, ptr)]),
            ..m
        },
        InstSpec::Add { dst, lhs, rhs } => Machine {
            regs: m.regs.insert(
                dst as int,
                (value_of(m, lhs) + value_of(m, rhs)) % modulus(lhs.ty.base),
            ),
            ..m
        },
        InstSpec::Compare { dst, test, lhs, rhs } => Machine {
            regs: m.regs.insert(
                dst as int,
                if holds(test, value_of(m, lhs), value_of(m, rhs), lhs.ty.base) {
                    1
                } else {
                    0
                },
            ),
            ..m
        },
        InstSpec::Cast { dst, src, .. } => Machine {
            regs: m.regs.insert(dst as int, value_of(m, src)),
            ..m
        },
        _ => m,
    }
}

/// The machine after the instructions of `code`, one after the other.
pub open spec fn run(m: Machine, code: Seq<InstSpec>) -> Machine
    decreases code.len(),
{
    if code.len() == 0 {
        m
    } else {
        run(step(m, code[0]), code.drop_first())
    }
}

/// The operand is no register from `from` on.
pub open spec fn older(v: Value, from: int) -> bool {
    v.kind matches ValueKind::Reg(id) ==> id < from
}

/// Running two instructions is one step after the other.
proof fn lemma_run_two(m: Machine, a: InstSpec, b: InstSpec)
    ensures
        run(m, seq![a, b]) == step(step(m, a), b),
{
    reveal_with_fuel(run, 3);
    assert(seq![a, b].drop_first() =~= seq![b]);
    assert(seq![b].drop_first() =~= Seq::<InstSpec>::empty());
}

/// Running three instructions is one step after the other.
proof fn lemma_run_three(m: Machine, a: InstSpec, b: InstSpec, c: InstSpec)
    ensures
        run(m, seq![a, b, c]) == step(step(step(m, a), b), c),
{
    reveal_with_fuel(run, 2);
    assert(seq![a, b, c].drop_first() =~= seq![b, c]);
    lemma_run_two(step(m, a), b, c);
}

/// A counter that was set up holds its first count: after the
/// instructions of `counter_init`, the register `r0` points to a slot
/// that holds what `init` held.
pub proof fn lemma_counter_starts(m: Machine, r0: int, init: Value)
    requires
        0 <= r0 <= usize::MAX,
        older(init, r0),
    ensures
        ({
            let after = run(m, counter_init(r0, init));
            &&& after.regs[r0] == r0
            &&& after.slots[r0] == value_of(m, init)
            &&& forall|id: int| id != r0 ==> after.regs[id] == m.regs[id]
        }),
{
    let code = counter_init(r0, init);
    lemma_run_two(m, code[0], code[1]);
    assert(code =~= seq![code[0], code[1]]);
}

/// A counter that is advanced counts on: after the instructions of
/// `counter_forward`, the slot of the counter holds the sum, in 32 bits,
/// of what it held and what `step` held. The registers before `r0` are as
/// they were.
pub proof fn lemma_counter_advances(m: Machine, r0: int, var: int, step_by: Value)
    requires
        0 <= var < r0 < usize::MAX,
        older(step_by, r0),
    ensures
        ({
            let counter = reg(var, ptr_to(Prim::I32));
            let slot = m.regs[var];
            let after = run(m, counter_forward(r0, counter, step_by));
            &&& after.slots[slot] == (m.slots[slot] + value_of(m, step_by)) % 0x1_0000_0000
            &&& forall|id: int| id < r0 ==> after.regs[id] == m.regs[id]
            &&& forall|other: int| other != slot ==> after.slots[other] == m.slots[other]
        }),
{
    let counter = reg(var, ptr_to(Prim::I32));
    let code = counter_forward(r0, counter, step_by);
    lemma_run_three(m, code[0], code[1], code[2]);
    assert(code =~= seq![code[0], code[1], code[2]]);
}

/// A counter is tested by one signed greater-than: after the
/// instructions of `counter_check`, register `r0 + 1` holds one exactly
/// if, with a lower bound on the left, the count is greater than the
/// bound, and, with an upper bound on the right, the bound is greater than
/// the count. Both are taken as 32-bit numbers in two's complement; an
/// upper bound is to be tagged as one.
pub proof fn lemma_counter_checks(m: Machine, r0: int, var: int, test: Either<Value, Value>)
    requires
        0 <= var < r0 < usize::MAX,
        test matches Either::Left(low) ==> older(low, r0),
        test matches Either::Right(high) ==> older(high, r0) && high.ty.base == Prim::I32,
    ensures
        ({
            let counter = reg(var, ptr_to(Prim::I32));
            let count = m.slots[m.regs[var]];
            let after = run(m, counter_check(r0, counter, test));
            &&& after.regs[r0 + 1] == if match test {
                Either::Left(low) => signed(count, Prim::I32) > signed(value_of(m, low), Prim::I32),
                Either::Right(high) => signed(value_of(m, high), Prim::I32) > signed(
                    count,
                    Prim::I32,
                ),
            } {
                1int
            } else {
                0int
            }
            &&& after.slots == m.slots
            &&& forall|id: int| id < r0 ==> after.regs[id] == m.regs[id]
        }),
{
    let counter = reg(var, ptr_to(Prim::I32));
    let code = counter_check(r0, counter, test);
    lemma_run_two(m, code[0], code[1]);
    assert(code =~= seq![code[0], code[1]]);
}

} // verus!

//! The instruction cursor and the builders that emit through it.
//!
//! Every builder appends instructions to the entry block of a unit at the
//! place where the cursor stands, and leaves the cursor behind them.

use vstd::prelude::*;
use vstd::slice::slice_to_vec;
use vstd::string::*;
use either::Either;
use crate::ir::{
    lemma_splice_twice, splice, Block, Function, Inst, InstSpec, Predicate,
    Slot, Value, ValueKind, TextConst,
};
use crate::module::{declares, first_named, VMMod};
use crate::types::{Prim, TypeDesc};

verus! {

#[verifier::external_type_specification]
#[verifier::reject_recursive_types(L)]
#[verifier::reject_recursive_types(R)]
pub struct ExEither<L, R>(Either<L, R>);

/// Where a cursor stands.
#[derive(Clone, Copy, Debug, PartialEq, Eq, Structural)]
pub enum Place {
    /// Nowhere yet.
    Unset,
    /// Behind the last instruction of the block.
    AtEnd(Block),
    /// Before the instruction at this place of the block.
    Before(Block, usize),
}

/// An instruction cursor.
#[derive(Debug)]
pub struct Cursor {
    pub place: Place,
}

/// The register `id`, of type `ty`.
pub open spec fn reg(id: int, ty: TypeDesc) -> Value {
    Value { ty, kind: ValueKind::Reg(id as usize) }
}

/// The integer constant `bits` of the primitive `base`.
pub open spec fn int_const(base: Prim, bits: int) -> Value {
    Value { ty: TypeDesc { base, depth: 0 }, kind: ValueKind::Int(bits as u64) }
}

/// The type of a pointer to the primitive `base`.
pub open spec fn ptr_to(base: Prim) -> TypeDesc {
    TypeDesc { base, depth: 1 }
}

impl Cursor {
    /// The cursor stands in the entry block of `unit`.
    pub open spec fn in_unit(&self, unit: &VMMod) -> bool {
        match self.place {
            Place::Unset => false,
            Place::AtEnd(b) => unit.entry == Some(b.func),
            Place::Before(b, i) => unit.entry == Some(b.func) && i < unit.code@.len(),
        }
    }

    /// The place in the block of `unit` at which the next instruction goes.
    pub open spec fn at(&self, unit: &VMMod) -> int {
        match self.place {
            Place::Before(_, i) => i as int,
            _ => unit.code@.len() as int,
        }
    }

    /// Where the cursor stands after `n` instructions were emitted.
    pub open spec fn moved(&self, n: int) -> Place {
        match self.place {
            Place::Before(b, i) => Place::Before(b, (i + n) as usize),
            c => c,
        }
    }

    /// A cursor that stands nowhere yet.
    pub fn new() -> (builder: Cursor)
        ensures
            builder.place == Place::Unset,
    {
        Cursor { place: Place::Unset }
    }

    /// Puts the cursor behind the last instruction of `blk`.
    pub fn position_at_end(&mut self, blk: Block)
        ensures
            final(self).place == Place::AtEnd(blk),
    {
        self.place = Place::AtEnd(blk);
    }

    /// Puts the cursor before the instruction at place `index` of `blk`.
    pub fn position_before(&mut self, blk: Block, index: usize)
        ensures
            final(self).place == Place::Before(blk, index),
    {
        self.place = Place::Before(blk, index);
    }

    /// Whether the cursor stands in the entry block of `unit`.
    pub fn is_in(&self, unit: &VMMod) -> (yes: bool)
        ensures
            yes == self.in_unit(unit),
    {
        match self.place {
            Place::Unset => false,
            Place::AtEnd(b) => match unit.entry {
                Some(e) => e == b.func,
                None => false,
            },
            Place::Before(b, i) => match unit.entry {
                Some(e) => e == b.func && i < unit.code.len(),
                None => false,
            },
        }
    }
}

/// Where the cursor stands once it was put at the start of `entry`:
/// before the first instruction of the block, or at its end where the
/// block has no instruction.
pub open spec fn start_of(module: &VMMod, entry: Block) -> Place {
    if module.entry == Some(entry.func) && module.code@.len() > 0 {
        Place::Before(entry, 0)
    } else {
        Place::AtEnd(entry)
    }
}

/// Puts the cursor at the start of the block `entry` of `module`.
pub fn builder_position_at_start(builder: &mut Cursor, module: &VMMod, entry: Block)
    ensures
        final(builder).place == start_of(module, entry),
        module.entry == Some(entry.func) ==> final(builder).in_unit(module) && final(builder).at(
            module,
        ) == 0,
{
    let first = match module.entry {
        Some(e) => if e == entry.func && module.code.len() > 0 {
            Some(0usize)
        } else {
            None
        },
        None => None,
    };
    match first {
        Some(first_instr) => builder.position_before(entry, first_instr),
        None => builder.position_at_end(entry),
    }
}

/// `post` is `pre` with the instructions `insts` emitted at the cursor
/// `before`, which then stands at `after`, and with the registers `regs`
/// defined.
pub open spec fn emitted(
    pre: &VMMod,
    post: &VMMod,
    before: &Cursor,
    after: &Cursor,
    insts: Seq<InstSpec>,
    regs: Seq<TypeDesc>,
) -> bool {
    &&& post.name == pre.name
    &&& post.decls == pre.decls
    &&& post.entry == pre.entry
    &&& post.regs@ == pre.regs@ + regs
    &&& post.body() == splice(pre.body(), before.at(pre), insts)
    &&& after.place == before.moved(insts.len() as int)
}

/// Emitting `i1` and then `i2` is emitting `i1 + i2`.
pub proof fn lemma_emitted_chain(
    a: &VMMod,
    b: &VMMod,
    c: &VMMod,
    ba: &Cursor,
    bb: &Cursor,
    bc: &Cursor,
    i1: Seq<InstSpec>,
    r1: Seq<TypeDesc>,
    i2: Seq<InstSpec>,
    r2: Seq<TypeDesc>,
)
    requires
        ba.in_unit(a),
        emitted(a, b, ba, bb, i1, r1),
        emitted(b, c, bb, bc, i2, r2),
    ensures
        emitted(a, c, ba, bc, i1 + i2, r1 + r2),
{
    assert(c.regs@ =~= a.regs@ + (r1 + r2));
    assert(b.body().len() == a.body().len() + i1.len());
    assert(b.code.len() == b.code@.len());
    assert(bb.at(b) == ba.at(a) + i1.len());
    lemma_splice_twice(a.body(), ba.at(a), i1, i2);
}

impl VMMod {
    /// A cursor that stands nowhere yet.
    pub fn get_builder() -> (builder: Cursor)
        ensures
            builder.place == Place::Unset,
    {
        Cursor::new()
    }

    /// A cursor behind the last instruction of `blk`.
    pub fn get_builder_at_end(blk: Block) -> (builder: Cursor)
        ensures
            builder.place == Place::AtEnd(blk),
    {
        let mut builder = Self::get_builder();
        builder.position_at_end(blk);
        builder
    }

    /// A cursor at the start of the block `blk` of this unit.
    pub fn get_builder_at_start(&self, blk: Block) -> (builder: Cursor)
        ensures
            builder.place == start_of(self, blk),
    {
        let mut builder = Self::get_builder();
        builder_position_at_start(&mut builder, self, blk);
        builder
    }

    /// Defines a new register of type `ty`.
    fn fresh(&mut self, ty: TypeDesc) -> (dst: usize)
        ensures
            dst == old(self).regs@.len(),
            final(self).regs@ == old(self).regs@.push(ty),
            final(self).name == old(self).name,
            final(self).decls == old(self).decls,
            final(self).entry == old(self).entry,
            final(self).code == old(self).code,
    {
        let dst = self.regs.len();
        self.regs.push(ty);
        dst
    }

    /// Puts `inst` where the cursor stands, and the cursor behind it.
    fn emit(&mut self, builder: &mut Cursor, inst: Inst)
        requires
            old(builder).in_unit(old(self)),
        ensures
            old(self).wf() ==> final(self).wf(),
            final(builder).in_unit(final(self)),
            emitted(
                old(self),
                final(self),
                old(builder),
                final(builder),
                seq![inst@],
                Seq::<TypeDesc>::empty(),
            ),
    {
        let ghost before = self.body();
        match builder.place {
            Place::Before(blk, i) => {
                self.code.insert(i, inst);
                assert(i < self.code.len());
                builder.place = Place::Before(blk, i + 1);
                assert(self.body() =~= splice(before, i as int, seq![inst@]));
            },
            _ => {
                self.code.push(inst);
                assert(self.body() =~= splice(before, before.len() as int, seq![inst@]));
            },
        }
        assert(self.regs@ =~= old(self).regs@ + Seq::<TypeDesc>::empty());
    }
}

/// The type that a pointer of type `t` points to.
pub open spec fn pointee(t: TypeDesc) -> TypeDesc {
    TypeDesc { base: t.base, depth: (t.depth - 1) as usize }
}

/// `t` is the type of a pointer to an integer.
pub open spec fn points_to_int(t: TypeDesc) -> bool {
    t.depth == 1 && pointee(t).spec_is_int()
}

/// Whether `var` is a pointer to an integer, as a counter is.
pub fn is_int_pointer(var: Value) -> (yes: bool)
    ensures
        yes == points_to_int(var.ty),
{
    var.ty.depth == 1 && TypeDesc::prim(var.ty.base).is_int()
}

/// The instructions that set up a counter in register `r0`: a slot for a
/// 32-bit integer, and the store of the first count.
pub open spec fn counter_init(r0: int, init: Value) -> Seq<InstSpec> {
    seq![
        InstSpec::Alloca { dst: r0 as usize, slot: Slot::One(TypeDesc { base: Prim::I32, depth: 0 }) },
        InstSpec::Store { ptr: reg(r0, ptr_to(Prim::I32)), val: init },
    ]
}

/// The instructions that advance the counter `var` by `step`: load, add,
/// store back.
pub open spec fn counter_forward(r0: int, var: Value, step: Value) -> Seq<InstSpec> {
    seq![
        InstSpec::Load { dst: r0 as usize, ptr: var },
        InstSpec::Add { dst: (r0 + 1) as usize, lhs: reg(r0, pointee(var.ty)), rhs: step },
        InstSpec::Store { ptr: var, val: reg(r0 + 1, pointee(var.ty)) },
    ]
}

/// The instructions that test the counter `var` against a bound. Both
/// tests are the signed greater-than: against a lower bound, on the
/// left, the count stands first; against an upper bound, on the right,
/// the bound stands first.
pub open spec fn counter_check(r0: int, var: Value, test: Either<Value, Value>) -> Seq<InstSpec> {
    let count = reg(r0, pointee(var.ty));
    seq![
        InstSpec::Load { dst: r0 as usize, ptr: var },
        match test {
            Either::Left(low) => InstSpec::Compare {
                dst: (r0 + 1) as usize,
                test: Predicate::Sgt,
                lhs: count,
                rhs: low,
            },
            Either::Right(high) => InstSpec::Compare {
                dst: (r0 + 1) as usize,
                test: Predicate::Sgt,
                lhs: high,
                rhs: count,
            },
        },
    ]
}

impl VMMod {
    /// Puts `inst`, which defines the next register, of type `ty`, where
    /// the cursor stands.
    fn emit_def(&mut self, builder: &mut Cursor, inst: Inst, ty: TypeDesc)
        requires
            old(builder).in_unit(old(self)),
        ensures
            old(self).wf() ==> final(self).wf(),
            final(builder).in_unit(final(self)),
            emitted(old(self), final(self), old(builder), final(builder), seq![inst@], seq![ty]),
    {
        let ghost regs = self.regs@;
        self.emit(builder, inst);
        let _ = self.fresh(ty);
        assert(self.regs@ =~= regs + seq![ty]);
    }

    /// Emits the load of the integer that `var` points to, and returns the
    /// integer.
    pub fn bload_int(&mut self, builder: &mut Cursor, var: Value) -> (val: Value)
        requires
            old(builder).in_unit(old(self)),
            points_to_int(var.ty),
        ensures
            old(self).wf() ==> final(self).wf(),
            final(builder).in_unit(final(self)),
            val == reg(old(self).regs@.len() as int, pointee(var.ty)),
            emitted(
                old(self),
                final(self),
                old(builder),
                final(builder),
                seq![InstSpec::Load { dst: old(self).regs@.len() as usize, ptr: var }],
                seq![pointee(var.ty)],
            ),
    {
        let dst = self.regs.len();
        let ty = TypeDesc { base: var.ty.base, depth: var.ty.depth - 1 };
        self.emit_def(builder, Inst::Load { dst, ptr: var }, ty);
        Value { ty, kind: ValueKind::Reg(dst) }
    }

    /// Emits a signed greater-than of `x` against `y`, and returns its
    /// one-bit result.
    pub fn bsgt(&mut self, builder: &mut Cursor, x: Value, y: Value) -> (bit: Value)
        requires
            old(builder).in_unit(old(self)),
        ensures
            old(self).wf() ==> final(self).wf(),
            final(builder).in_unit(final(self)),
            bit == reg(old(self).regs@.len() as int, TypeDesc { base: Prim::Bit, depth: 0 }),
            emitted(
                old(self),
                final(self),
                old(builder),
                final(builder),
                seq![
                    InstSpec::Compare {
                        dst: old(self).regs@.len() as usize,
                        test: Predicate::Sgt,
                        lhs: x,
                        rhs: y,
                    },
                ],
                seq![TypeDesc { base: Prim::Bit, depth: 0 }],
            ),
    {
        let dst = self.regs.len();
        let ty = TypeDesc::prim(Prim::Bit);
        self.emit_def(builder, Inst::Compare { dst, test: Predicate::Sgt, lhs: x, rhs: y }, ty);
        Value { ty, kind: ValueKind::Reg(dst) }
    }

    /// Emits a signed greater-or-equal of `x` against `y`, and returns its
    /// one-bit result.
    pub fn bsge(&mut self, builder: &mut Cursor, x: Value, y: Value) -> (bit: Value)
        requires
            old(builder).in_unit(old(self)),
        ensures
            old(self).wf() ==> final(self).wf(),
            final(builder).in_unit(final(self)),
            bit == reg(old(self).regs@.len() as int, TypeDesc { base: Prim::Bit, depth: 0 }),
            emitted(
                old(self),
                final(self),
                old(builder),
                final(builder),
                seq![
                    InstSpec::Compare {
                        dst: old(self).regs@.len() as usize,
                        test: Predicate::Sge,
                        lhs: x,
                        rhs: y,
                    },
                ],
                seq![TypeDesc { base: Prim::Bit, depth: 0 }],
            ),
    {
        let dst = self.regs.len();
        let ty = TypeDesc::prim(Prim::Bit);
        self.emit_def(builder, Inst::Compare { dst, test: Predicate::Sge, lhs: x, rhs: y }, ty);
        Value { ty, kind: ValueKind::Reg(dst) }
    }

    /// Emits a counter that starts at `init`: a stack slot for a 32-bit
    /// integer with `init` stored in it. Returns the pointer to the slot.
    pub fn bcnt_init(&mut self, builder: &mut Cursor, init: Value) -> (var: Value)
        requires
            old(builder).in_unit(old(self)),
        ensures
            old(self).wf() ==> final(self).wf(),
            final(builder).in_unit(final(self)),
            var == reg(old(self).regs@.len() as int, ptr_to(Prim::I32)),
            points_to_int(var.ty),
            emitted(
                old(self),
                final(self),
                old(builder),
                final(builder),
                counter_init(old(self).regs@.len() as int, init),
                seq![ptr_to(Prim::I32)],
            ),
    {
        let ghost s0 = *self;
        let ghost b0 = *builder;
        let dst = self.regs.len();
        let i32_t = TypeDesc::prim(Prim::I32);
        let var = Value { ty: i32_t.wrap(1), kind: ValueKind::Reg(dst) };
        self.emit_def(builder, Inst::Alloca { dst, slot: Slot::One(i32_t) }, var.ty);
        let ghost s1 = *self;
        let ghost b1 = *builder;
        self.emit(builder, Inst::Store { ptr: var, val: init });
        proof {
            lemma_emitted_chain(
                &s0,
                &s1,
                self,
                &b0,
                &b1,
                builder,
                seq![InstSpec::Alloca { dst, slot: Slot::One(i32_t) }],
                seq![var.ty],
                seq![InstSpec::Store { ptr: var, val: init }],
                Seq::empty(),
            );
            assert(seq![InstSpec::Alloca { dst, slot: Slot::One(i32_t) }] + seq![
                InstSpec::Store { ptr: var, val: init },
            ] =~= counter_init(dst as int, init));
            assert(seq![var.ty] + Seq::<TypeDesc>::empty() =~= seq![ptr_to(Prim::I32)]);
        }
        var
    }

    /// Emits the advance of the counter `var` by `step`: the count is
    /// loaded, `step` is added, the sum is stored back.
    pub fn bcnt_forward(&mut self, builder: &mut Cursor, var: Value, step: Value)
        requires
            old(builder).in_unit(old(self)),
            points_to_int(var.ty),
        ensures
            old(self).wf() ==> final(self).wf(),
            final(builder).in_unit(final(self)),
            emitted(
                old(self),
                final(self),
                old(builder),
                final(builder),
                counter_forward(old(self).regs@.len() as int, var, step),
                seq![pointee(var.ty), pointee(var.ty)],
            ),
    {
        let ghost s0 = *self;
        let ghost b0 = *builder;
        let ghost r0 = self.regs@.len() as int;
        let val = self.bload_int(builder, var);
        let ghost s1 = *self;
        let ghost b1 = *builder;
        let dst = self.regs.len();
        let nxt = Value { ty: val.ty, kind: ValueKind::Reg(dst) };
        self.emit_def(builder, Inst::Add { dst, lhs: val, rhs: step }, val.ty);
        let ghost s2 = *self;
        let ghost b2 = *builder;
        self.emit(builder, Inst::Store { ptr: var, val: nxt });
        proof {
            let i1 = seq![InstSpec::Load { dst: r0 as usize, ptr: var }];
            let i2 = seq![InstSpec::Add { dst, lhs: val, rhs: step }];
            let i3 = seq![InstSpec::Store { ptr: var, val: nxt }];
            lemma_emitted_chain(&s0, &s1, &s2, &b0, &b1, &b2, i1, seq![val.ty], i2, seq![val.ty]);
            lemma_emitted_chain(
                &s0,
                &s2,
                self,
                &b0,
                &b2,
                builder,
                i1 + i2,
                seq![val.ty] + seq![val.ty],
                i3,
                Seq::empty(),
            );
            assert(i1 + i2 + i3 =~= counter_forward(r0, var, step));
            assert(seq![val.ty] + seq![val.ty] + Seq::<TypeDesc>::empty() =~= seq![
                pointee(var.ty),
                pointee(var.ty),
            ]);
        }
    }

    /// Emits a test of the counter `var` against a bound, and returns its
    /// one-bit result: on the left, whether the count is greater than the
    /// lower bound; on the right, whether the upper bound is greater than
    /// the count.
    pub fn bcnt_check(&mut self, builder: &mut Cursor, var: Value, test: Either<Value, Value>) -> (bit:
        Value)
        requires
            old(builder).in_unit(old(self)),
            points_to_int(var.ty),
        ensures
            old(self).wf() ==> final(self).wf(),
            final(builder).in_unit(final(self)),
            bit == reg(old(self).regs@.len() as int + 1, TypeDesc { base: Prim::Bit, depth: 0 }),
            emitted(
                old(self),
                final(self),
                old(builder),
                final(builder),
                counter_check(old(self).regs@.len() as int, var, test),
                seq![pointee(var.ty), TypeDesc { base: Prim::Bit, depth: 0 }],
            ),
    {
        let ghost s0 = *self;
        let ghost b0 = *builder;
        let ghost r0 = self.regs@.len() as int;
        let val = self.bload_int(builder, var);
        let ghost s1 = *self;
        let ghost b1 = *builder;
        let bit = match test {
            Either::Left(low) => self.bsgt(builder, val, low),
            Either::Right(high) => self.bsgt(builder, high, val),
        };
        proof {
            let i1 = seq![InstSpec::Load { dst: r0 as usize, ptr: var }];
            let i2 = seq![counter_check(r0, var, test)[1]];
            lemma_emitted_chain(
                &s0,
                &s1,
                self,
                &b0,
                &b1,
                builder,
                i1,
                seq![val.ty],
                i2,
                seq![bit.ty],
            );
            assert(i1 + i2 =~= counter_check(r0, var, test));
            assert(seq![val.ty] + seq![bit.ty] =~= seq![
                pointee(var.ty),
                TypeDesc { base: Prim::Bit, depth: 0 },
            ]);
        }
        bit
    }
}

/// The instructions that put a text on the stack, from register `r0` on:
/// a slot for the text and its closing zero byte, the store of the text,
/// and the cast of the slot's address to a pointer to bytes.
pub open spec fn local_str(r0: int, text: Seq<char>, len: usize) -> Seq<InstSpec> {
    seq![
        InstSpec::Alloca { dst: r0 as usize, slot: Slot::Text(len) },
        InstSpec::StoreText { ptr: reg(r0, ptr_to(Prim::I8)), text },
        InstSpec::Cast { dst: (r0 + 1) as usize, src: reg(r0, ptr_to(Prim::I8)), to: ptr_to(Prim::I8) },
    ]
}

/// The instructions that put a constant array on the stack, from register
/// `r0` on: a slot for the array, one store of the whole array, and the
/// cast of the slot's address to the pointer to bytes, whatever the
/// element type.
pub open spec fn const_array(r0: int, elem: Prim, items: Seq<Value>) -> Seq<InstSpec> {
    seq![
        InstSpec::Alloca {
            dst: r0 as usize,
            slot: Slot::Array(TypeDesc { base: elem, depth: 0 }, items.len() as usize),
        },
        InstSpec::StoreArray {
            ptr: reg(r0, ptr_to(elem)),
            elem: TypeDesc { base: elem, depth: 0 },
            items,
        },
        InstSpec::Cast { dst: (r0 + 1) as usize, src: reg(r0, ptr_to(elem)), to: ptr_to(Prim::I8) },
    ]
}

/// The instructions that store the first `n` of `items` one by one into
/// the row that register `r0` points to: for each, the address of its
/// element and the store to that address.
pub open spec fn fill(r0: int, items: Seq<Value>, n: nat) -> Seq<InstSpec>
    decreases n,
{
    if n == 0 {
        Seq::empty()
    } else {
        fill(r0, items, (n - 1) as nat) + seq![
            InstSpec::ElementPtr {
                dst: (r0 + n) as usize,
                ptr: reg(r0, ptr_to(Prim::Word)),
                index: int_const(Prim::Word, n - 1),
            },
            InstSpec::Store { ptr: reg(r0 + n, ptr_to(Prim::Word)), val: items[n - 1] },
        ]
    }
}

/// The instructions that put an array of platform words on the stack
/// element by element, from register `r0` on: a slot of as many words as
/// there are items, the stores, and the cast of the slot's address to the
/// pointer to bytes.
pub open spec fn dyn_array(r0: int, items: Seq<Value>) -> Seq<InstSpec> {
    seq![
        InstSpec::ArrayAlloca {
            dst: r0 as usize,
            elem: TypeDesc { base: Prim::Word, depth: 0 },
            count: int_const(Prim::Word, items.len() as int),
        },
    ] + fill(r0, items, items.len()) + seq![
        InstSpec::Cast {
            dst: (r0 + items.len() + 1) as usize,
            src: reg(r0, ptr_to(Prim::Word)),
            to: ptr_to(Prim::I8),
        },
    ]
}

/// `n` registers, each a pointer to a platform word.
pub open spec fn word_ptrs(n: nat) -> Seq<TypeDesc> {
    Seq::new(n, |i: int| ptr_to(Prim::Word))
}

/// Storing element by element emits two instructions for each element.
pub proof fn lemma_fill_len(r0: int, items: Seq<Value>, n: nat)
    ensures
        fill(r0, items, n).len() == 2 * n,
    decreases n,
{
    if n > 0 {
        lemma_fill_len(r0, items, (n - 1) as nat);
    }
}

/// Whether a function that returns `ret` returns a value.
pub open spec fn returns_value(ret: TypeDesc) -> bool {
    !(ret.base == Prim::Void && ret.depth == 0)
}

/// The call of `callee`, which returns `ret`, with `args`; register `r0`
/// takes what it returns, if it returns a value.
pub open spec fn call_inst(r0: int, callee: Function, ret: TypeDesc, args: Seq<Value>) -> InstSpec {
    InstSpec::Call {
        dst: if returns_value(ret) {
            Some(r0 as usize)
        } else {
            None
        },
        callee,
        args,
    }
}

/// The registers that a call of a function that returns `ret` defines.
pub open spec fn call_regs(ret: TypeDesc) -> Seq<TypeDesc> {
    if returns_value(ret) {
        seq![ret]
    } else {
        Seq::empty()
    }
}

impl VMMod {
    /// The byte constant zero.
    pub fn null() -> (v: Value)
        ensures
            v == int_const(Prim::I8, 0),
    {
        Value { ty: TypeDesc::prim(Prim::I8), kind: ValueKind::Int(0) }
    }

    /// The byte constant `value`.
    pub fn u8(&self, value: u8) -> (v: Value)
        ensures
            v == int_const(Prim::I8, value as int),
    {
        Value { ty: TypeDesc::prim(Prim::I8), kind: ValueKind::Int(value as u64) }
    }

    /// The truth value as a byte: one for true, zero for false.
    pub fn bool(&self, value: bool) -> (v: Value)
        ensures
            v == int_const(
                Prim::I8,
                if value {
                    1
                } else {
                    0
                },
            ),
    {
        if value {
            self.u8(1)
        } else {
            self.u8(0)
        }
    }

    /// The 32-bit constant `value`, in two's complement.
    pub fn i32(&self, value: i32) -> (v: Value)
        ensures
            v == (Value {
                ty: TypeDesc { base: Prim::I32, depth: 0 },
                kind: ValueKind::Int((value as u32) as u64),
            }),
            value >= 0 ==> v == int_const(Prim::I32, value as int),
    {
        let low = #[verifier::truncate]
        (value as u32);
        assert(value >= 0 ==> (value as u32) == value) by (bit_vector);
        Value { ty: TypeDesc::prim(Prim::I32), kind: ValueKind::Int(low as u64) }
    }

    /// The 64-bit constant `value`, in two's complement.
    pub fn i64(&self, value: i64) -> (v: Value)
        ensures
            v == (Value {
                ty: TypeDesc { base: Prim::I64, depth: 0 },
                kind: ValueKind::Int(value as u64),
            }),
            value >= 0 ==> v == int_const(Prim::I64, value as int),
    {
        let bits = #[verifier::truncate]
        (value as u64);
        assert(value >= 0 ==> (value as u64) == value) by (bit_vector);
        Value { ty: TypeDesc::prim(Prim::I64), kind: ValueKind::Int(bits) }
    }

    /// The platform-word constant `value`.
    pub fn usize(&self, value: usize) -> (v: Value)
        ensures
            v == int_const(Prim::Word, value as int),
    {
        Value { ty: TypeDesc::prim(Prim::Word), kind: ValueKind::Int(value as u64) }
    }

    /// The double-precision constant with these bits.
    pub fn double(&self, bits: u64) -> (v: Value)
        ensures
            v == (Value {
                ty: TypeDesc { base: Prim::Double, depth: 0 },
                kind: ValueKind::Double(bits),
            }),
    {
        Value { ty: TypeDesc::prim(Prim::Double), kind: ValueKind::Double(bits) }
    }

    /// The constant text of C: the bytes of `value`, then a zero byte.
    pub fn str(&self, value: &str) -> (text: TextConst)
        ensures
            text.bytes@ == value.spec_bytes().push(0),
    {
        let mut bytes = value.as_bytes_vec();
        bytes.push(0);
        TextConst { bytes }
    }

    /// Puts the text `value` on the stack. Returns the pointer to its
    /// first byte, and its length in bytes, the closing zero byte not
    /// counted, as a platform word.
    pub fn build_local_str(&mut self, builder: &mut Cursor, value: &str) -> (r: (Value, Value))
        requires
            old(builder).in_unit(old(self)),
        ensures
            old(self).wf() ==> final(self).wf(),
            final(builder).in_unit(final(self)),
            r.0 == reg(old(self).regs@.len() as int + 1, ptr_to(Prim::I8)),
            r.1 == int_const(Prim::Word, value.spec_bytes().len() as int),
            emitted(
                old(self),
                final(self),
                old(builder),
                final(builder),
                local_str(old(self).regs@.len() as int, value@, value.spec_bytes().len() as usize),
                seq![ptr_to(Prim::I8), ptr_to(Prim::I8)],
            ),
    {
        let ghost s0 = *self;
        let ghost b0 = *builder;
        let i8ptr_t = TypeDesc { base: Prim::I8, depth: 1 };
        let bytes = value.as_bytes().len();
        let len = self.usize(bytes);
        let dst = self.regs.len();
        let var_ptr = Value { ty: i8ptr_t, kind: ValueKind::Reg(dst) };
        self.emit_def(builder, Inst::Alloca { dst, slot: Slot::Text(bytes) }, i8ptr_t);
        let ghost s1 = *self;
        let ghost b1 = *builder;
        self.emit(builder, Inst::StoreText { ptr: var_ptr, text: value.to_owned() });
        let ghost s2 = *self;
        let ghost b2 = *builder;
        let cast = self.regs.len();
        self.emit_def(builder, Inst::Cast { dst: cast, src: var_ptr, to: i8ptr_t }, i8ptr_t);
        proof {
            let i1 = seq![InstSpec::Alloca { dst, slot: Slot::Text(value.spec_bytes().len() as usize) }];
            let i2 = seq![InstSpec::StoreText { ptr: var_ptr, text: value@ }];
            let i3 = seq![InstSpec::Cast { dst: cast, src: var_ptr, to: i8ptr_t }];
            lemma_emitted_chain(&s0, &s1, &s2, &b0, &b1, &b2, i1, seq![i8ptr_t], i2, Seq::empty());
            lemma_emitted_chain(
                &s0,
                &s2,
                self,
                &b0,
                &b2,
                builder,
                i1 + i2,
                seq![i8ptr_t] + Seq::<TypeDesc>::empty(),
                i3,
                seq![i8ptr_t],
            );
            assert(i1 + i2 + i3 =~= local_str(
                dst as int,
                value@,
                value.spec_bytes().len() as usize,
            ));
            assert(seq![i8ptr_t] + Seq::<TypeDesc>::empty() + seq![i8ptr_t] =~= seq![
                ptr_to(Prim::I8),
                ptr_to(Prim::I8),
            ]);
        }
        (Value { ty: i8ptr_t, kind: ValueKind::Reg(cast) }, len)
    }

    /// Puts a constant array of `elem` on the stack with one store.
    fn build_local_const_array(&mut self, builder: &mut Cursor, elem: Prim, values: &[Value]) -> (r: (
        Value,
        Value,
    ))
        requires
            old(builder).in_unit(old(self)),
        ensures
            old(self).wf() ==> final(self).wf(),
            final(builder).in_unit(final(self)),
            r.0 == const_array_handle(old(self).regs@.len() as int),
            r.1 == int_const(Prim::Word, values@.len() as int),
            emitted(
                old(self),
                final(self),
                old(builder),
                final(builder),
                const_array(old(self).regs@.len() as int, elem, values@),
                seq![ptr_to(elem), ptr_to(Prim::I8)],
            ),
    {
        let ghost s0 = *self;
        let ghost b0 = *builder;
        let elem_t = TypeDesc::prim(elem);
        let ptr_t = TypeDesc { base: elem, depth: 1 };
        let i8ptr_t = TypeDesc { base: Prim::I8, depth: 1 };
        let len = self.usize(values.len());
        let dst = self.regs.len();
        let var_ptr = Value { ty: ptr_t, kind: ValueKind::Reg(dst) };
        self.emit_def(builder, Inst::Alloca { dst, slot: Slot::Array(elem_t, values.len()) }, ptr_t);
        let ghost s1 = *self;
        let ghost b1 = *builder;
        self.emit(
            builder,
            Inst::StoreArray { ptr: var_ptr, elem: elem_t, items: slice_to_vec(values) },
        );
        let ghost s2 = *self;
        let ghost b2 = *builder;
        let cast = self.regs.len();
        self.emit_def(builder, Inst::Cast { dst: cast, src: var_ptr, to: i8ptr_t }, i8ptr_t);
        proof {
            let i1 = seq![InstSpec::Alloca { dst, slot: Slot::Array(elem_t, values@.len() as usize) }];
            let i2 = seq![InstSpec::StoreArray { ptr: var_ptr, elem: elem_t, items: values@ }];
            let i3 = seq![InstSpec::Cast { dst: cast, src: var_ptr, to: i8ptr_t }];
            lemma_emitted_chain(&s0, &s1, &s2, &b0, &b1, &b2, i1, seq![ptr_t], i2, Seq::empty());
            lemma_emitted_chain(
                &s0,
                &s2,
                self,
                &b0,
                &b2,
                builder,
                i1 + i2,
                seq![ptr_t] + Seq::<TypeDesc>::empty(),
                i3,
                seq![i8ptr_t],
            );
            assert(i1 + i2 + i3 =~= const_array(dst as int, elem, values@));
            assert(seq![ptr_t] + Seq::<TypeDesc>::empty() + seq![i8ptr_t] =~= seq![
                ptr_to(elem),
                ptr_to(Prim::I8),
            ]);
        }
        (Value { ty: i8ptr_t, kind: ValueKind::Reg(cast) }, len)
    }

    /// Puts a constant array of bytes on the stack with one store. Returns
    /// the pointer to its first byte, and the number of its elements as a
    /// platform word.
    pub fn build_local_const_u8_array(&mut self, builder: &mut Cursor, values: &[Value]) -> (r: (
        Value,
        Value,
    ))
        requires
            old(builder).in_unit(old(self)),
        ensures
            old(self).wf() ==> final(self).wf(),
            final(builder).in_unit(final(self)),
            r.0 == const_array_handle(old(self).regs@.len() as int),
            r.1 == int_const(Prim::Word, values@.len() as int),
            emitted(
                old(self),
                final(self),
                old(builder),
                final(builder),
                const_array(old(self).regs@.len() as int, Prim::I8, values@),
                seq![ptr_to(Prim::I8), ptr_to(Prim::I8)],
            ),
    {
        self.build_local_const_array(builder, Prim::I8, values)
    }

    /// Puts a constant array of platform words on the stack with one
    /// store. Returns the address of its first word as a pointer to bytes,
    /// and the number of its elements as a platform word.
    pub fn build_local_const_usize_array(&mut self, builder: &mut Cursor, values: &[Value]) -> (r: (
        Value,
        Value,
    ))
        requires
            old(builder).in_unit(old(self)),
        ensures
            old(self).wf() ==> final(self).wf(),
            final(builder).in_unit(final(self)),
            r.0 == const_array_handle(old(self).regs@.len() as int),
            r.1 == int_const(Prim::Word, values@.len() as int),
            emitted(
                old(self),
                final(self),
                old(builder),
                final(builder),
                const_array(old(self).regs@.len() as int, Prim::Word, values@),
                seq![ptr_to(Prim::Word), ptr_to(Prim::I8)],
            ),
    {
        self.build_local_const_array(builder, Prim::Word, values)
    }

    /// Puts an array of platform words on the stack element by element:
    /// one store for each element, so that the elements need not be
    /// constants. Returns the address of its first word as a pointer to
    /// bytes, and the number of its elements as a platform word.
    pub fn build_local_dyn_usize_array(&mut self, builder: &mut Cursor, values: &[Value]) -> (r: (
        Value,
        Value,
    ))
        requires
            old(builder).in_unit(old(self)),
        ensures
            old(self).wf() ==> final(self).wf(),
            final(builder).in_unit(final(self)),
            r.0 == dyn_array_handle(old(self).regs@.len() as int, values@.len()),
            r.1 == int_const(Prim::Word, values@.len() as int),
            emitted(
                old(self),
                final(self),
                old(builder),
                final(builder),
                dyn_array(old(self).regs@.len() as int, values@),
                word_ptrs(values@.len() + 1) + seq![ptr_to(Prim::I8)],
            ),
    {
        let ghost s0 = *self;
        let ghost b0 = *builder;
        let size_t = TypeDesc::prim(Prim::Word);
        let sizeptr_t = TypeDesc { base: Prim::Word, depth: 1 };
        let i8ptr_t = TypeDesc { base: Prim::I8, depth: 1 };
        let n = values.len();
        let len = self.usize(n);
        let r0 = self.regs.len();
        let var_ptr = Value { ty: sizeptr_t, kind: ValueKind::Reg(r0) };
        self.emit_def(
            builder,
            Inst::ArrayAlloca { dst: r0, elem: size_t, count: len },
            sizeptr_t,
        );
        let ghost alloca = seq![InstSpec::ArrayAlloca { dst: r0, elem: size_t, count: len }];
        proof {
            assert(alloca + fill(r0 as int, values@, 0) =~= alloca);
            assert(word_ptrs(1) =~= seq![sizeptr_t]);
        }
        let mut i: usize = 0;
        while i < n
            invariant
                n == values@.len(),
                i <= n,
                b0.in_unit(&s0),
                r0 == s0.regs@.len(),
                var_ptr == reg(r0 as int, ptr_to(Prim::Word)),
                sizeptr_t == ptr_to(Prim::Word),
                alloca == seq![
                    InstSpec::ArrayAlloca {
                        dst: r0,
                        elem: TypeDesc { base: Prim::Word, depth: 0 },
                        count: int_const(Prim::Word, n as int),
                    },
                ],
                s0.wf() ==> self.wf(),
                builder.in_unit(self),
                emitted(
                    &s0,
                    self,
                    &b0,
                    builder,
                    alloca + fill(r0 as int, values@, i as nat),
                    word_ptrs((i + 1) as nat),
                ),
            decreases n - i,
        {
            let ghost done = alloca + fill(r0 as int, values@, i as nat);
            let ghost s1 = *self;
            let ghost b1 = *builder;
            let idx = self.usize(i);
            let dst = self.regs.len();
            let ptr = Value { ty: sizeptr_t, kind: ValueKind::Reg(dst) };
            self.emit_def(builder, Inst::ElementPtr { dst, ptr: var_ptr, index: idx }, sizeptr_t);
            let ghost s2 = *self;
            let ghost b2 = *builder;
            self.emit(builder, Inst::Store { ptr, val: values[i] });
            proof {
                let i1 = seq![InstSpec::ElementPtr { dst, ptr: var_ptr, index: idx }];
                let i2 = seq![InstSpec::Store { ptr, val: values@[i as int] }];
                lemma_emitted_chain(
                    &s0,
                    &s1,
                    &s2,
                    &b0,
                    &b1,
                    &b2,
                    done,
                    word_ptrs((i + 1) as nat),
                    i1,
                    seq![sizeptr_t],
                );
                lemma_emitted_chain(
                    &s0,
                    &s2,
                    self,
                    &b0,
                    &b2,
                    builder,
                    done + i1,
                    word_ptrs((i + 1) as nat) + seq![sizeptr_t],
                    i2,
                    Seq::empty(),
                );
                assert(dst == r0 + i + 1);
                assert(done + i1 + i2 =~= alloca + fill(r0 as int, values@, (i + 1) as nat));
                assert(word_ptrs((i + 1) as nat) + seq![sizeptr_t] + Seq::<TypeDesc>::empty()
                    =~= word_ptrs((i + 2) as nat));
            }
            i += 1;
        }
        let ghost s3 = *self;
        let ghost b3 = *builder;
        let cast = self.regs.len();
        self.emit_def(builder, Inst::Cast { dst: cast, src: var_ptr, to: i8ptr_t }, i8ptr_t);
        proof {
            let done = alloca + fill(r0 as int, values@, n as nat);
            let last = seq![InstSpec::Cast { dst: cast, src: var_ptr, to: i8ptr_t }];
            lemma_emitted_chain(
                &s0,
                &s3,
                self,
                &b0,
                &b3,
                builder,
                done,
                word_ptrs((n + 1) as nat),
                last,
                seq![i8ptr_t],
            );
            assert(cast == r0 + n + 1);
            assert(done + last =~= dyn_array(r0 as int, values@));
        }
        (Value { ty: i8ptr_t, kind: ValueKind::Reg(cast) }, len)
    }

    /// Emits a call of `callee` with `args`. Returns what the call
    /// returns, or `None` where the function returns nothing. The
    /// arguments are not held against the function's signature.
    pub fn build_call(&mut self, builder: &mut Cursor, callee: Function, args: &[Value]) -> (r:
        Option<Value>)
        requires
            old(builder).in_unit(old(self)),
            callee.index < old(self).decls@.len(),
        ensures
            old(self).wf() ==> final(self).wf(),
            final(builder).in_unit(final(self)),
            ({
                let ret = old(self).decls@[callee.index as int].sig.ret;
                let r0 = old(self).regs@.len() as int;
                &&& r == if returns_value(ret) {
                    Some(reg(r0, ret))
                } else {
                    None
                }
                &&& emitted(
                    old(self),
                    final(self),
                    old(builder),
                    final(builder),
                    seq![call_inst(r0, callee, ret, args@)],
                    call_regs(ret),
                )
            }),
    {
        let ret = self.decls[callee.index].sig.ret;
        let args = slice_to_vec(args);
        if ret.depth == 0 && ret.base == Prim::Void {
            self.emit(builder, Inst::Call { dst: None, callee, args });
            None
        } else {
            let dst = self.regs.len();
            self.emit_def(builder, Inst::Call { dst: Some(dst), callee, args }, ret);
            Some(Value { ty: ret, kind: ValueKind::Reg(dst) })
        }
    }

    /// Emits the return from the function, with `val` where it returns a
    /// value.
    pub fn build_return(&mut self, builder: &mut Cursor, val: Option<Value>)
        requires
            old(builder).in_unit(old(self)),
        ensures
            old(self).wf() ==> final(self).wf(),
            final(builder).in_unit(final(self)),
            emitted(
                old(self),
                final(self),
                old(builder),
                final(builder),
                seq![InstSpec::Ret { val }],
                Seq::<TypeDesc>::empty(),
            ),
    {
        self.emit(builder, Inst::Ret { val });
    }
}

/// The instructions of a formatted print, from register `r0` on: the
/// format text is put on the stack, then `printf` is called with the
/// pointer to the text and, behind it, the arguments in their order.
pub open spec fn printf_call(
    r0: int,
    printf: Function,
    ret: TypeDesc,
    fcs: Seq<char>,
    len: usize,
    values: Seq<Value>,
) -> Seq<InstSpec> {
    local_str(r0, fcs, len) + seq![
        call_inst(r0 + 2, printf, ret, seq![reg(r0 + 1, ptr_to(Prim::I8))] + values),
    ]
}

impl VMMod {
    /// Emits a formatted print: `printf` called with the format text `fcs`
    /// and, behind it, `values` in their order. The unit must declare
    /// `printf`. The arguments are not held against the format.
    pub fn build_call_printf(&mut self, builder: &mut Cursor, fcs: &str, values: &[Value])
        requires
            old(builder).in_unit(old(self)),
            declares(old(self).declared(), "printf"@),
        ensures
            old(self).wf() ==> final(self).wf(),
            final(builder).in_unit(final(self)),
            ({
                let printf = first_named(old(self).declared(), "printf"@);
                let ret = old(self).decls@[printf.index as int].sig.ret;
                let r0 = old(self).regs@.len() as int;
                emitted(
                    old(self),
                    final(self),
                    old(builder),
                    final(builder),
                    printf_call(r0, printf, ret, fcs@, fcs.spec_bytes().len() as usize, values@),
                    seq![ptr_to(Prim::I8), ptr_to(Prim::I8)] + call_regs(ret),
                )
            }),
    {
        let ghost s0 = *self;
        let ghost b0 = *builder;
        let ghost r0 = self.regs@.len() as int;
        let (fcs_p, _) = self.build_local_str(builder, fcs);
        let ghost s1 = *self;
        let ghost b1 = *builder;
        let fn_printf = self.get_unchecked_fn("printf");
        let mut args: Vec<Value> = Vec::new();
        args.push(fcs_p);
        let mut i: usize = 0;
        while i < values.len()
            invariant
                i <= values@.len(),
                args@ == seq![fcs_p] + values@.take(i as int),
            decreases values@.len() - i,
        {
            args.push(values[i]);
            assert(values@.take(i + 1) =~= values@.take(i as int).push(values@[i as int]));
            i += 1;
        }
        assert(values@.take(i as int) =~= values@);
        let _ = self.build_call(builder, fn_printf, args.as_slice());
        proof {
            let ret = s0.decls@[fn_printf.index as int].sig.ret;
            let len = fcs.spec_bytes().len() as usize;
            lemma_emitted_chain(
                &s0,
                &s1,
                self,
                &b0,
                &b1,
                builder,
                local_str(r0, fcs@, len),
                seq![ptr_to(Prim::I8), ptr_to(Prim::I8)],
                seq![call_inst(r0 + 2, fn_printf, ret, args@)],
                call_regs(ret),
            );
        }
    }
}

/// The handle that a constant array is returned by: the register of the
/// pointer cast, tagged as the pointer to bytes.
pub open spec fn const_array_handle(r0: int) -> Value {
    reg(r0 + 1, ptr_to(Prim::I8))
}

/// The handle that an array stored element by element is returned by: the
/// register of the pointer cast, tagged as the pointer to bytes.
pub open spec fn dyn_array_handle(r0: int, n: nat) -> Value {
    reg(r0 + n + 1, ptr_to(Prim::I8))
}

/// An array is handed out under one type, the pointer to bytes, whatever
/// the type of its elements, whether it was stored at once or element by
/// element, and whatever its length: in both cases the handle is the
/// result of the pointer cast that ends the instructions.
pub proof fn lemma_array_handles_agree(
    r0: int,
    elem: Prim,
    at_once: Seq<Value>,
    one_by_one: Seq<Value>,
)
    requires
        0 <= r0,
    ensures
        const_array_handle(r0).ty == dyn_array_handle(r0, one_by_one.len()).ty,
        const_array_handle(r0).ty == ptr_to(Prim::I8),
        const_array(r0, elem, at_once).last() == (InstSpec::Cast {
            dst: (r0 + 1) as usize,
            src: reg(r0, ptr_to(elem)),
            to: const_array_handle(r0).ty,
        }),
        dyn_array(r0, one_by_one).last() == (InstSpec::Cast {
            dst: (r0 + one_by_one.len() + 1) as usize,
            src: reg(r0, ptr_to(Prim::Word)),
            to: dyn_array_handle(r0, one_by_one.len()).ty,
        }),
        dyn_array(r0, one_by_one).len() == 2 * one_by_one.len() + 2,
        const_array(r0, elem, at_once).len() == 3,
{
    lemma_fill_len(r0, one_by_one, one_by_one.len());
}

} // verus!

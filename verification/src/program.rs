//! A whole program, from the builders to the back end: the `main` that
//! opens a file and writes a text to it is lowered without error,
//! whatever the path, the text and the two functions are.

use vstd::prelude::*;
use vstd::string::*;
use vstd::utf8::encode_utf8;
use inkwell::context::Context;
use inkwell::module::Module;
use crate::builder::{
    call_inst, call_regs, emitted, int_const, lemma_emitted_chain, local_str, ptr_to, reg,
    returns_value, Cursor,
};
use crate::emit::{
    all_sure, args_fault, blank, classes_known, code_fault, decls_fault, forecast,
    forecast_defined, forecast_fault, forecast_step, functions_of, gives_of, held_of, lower_unit,
    lowered_by,
    operand_fault, sure, unit_fault, Class, EmitError, Forecast,
};
use crate::ir::{Block, Function, InstSpec, Value};
use crate::module::VMMod;
use crate::types::{Prim, TypeDesc, TypeTable};

verus! {

/// The body of a `main` that opens a file and writes to it: the path is
/// put on the stack, `open` is called with the path and two more
/// arguments, the text is put on the stack, `write` is called with what
/// `open` returned, the text and its length in bytes, and zero is
/// returned. This is what `build_local_str`, `build_call`,
/// `build_local_str`, `build_call` and `build_return` emit one after the
/// other into an empty `main` of a unit without registers.
pub open spec fn open_and_write(
    open: Function,
    opened: TypeDesc,
    flags: Value,
    mode: Value,
    write: Function,
    written: TypeDesc,
    path: Seq<char>,
    content: Seq<char>,
) -> Seq<InstSpec> {
    let path_len = encode_utf8(path).len();
    let content_len = encode_utf8(content).len();
    local_str(0, path, path_len as usize) + seq![
        call_inst(2, open, opened, seq![reg(1, ptr_to(Prim::I8)), flags, mode]),
    ] + local_str(3, content, content_len as usize) + seq![
        call_inst(
            5,
            write,
            written,
            seq![reg(2, opened), reg(4, ptr_to(Prim::I8)), int_const(Prim::Word, content_len as int)],
        ),
        InstSpec::Ret { val: Some(int_const(Prim::Word, 0)) },
    ]
}

/// Fills the empty `main` of a unit without registers with the program
/// that opens `path` and writes `content` to it: the body is
/// `open_and_write`, and its six registers are defined.
pub fn build_open_and_write(
    unit: &mut VMMod,
    blk: Block,
    open: Function,
    flags: Value,
    mode: Value,
    write: Function,
    path: &str,
    content: &str,
)
    requires
        old(unit).entry == Some(blk.func),
        old(unit).code@.len() == 0,
        old(unit).regs@.len() == 0,
        open.index < old(unit).decls@.len(),
        write.index < old(unit).decls@.len(),
        returns_value(old(unit).declared()[open.index as int].sig.ret),
        returns_value(old(unit).declared()[write.index as int].sig.ret),
    ensures
        final(unit).name == old(unit).name,
        final(unit).decls == old(unit).decls,
        final(unit).entry == old(unit).entry,
        old(unit).wf() ==> final(unit).wf(),
        final(unit).regs@.len() == 6,
        final(unit).body() == open_and_write(
            open,
            old(unit).declared()[open.index as int].sig.ret,
            flags,
            mode,
            write,
            old(unit).declared()[write.index as int].sig.ret,
            path@,
            content@,
        ),
{
    let ghost u0 = *unit;
    let ghost opened = unit.declared()[open.index as int].sig.ret;
    let ghost written = unit.declared()[write.index as int].sig.ret;
    let mut builder = VMMod::get_builder_at_end(blk);
    let ghost b0 = builder;
    let (name, _) = unit.build_local_str(&mut builder, path);
    let ghost u1 = *unit;
    let ghost b1 = builder;
    let fd = unit.build_call(&mut builder, open, &[name, flags, mode]).unwrap();
    let ghost u2 = *unit;
    let ghost b2 = builder;
    let (text, len) = unit.build_local_str(&mut builder, content);
    let ghost u3 = *unit;
    let ghost b3 = builder;
    unit.build_call(&mut builder, write, &[fd, text, len]);
    let ghost u4 = *unit;
    let ghost b4 = builder;
    let zero = unit.usize(0);
    unit.build_return(&mut builder, Some(zero));
    proof {
        let i1 = local_str(0, path@, path.spec_bytes().len() as usize);
        let i2 = seq![call_inst(2, open, opened, seq![name, flags, mode])];
        let i3 = local_str(3, content@, content.spec_bytes().len() as usize);
        let i4 = seq![call_inst(5, write, written, seq![fd, text, len])];
        let i5 = seq![InstSpec::Ret { val: Some(zero) }];
        let r2 = seq![ptr_to(Prim::I8), ptr_to(Prim::I8)];
        lemma_emitted_chain(&u0, &u1, &u2, &b0, &b1, &b2, i1, r2, i2, call_regs(opened));
        lemma_emitted_chain(&u0, &u2, &u3, &b0, &b2, &b3, i1 + i2, r2 + call_regs(opened), i3, r2);
        lemma_emitted_chain(
            &u0,
            &u3,
            &u4,
            &b0,
            &b3,
            &b4,
            i1 + i2 + i3,
            r2 + call_regs(opened) + r2,
            i4,
            call_regs(written),
        );
        lemma_emitted_chain(
            &u0,
            &u4,
            unit,
            &b0,
            &b4,
            &builder,
            i1 + i2 + i3 + i4,
            r2 + call_regs(opened) + r2 + call_regs(written),
            i5,
            Seq::<TypeDesc>::empty(),
        );
        assert(u0.body() =~= Seq::<InstSpec>::empty());
        assert(unit.body() =~= i1 + i2 + i3 + i4 + i5);
        assert(i1 + i2 + i3 + i4 + i5 =~= open_and_write(
            open,
            opened,
            flags,
            mode,
            write,
            written,
            path@,
            content@,
        ));
    }
}

/// Fills the empty `main` of a unit without registers with the program
/// that opens `path` and writes `content` to it, and lowers the unit.
///
/// This succeeds where the declarations of the unit have no fault, the
/// two constants are integers, and the path and the text are shorter
/// than 32 bits count. The module then holds the functions of the unit,
/// and is what a lowering built that emitted every instruction of the
/// body.
pub fn lower_open_and_write<'ctx>(
    ctx: &'ctx Context,
    unit: &mut VMMod,
    table: &TypeTable,
    blk: Block,
    open: Function,
    flags: Value,
    mode: Value,
    write: Function,
    path: &str,
    content: &str,
) -> (r: Result<Module<'ctx>, EmitError>)
    requires
        old(unit).entry == Some(blk.func),
        old(unit).code@.len() == 0,
        old(unit).regs@.len() == 0,
        open.index < old(unit).decls@.len(),
        write.index < old(unit).decls@.len(),
        returns_value(old(unit).declared()[open.index as int].sig.ret),
        returns_value(old(unit).declared()[write.index as int].sig.ret),
    ensures
        final(unit).name == old(unit).name,
        final(unit).decls == old(unit).decls,
        final(unit).entry == old(unit).entry,
        final(unit).body() == open_and_write(
            open,
            old(unit).declared()[open.index as int].sig.ret,
            flags,
            mode,
            write,
            old(unit).declared()[write.index as int].sig.ret,
            path@,
            content@,
        ),
        decls_fault(old(unit), table.opaque@.len()) is None && flags.kind is Int
            && flags.ty.spec_is_int() && mode.kind is Int && mode.ty.spec_is_int() && encode_utf8(
            path@,
        ).len() < u32::MAX && encode_utf8(content@).len() < u32::MAX ==> r is Ok,
        r is Ok ==> unit_fault(final(unit), table.opaque@.len()) is None,
        r matches Ok(module) ==> functions_of(&module) == held_of(final(unit)) && lowered_by(
            module,
            ctx,
            final(unit),
            table.opaque@.len(),
        ),
{
    build_open_and_write(unit, blk, open, flags, mode, write, path, content);
    proof {
        if decls_fault(old(unit), table.opaque@.len()) is None && flags.kind is Int
            && flags.ty.spec_is_int() && mode.kind is Int && mode.ty.spec_is_int() && encode_utf8(
            path@,
        ).len() < u32::MAX && encode_utf8(content@).len() < u32::MAX {
            lemma_open_and_write_lowers(
                unit,
                table.opaque@.len(),
                open,
                flags,
                mode,
                write,
                path@,
                content@,
            );
        }
    }
    lower_unit(ctx, unit, table)
}

/// Arguments of which none has a fault have no fault.
pub proof fn lemma_args_without_fault(args: Seq<Value>, defined: Set<usize>)
    requires
        forall|i: int| 0 <= i < args.len() ==> operand_fault(#[trigger] args[i], defined) is None,
    ensures
        args_fault(args, defined) is None,
    decreases args.len(),
{
    if args.len() > 0 {
        lemma_args_without_fault(args.drop_last(), defined);
    }
}

/// The forecast in which the first `n` of six registers hold a value:
/// the slots of the two texts and their handles are pointers, and what
/// the two calls define is for the back end to say.
pub open spec fn after(n: nat) -> Forecast {
    Seq::new(
        6,
        |i: int|
            if i >= n {
                None
            } else if i == 2 || i == 5 {
                Some(None)
            } else {
                Some(Some(Class::Pointer))
            },
    )
}

/// The unit with that body lowers: where its declarations have no fault,
/// the two functions are declared and return a value, the two constants
/// are integers, and the path and the text are shorter than 32 bits
/// count, the unit has no fault, and every value that an instruction
/// takes as a pointer is known to be one. So `lower_unit` returns the
/// back end's module for it.
pub proof fn lemma_open_and_write_lowers(
    unit: &VMMod,
    n_opaque: nat,
    open: Function,
    flags: Value,
    mode: Value,
    write: Function,
    path: Seq<char>,
    content: Seq<char>,
)
    requires
        decls_fault(unit, n_opaque) is None,
        unit.entry is Some,
        unit.regs@.len() == 6,
        open.index < unit.decls@.len(),
        write.index < unit.decls@.len(),
        returns_value(unit.declared()[open.index as int].sig.ret),
        returns_value(unit.declared()[write.index as int].sig.ret),
        flags.kind is Int && flags.ty.spec_is_int(),
        mode.kind is Int && mode.ty.spec_is_int(),
        encode_utf8(path).len() < u32::MAX,
        encode_utf8(content).len() < u32::MAX,
        unit.body() == open_and_write(
            open,
            unit.declared()[open.index as int].sig.ret,
            flags,
            mode,
            write,
            unit.declared()[write.index as int].sig.ret,
            path,
            content,
        ),
    ensures
        unit_fault(unit, n_opaque) is None,
        classes_known(unit),
{
    let code = unit.body();
    let gives = gives_of(unit);
    let start = blank(6);
    let opened = unit.declared()[open.index as int].sig.ret;
    let written = unit.declared()[write.index as int].sig.ret;
    let counts = seq![0nat, 1, 1, 2, 3, 4, 4, 5, 6, 6];
    assert(code.len() == 9);
    assert(start =~= after(0));
    assert forall|k: int| 0 <= k <= 9 implies #[trigger] forecast(start, code, 0, k) == after(
        counts[k],
    ) by {
        lemma_forecast_counts(code, k, open, opened, flags, mode, write, written, path, content);
    }
    assert forall|k: int| 0 <= k < 9 implies forecast_fault(
        #[trigger] code[k],
        after(counts[k]),
        true,
        gives,
        n_opaque,
    ) is None && sure(code[k], after(counts[k])) by {
        let known = after(counts[k]);
        let defined = forecast_defined(known);
        if k == 3 {
            let args = seq![reg(1, ptr_to(Prim::I8)), flags, mode];
            assert(defined.contains(1usize));
            lemma_args_without_fault(args, defined);
        } else if k == 7 {
            let args = seq![
                reg(2, opened),
                reg(4, ptr_to(Prim::I8)),
                int_const(Prim::Word, encode_utf8(content).len() as int),
            ];
            assert(defined.contains(2usize));
            assert(defined.contains(4usize));
            lemma_args_without_fault(args, defined);
        } else if k == 1 || k == 2 {
            assert(defined.contains(0usize));
        } else if k == 5 || k == 6 {
            assert(defined.contains(3usize));
        }
    }
    lemma_no_fault(start, code, 9, gives, n_opaque);
    assert(all_sure(start, code, 0, 9));
}

/// The forecast before instruction `k` of that body.
proof fn lemma_forecast_counts(
    code: Seq<InstSpec>,
    k: int,
    open: Function,
    opened: TypeDesc,
    flags: Value,
    mode: Value,
    write: Function,
    written: TypeDesc,
    path: Seq<char>,
    content: Seq<char>,
)
    requires
        0 <= k <= 9,
        returns_value(opened),
        returns_value(written),
        code == open_and_write(open, opened, flags, mode, write, written, path, content),
    ensures
        forecast(blank(6), code, 0, k) == after(seq![0nat, 1, 1, 2, 3, 4, 4, 5, 6, 6][k]),
    decreases k,
{
    if k == 0 {
        assert(blank(6) =~= after(0));
    } else {
        lemma_forecast_counts(code, k - 1, open, opened, flags, mode, write, written, path, content);
        let counts = seq![0nat, 1, 1, 2, 3, 4, 4, 5, 6, 6];
        assert(forecast_step(after(counts[k - 1]), code[k - 1]) =~= after(counts[k]));
    }
}

/// Code of which no instruction has a fault in the forecast before it
/// has no fault.
pub proof fn lemma_no_fault(
    start: Forecast,
    code: Seq<InstSpec>,
    k: int,
    gives: Seq<bool>,
    n_opaque: nat,
)
    requires
        0 <= k <= code.len(),
        forall|j: int|
            0 <= j < k ==> forecast_fault(
                #[trigger] code[j],
                forecast(start, code, 0, j),
                true,
                gives,
                n_opaque,
            ) is None,
    ensures
        code_fault(start, code, 0, k, true, gives, n_opaque) is None,
    decreases k,
{
    if k > 0 {
        lemma_no_fault(start, code, k - 1, gives, n_opaque);
    }
}

} // verus!

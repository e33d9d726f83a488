use either::Either;
use inkwellkit::{
    builder_position_at_start, is_int_pointer, Block, Cursor, Function, Inst, Place, Predicate, Prim, Slot,
    TypeDesc, VMMod, Value, ValueKind,
};

fn ty(base: Prim, depth: usize) -> TypeDesc {
    TypeDesc { base, depth }
}

fn reg(id: usize, base: Prim, depth: usize) -> Value {
    Value { ty: ty(base, depth), kind: ValueKind::Reg(id) }
}

fn konst(base: Prim, bits: u64) -> Value {
    Value { ty: ty(base, 0), kind: ValueKind::Int(bits) }
}

fn unit_with_main() -> (VMMod, Cursor) {
    let mut unit = VMMod::new("unit");
    unit.include_stdio().unwrap();
    let blk = unit.append_main().unwrap();
    let builder = VMMod::get_builder_at_end(blk);
    assert!(builder.is_in(&unit));
    (unit, builder)
}

#[test]
fn typed_constants() {
    let unit = VMMod::new("unit");
    assert_eq!(VMMod::null(), konst(Prim::I8, 0));
    assert_eq!(unit.u8(0), konst(Prim::I8, 0));
    assert_eq!(unit.u8(255), konst(Prim::I8, 255));
    assert_eq!(unit.bool(true), konst(Prim::I8, 1));
    assert_eq!(unit.bool(false), konst(Prim::I8, 0));
    assert_eq!(unit.i32(0), konst(Prim::I32, 0));
    assert_eq!(unit.i32(20), konst(Prim::I32, 20));
    assert_eq!(unit.i32(i32::MAX), konst(Prim::I32, 0x7fff_ffff));
    assert_eq!(unit.i32(-1), konst(Prim::I32, 0xffff_ffff));
    assert_eq!(unit.i32(i32::MIN), konst(Prim::I32, 0x8000_0000));
    assert_eq!(unit.i64(0), konst(Prim::I64, 0));
    assert_eq!(unit.i64(i64::MAX), konst(Prim::I64, 0x7fff_ffff_ffff_ffff));
    assert_eq!(unit.i64(-1), konst(Prim::I64, u64::MAX));
    assert_eq!(unit.i64(i64::MIN), konst(Prim::I64, 0x8000_0000_0000_0000));
    assert_eq!(unit.usize(0), konst(Prim::Word, 0));
    assert_eq!(unit.usize(usize::MAX), konst(Prim::Word, usize::MAX as u64));
    let half = 0.5f64;
    assert_eq!(
        unit.double(half.to_bits()),
        Value { ty: ty(Prim::Double, 0), kind: ValueKind::Double(0x3fe0_0000_0000_0000) }
    );
}

#[test]
fn a_constant_text_ends_with_a_zero_byte() {
    let unit = VMMod::new("unit");
    assert_eq!(unit.str("").bytes, vec![0]);
    assert_eq!(unit.str("hi").bytes, vec![b'h', b'i', 0]);
    assert_eq!(unit.str("é").bytes, vec![0xc3, 0xa9, 0]);
}

#[test]
fn cursors() {
    let mut unit = VMMod::new("unit");
    let stray = VMMod::get_builder();
    assert_eq!(stray.place, Place::Unset);
    assert!(!stray.is_in(&unit));
    let blk = unit.append_main().unwrap();
    assert_eq!(blk, Block { func: 0 });
    let at_end = VMMod::get_builder_at_end(blk);
    assert_eq!(at_end.place, Place::AtEnd(blk));
    assert!(at_end.is_in(&unit));
    assert!(!VMMod::get_builder_at_end(Block { func: 1 }).is_in(&unit));
    let at_start = unit.get_builder_at_start(blk);
    assert_eq!(at_start.place, Place::AtEnd(blk));
    let mut builder = at_end;
    unit.build_return(&mut builder, None);
    let at_start = unit.get_builder_at_start(blk);
    assert_eq!(at_start.place, Place::Before(blk, 0));
    assert!(at_start.is_in(&unit));
    let mut moved = Cursor::new();
    builder_position_at_start(&mut moved, &unit, blk);
    assert_eq!(moved.place, Place::Before(blk, 0));
    moved.position_before(blk, 1);
    assert!(!moved.is_in(&unit));
    moved.position_at_end(blk);
    assert!(moved.is_in(&unit));
}

#[test]
fn instructions_go_where_the_cursor_stands() {
    let (mut unit, mut at_end) = unit_with_main();
    let blk = Block { func: 1 };
    let one = unit.i32(1);
    let two = unit.i32(2);
    let first = unit.bsgt(&mut at_end, one, two);
    unit.build_return(&mut at_end, None);
    let mut at_start = unit.get_builder_at_start(blk);
    let second = unit.bsge(&mut at_start, two, one);
    let third = unit.bsgt(&mut at_start, two, two);
    assert_eq!(at_start.place, Place::Before(blk, 2));
    assert_eq!(at_end.place, Place::AtEnd(blk));
    assert_eq!(first, reg(0, Prim::Bit, 0));
    assert_eq!(second, reg(1, Prim::Bit, 0));
    assert_eq!(third, reg(2, Prim::Bit, 0));
    assert_eq!(
        unit.code,
        vec![
            Inst::Compare { dst: 1, test: Predicate::Sge, lhs: two, rhs: one },
            Inst::Compare { dst: 2, test: Predicate::Sgt, lhs: two, rhs: two },
            Inst::Compare { dst: 0, test: Predicate::Sgt, lhs: one, rhs: two },
            Inst::Ret { val: None },
        ]
    );
    assert_eq!(unit.regs, vec![ty(Prim::Bit, 0); 3]);
}

#[test]
fn counter_scaffolding_emits_load_add_store() {
    let (mut unit, mut builder) = unit_with_main();
    let five = unit.i32(5);
    let three = unit.i32(3);
    let var = unit.bcnt_init(&mut builder, five);
    assert_eq!(var, reg(0, Prim::I32, 1));
    unit.bcnt_forward(&mut builder, var, three);
    let count = unit.bload_int(&mut builder, var);
    assert_eq!(count, reg(3, Prim::I32, 0));
    assert_eq!(
        unit.code,
        vec![
            Inst::Alloca { dst: 0, slot: Slot::One(ty(Prim::I32, 0)) },
            Inst::Store { ptr: var, val: five },
            Inst::Load { dst: 1, ptr: var },
            Inst::Add { dst: 2, lhs: reg(1, Prim::I32, 0), rhs: three },
            Inst::Store { ptr: var, val: reg(2, Prim::I32, 0) },
            Inst::Load { dst: 3, ptr: var },
        ]
    );
    assert_eq!(
        unit.regs,
        vec![ty(Prim::I32, 1), ty(Prim::I32, 0), ty(Prim::I32, 0), ty(Prim::I32, 0)]
    );
}

#[test]
fn counter_checks_swap_the_operands_for_an_upper_bound() {
    let (mut unit, mut builder) = unit_with_main();
    let var = unit.bcnt_init(&mut builder, unit.i32(5));
    let low = unit.i32(4);
    let high = unit.i32(10);
    let above = unit.bcnt_check(&mut builder, var, Either::Left(low));
    let below = unit.bcnt_check(&mut builder, var, Either::Right(high));
    assert_eq!(above, reg(2, Prim::Bit, 0));
    assert_eq!(below, reg(4, Prim::Bit, 0));
    assert_eq!(
        unit.code[2..],
        [
            Inst::Load { dst: 1, ptr: var },
            Inst::Compare { dst: 2, test: Predicate::Sgt, lhs: reg(1, Prim::I32, 0), rhs: low },
            Inst::Load { dst: 3, ptr: var },
            Inst::Compare { dst: 4, test: Predicate::Sgt, lhs: high, rhs: reg(3, Prim::I32, 0) },
        ]
    );
}

#[test]
fn a_local_text_returns_its_length_in_bytes() {
    let cases: [(&str, u64); 5] =
        [("", 0), ("a", 1), ("hello.txt", 9), ("_____写入了", 14), ("write res: %d\n", 14)];
    for (text, bytes) in cases {
        let (mut unit, mut builder) = unit_with_main();
        let (ptr, len) = unit.build_local_str(&mut builder, text);
        assert_eq!(len, konst(Prim::Word, bytes), "{:?}", text);
        assert_eq!(ptr, reg(1, Prim::I8, 1));
        assert_eq!(
            unit.code,
            vec![
                Inst::Alloca { dst: 0, slot: Slot::Text(bytes as usize) },
                Inst::StoreText { ptr: reg(0, Prim::I8, 1), text: text.to_string() },
                Inst::Cast { dst: 1, src: reg(0, Prim::I8, 1), to: ty(Prim::I8, 1) },
            ]
        );
    }
}

#[test]
fn a_constant_array_is_stored_at_once() {
    let (mut unit, mut builder) = unit_with_main();
    let items = vec![unit.u8(7), unit.u8(8), unit.u8(9)];
    let (ptr, len) = unit.build_local_const_u8_array(&mut builder, &items);
    assert_eq!(ptr, reg(1, Prim::I8, 1));
    assert_eq!(len, konst(Prim::Word, 3));
    assert_eq!(
        unit.code,
        vec![
            Inst::Alloca { dst: 0, slot: Slot::Array(ty(Prim::I8, 0), 3) },
            Inst::StoreArray { ptr: reg(0, Prim::I8, 1), elem: ty(Prim::I8, 0), items },
            Inst::Cast { dst: 1, src: reg(0, Prim::I8, 1), to: ty(Prim::I8, 1) },
        ]
    );
    let words = vec![unit.usize(1), unit.usize(2)];
    let (ptr, len) = unit.build_local_const_usize_array(&mut builder, &words);
    assert_eq!(ptr, reg(3, Prim::I8, 1));
    assert_eq!(len, konst(Prim::Word, 2));
    assert_eq!(
        unit.code[3..],
        [
            Inst::Alloca { dst: 2, slot: Slot::Array(ty(Prim::Word, 0), 2) },
            Inst::StoreArray { ptr: reg(2, Prim::Word, 1), elem: ty(Prim::Word, 0), items: words },
            Inst::Cast { dst: 3, src: reg(2, Prim::Word, 1), to: ty(Prim::I8, 1) },
        ]
    );
}

#[test]
fn a_dynamic_array_is_stored_element_by_element() {
    let (mut unit, mut builder) = unit_with_main();
    let items = vec![unit.usize(10), unit.usize(20)];
    let (ptr, len) = unit.build_local_dyn_usize_array(&mut builder, &items);
    let base = reg(0, Prim::Word, 1);
    assert_eq!(ptr, reg(3, Prim::I8, 1));
    assert_eq!(len, konst(Prim::Word, 2));
    assert_eq!(
        unit.code,
        vec![
            Inst::ArrayAlloca { dst: 0, elem: ty(Prim::Word, 0), count: konst(Prim::Word, 2) },
            Inst::ElementPtr { dst: 1, ptr: base, index: konst(Prim::Word, 0) },
            Inst::Store { ptr: reg(1, Prim::Word, 1), val: items[0] },
            Inst::ElementPtr { dst: 2, ptr: base, index: konst(Prim::Word, 1) },
            Inst::Store { ptr: reg(2, Prim::Word, 1), val: items[1] },
            Inst::Cast { dst: 3, src: base, to: ty(Prim::I8, 1) },
        ]
    );
    assert_eq!(
        unit.regs,
        vec![ty(Prim::Word, 1), ty(Prim::Word, 1), ty(Prim::Word, 1), ty(Prim::I8, 1)]
    );
}

#[test]
fn both_kinds_of_array_are_handed_out_under_one_pointer_type() {
    for n in [0usize, 1, 2, 5] {
        let (mut unit, mut builder) = unit_with_main();
        let items: Vec<Value> = (0..n).map(|i| unit.usize(i)).collect();
        let (at_once, len_at_once) = unit.build_local_const_usize_array(&mut builder, &items);
        let stores_at_once = unit.code.len();
        let (one_by_one, len_one_by_one) = unit.build_local_dyn_usize_array(&mut builder, &items);
        assert_eq!(at_once.ty, ty(Prim::I8, 1));
        assert_eq!(at_once.ty, one_by_one.ty);
        let bytes: Vec<Value> = (0..n).map(|i| unit.u8(i as u8)).collect();
        let (of_bytes, _) = unit.build_local_const_u8_array(&mut builder, &bytes);
        assert_eq!(of_bytes.ty, at_once.ty);
        assert_eq!(len_at_once, len_one_by_one);
        assert_eq!(len_at_once, konst(Prim::Word, n as u64));
        assert_eq!(stores_at_once, 3);
        assert_eq!(unit.code.len() - stores_at_once, 2 * n + 2 + 3);
        assert!(matches!(unit.code[2], Inst::Cast { to, .. } if to == at_once.ty));
        assert!(matches!(unit.code[stores_at_once + 2 * n + 1], Inst::Cast { to, .. } if to == one_by_one.ty));
    }
}

#[test]
fn a_call_returns_what_the_function_returns() {
    let mut unit = VMMod::new("unit");
    unit.include_stdio().unwrap();
    unit.declare_batch(vec![inkwellkit::FunDecl {
        name: "tick".to_string(),
        sig: inkwellkit::Signature { params: vec![], ret: ty(Prim::Void, 0), is_variadic: false },
    }])
    .unwrap();
    let blk = unit.append_main().unwrap();
    let mut builder = VMMod::get_builder_at_end(blk);
    let tick = unit.get_unchecked_fn("tick");
    assert_eq!(unit.build_call(&mut builder, tick, &[]), None);
    let printf = unit.get_unchecked_fn("printf");
    let arg = unit.i32(1);
    assert_eq!(unit.build_call(&mut builder, printf, &[arg]), Some(reg(0, Prim::I32, 0)));
    unit.build_return(&mut builder, Some(unit.usize(0)));
    assert_eq!(
        unit.code,
        vec![
            Inst::Call { dst: None, callee: tick, args: vec![] },
            Inst::Call { dst: Some(0), callee: printf, args: vec![arg] },
            Inst::Ret { val: Some(konst(Prim::Word, 0)) },
        ]
    );
}

#[test]
fn a_formatted_print_passes_the_format_and_then_the_values() {
    let (mut unit, mut builder) = unit_with_main();
    let a = unit.i32(1);
    let b = unit.usize(2);
    unit.build_call_printf(&mut builder, "%d %lu\n", &[a, b]);
    assert_eq!(
        unit.code,
        vec![
            Inst::Alloca { dst: 0, slot: Slot::Text(7) },
            Inst::StoreText { ptr: reg(0, Prim::I8, 1), text: "%d %lu\n".to_string() },
            Inst::Cast { dst: 1, src: reg(0, Prim::I8, 1), to: ty(Prim::I8, 1) },
            Inst::Call {
                dst: Some(2),
                callee: Function { index: 0 },
                args: vec![reg(1, Prim::I8, 1), a, b],
            },
        ]
    );
    assert_eq!(unit.regs, vec![ty(Prim::I8, 1), ty(Prim::I8, 1), ty(Prim::I32, 0)]);
}

#[test]
fn pointers_to_integers() {
    for base in [Prim::Bit, Prim::I8, Prim::I32, Prim::I64, Prim::I128, Prim::Word] {
        assert!(is_int_pointer(reg(0, base, 1)));
        assert!(!is_int_pointer(reg(0, base, 0)));
        assert!(!is_int_pointer(reg(0, base, 2)));
    }
    assert!(!is_int_pointer(reg(0, Prim::Void, 1)));
    assert!(!is_int_pointer(reg(0, Prim::Double, 1)));
    assert!(!is_int_pointer(reg(0, Prim::Opaque(0), 1)));
}

use either::Either;
use inkwell::passes::PassManager;
use inkwell::types::BasicTypeEnum;
use inkwellkit::{
    bits_of, can_load, entry_label, get_ctx, impl_fn_hdr, int_of, linkage_for,
    load_vm_common_ty, lower_unit, predicate_for, ptr_of, same_width, try_lower,
    EmitError,
    FunDecl, Inst, Predicate, Prim, Signature, TypeDesc, VMMod, Value, ValueKind,
};

fn word_bits() -> u32 {
    usize::BITS
}

#[test]
fn end_to_end_open_and_write() {
    let table = load_vm_common_ty();
    let mut unit = VMMod::new("posix");
    impl_fn_hdr(
        &mut unit,
        &table,
        "open(*i8, i32, ...) -> i32; write(i32, *i8, usize) -> i128;",
    )
    .unwrap();
    let blk = unit.append_main().unwrap();
    let mut builder = VMMod::get_builder_at_end(blk);
    let (name, _) = unit.build_local_str(&mut builder, "hello.txt");
    let flags = unit.i32(0o2101);
    let mode = unit.i32(0o666);
    let open = unit.get_unchecked_fn("open");
    let fd = unit.build_call(&mut builder, open, &[name, flags, mode]).unwrap();
    let (content, len) = unit.build_local_str(&mut builder, "_____写入了");
    let write = unit.get_unchecked_fn("write");
    let written = unit.build_call(&mut builder, write, &[fd, content, len]);
    assert!(written.is_some());
    unit.build_return(&mut builder, Some(unit.usize(0)));

    let ctx = get_ctx();
    let module = lower_unit(&ctx, &unit, &table).unwrap();
    assert!(module.verify().is_ok(), "{}", module.print_to_string().to_string());
    assert_eq!(module.get_name().to_str(), Ok("posix"));
    let mains: Vec<_> = module
        .get_functions()
        .filter(|f| f.get_name().to_str() == Ok("main"))
        .collect();
    assert_eq!(mains.len(), 1);
    let main = mains[0];
    assert_eq!(main.count_params(), 0);
    assert_eq!(main.count_basic_blocks(), 1);
    assert!(!main.get_type().is_var_arg());
    match main.get_type().get_return_type() {
        Some(BasicTypeEnum::IntType(t)) => assert_eq!(t.get_bit_width(), word_bits()),
        other => panic!("main returns {:?}", other),
    }
    let open = module.get_function("open").unwrap();
    assert_eq!(open.count_params(), 2);
    assert!(open.get_type().is_var_arg());
    assert_eq!(open.count_basic_blocks(), 0);
    assert_eq!(open.get_linkage(), inkwell::module::Linkage::External);
    let write = module.get_function("write").unwrap();
    assert_eq!(write.count_params(), 3);
    assert!(!write.get_type().is_var_arg());
    match write.get_type().get_return_type() {
        Some(BasicTypeEnum::IntType(t)) => assert_eq!(t.get_bit_width(), 128),
        other => panic!("write returns {:?}", other),
    }
    let ir = module.print_to_string().to_string();
    assert!(ir.contains("c\"hello.txt\\00\""), "{}", ir);
    assert!(ir.contains("alloca [10 x i8]"), "{}", ir);
    assert!(ir.contains("alloca [15 x i8]"), "{}", ir);
    assert!(ir.contains("call i32 (i8*, i32, ...) @open("), "{}", ir);
    assert!(ir.contains("call i128 @write("), "{}", ir);
    assert_eq!(ir.matches("define ").count(), 1);
}

#[test]
fn the_counter_counts() {
    let table = load_vm_common_ty();
    let mut unit = VMMod::new("counter");
    unit.include_stdio().unwrap();
    let blk = unit.append_main().unwrap();
    let mut builder = VMMod::get_builder_at_end(blk);
    let var = unit.bcnt_init(&mut builder, unit.i32(5));
    unit.bcnt_forward(&mut builder, var, unit.i32(3));
    let count = unit.bload_int(&mut builder, var);
    let above_4 = unit.bcnt_check(&mut builder, var, Either::Left(unit.i32(4)));
    let below_10 = unit.bcnt_check(&mut builder, var, Either::Right(unit.i32(10)));
    let below_7 = unit.bcnt_check(&mut builder, var, Either::Right(unit.i32(7)));
    unit.build_call_printf(&mut builder, "%d %d %d %d\n", &[count, above_4, below_10, below_7]);
    unit.build_return(&mut builder, Some(unit.usize(0)));

    let ctx = get_ctx();
    let module = lower_unit(&ctx, &unit, &table).unwrap();
    assert!(module.verify().is_ok(), "{}", module.print_to_string().to_string());
    let raw = module.print_to_string().to_string();
    assert!(raw.contains("icmp sgt i32 %"), "{}", raw);
    assert!(raw.contains("icmp sgt i32 10, %"), "{}", raw);
    let passes: PassManager<inkwell::module::Module> = PassManager::create(());
    passes.add_promote_memory_to_register_pass();
    passes.add_instruction_combining_pass();
    passes.run_on(&module);
    let ir = module.print_to_string().to_string();
    assert!(ir.contains("i32 8, i1 true, i1 true, i1 false)"), "{}", ir);
}

#[test]
fn a_constant_array_is_lowered() {
    let table = load_vm_common_ty();
    let mut unit = VMMod::new("arrays");
    let blk = unit.append_main().unwrap();
    let mut builder = VMMod::get_builder_at_end(blk);
    let bytes = vec![unit.u8(1), unit.u8(2), unit.u8(3)];
    unit.build_local_const_u8_array(&mut builder, &bytes);
    let words = vec![unit.usize(7)];
    unit.build_local_const_usize_array(&mut builder, &words);
    unit.build_local_const_usize_array(&mut builder, &[]);
    unit.build_return(&mut builder, Some(unit.usize(0)));
    let ctx = get_ctx();
    let module = lower_unit(&ctx, &unit, &table).unwrap();
    assert!(module.verify().is_ok(), "{}", module.print_to_string().to_string());
    let ir = module.print_to_string().to_string();
    assert!(ir.contains("store [3 x i8] c\"\\01\\02\\03\""), "{}", ir);
    let word = format!("i{}", word_bits());
    assert!(ir.contains(&format!("store [1 x {w}] [{w} 7]", w = word)), "{}", ir);
    assert!(ir.contains(&format!("alloca [0 x {}]", word)), "{}", ir);
    assert!(ir.contains(&format!("bitcast [1 x {}]* %", word)), "{}", ir);
    assert_eq!(ir.matches(" to i8*").count(), 3, "{}", ir);
}

#[test]
fn declarations_alone_are_lowered() {
    let mut table = load_vm_common_ty();
    let dynvec = table.declare_opaque("dynvec");
    table.bind("vec_t", dynvec.wrap(1));
    let mut unit = VMMod::new("decls");
    unit.include_unistd().unwrap();
    impl_fn_hdr(&mut unit, &table, "vec_new_i32(i32) -> vec; tick(f64, **i64)").unwrap();
    let ctx = get_ctx();
    let module = lower_unit(&ctx, &unit, &table).unwrap();
    assert!(module.verify().is_ok());
    let ir = module.print_to_string().to_string();
    assert!(ir.contains("%dynvec = type opaque"), "{}", ir);
    assert!(ir.contains("declare %dynvec* @vec_new_i32(i32)"), "{}", ir);
    assert!(ir.contains("declare void @tick(double, i64**)"), "{}", ir);
    assert!(ir.contains("declare i128 @write(i32, i8*, i"), "{}", ir);
    assert!(ir.contains("declare i32 @sleep(i32)"), "{}", ir);
    assert_eq!(module.get_functions().count(), 5);
}

#[test]
fn what_has_no_counterpart_is_refused() {
    let table = load_vm_common_ty();
    let ctx = get_ctx();

    let mut void_param = VMMod::new("u");
    impl_fn_hdr(&mut void_param, &table, "f(void)").unwrap();
    assert_eq!(lower_unit(&ctx, &void_param, &table).err(), Some(EmitError::Type));

    let mut void_ptr = VMMod::new("u");
    impl_fn_hdr(&mut void_ptr, &table, "f() -> *void").unwrap();
    assert_eq!(lower_unit(&ctx, &void_ptr, &table).err(), Some(EmitError::Type));

    let mut stranger = VMMod::new("u");
    stranger
        .declare_batch(vec![inkwellkit::FunDecl {
            name: "f".to_string(),
            sig: inkwellkit::Signature {
                params: vec![],
                ret: TypeDesc { base: Prim::Opaque(3), depth: 1 },
                is_variadic: false,
            },
        }])
        .unwrap();
    assert_eq!(lower_unit(&ctx, &stranger, &table).err(), Some(EmitError::Type));

    let mut bare = load_vm_common_ty();
    let dynvec = bare.declare_opaque("dynvec");
    bare.bind("dynvec_t", dynvec);
    let mut by_value = VMMod::new("u");
    impl_fn_hdr(&mut by_value, &bare, "f(dynvec)").unwrap();
    assert_eq!(lower_unit(&ctx, &by_value, &bare).err(), Some(EmitError::Type));
    let mut returned = VMMod::new("u");
    impl_fn_hdr(&mut returned, &bare, "f() -> dynvec").unwrap();
    assert_eq!(lower_unit(&ctx, &returned, &bare).err(), Some(EmitError::Type));
    let mut behind = VMMod::new("u");
    impl_fn_hdr(&mut behind, &bare, "f(*dynvec) -> **dynvec").unwrap();
    assert!(lower_unit(&ctx, &behind, &bare).is_ok());
    let mut slot = VMMod::new("u");
    slot.append_main().unwrap();
    slot.regs.push(dynvec.wrap(1));
    slot.code.push(Inst::Alloca { dst: 0, slot: inkwellkit::Slot::One(dynvec) });
    assert_eq!(lower_unit(&ctx, &slot, &bare).err(), Some(EmitError::Type));
}

fn decl(name: &str) -> FunDecl {
    FunDecl {
        name: name.to_string(),
        sig: Signature { params: vec![], ret: TypeDesc::prim(Prim::Void), is_variadic: false },
    }
}

#[test]
fn names_that_the_back_end_would_change_are_refused() {
    let table = load_vm_common_ty();
    let ctx = get_ctx();
    let mut twice = VMMod::new("u");
    twice.decls.push(decl("f"));
    twice.decls.push(decl("g"));
    twice.decls.push(decl("f"));
    assert_eq!(lower_unit(&ctx, &twice, &table).err(), Some(EmitError::Name));
    let mut cut = VMMod::new("u");
    cut.declare_batch(vec![decl("f\0g")]).unwrap();
    assert_eq!(lower_unit(&ctx, &cut, &table).err(), Some(EmitError::Name));
    let mut both = VMMod::new("u");
    impl_fn_hdr(&mut both, &table, "f(void)").unwrap();
    both.decls.push(decl("f"));
    assert_eq!(lower_unit(&ctx, &both, &table).err(), Some(EmitError::Name));
    let mut fine = VMMod::new("u");
    fine.declare_batch(vec![decl("f"), decl("F"), decl("写")]).unwrap();
    let module = lower_unit(&ctx, &fine, &table).unwrap();
    let names: Vec<String> =
        module.get_functions().map(|f| f.get_name().to_string_lossy().to_string()).collect();
    assert_eq!(names, vec!["f", "F", "写"]);
}

#[test]
fn the_module_holds_the_functions_of_the_unit_in_their_order() {
    let table = load_vm_common_ty();
    let ctx = get_ctx();
    let mut unit = VMMod::new("u");
    unit.include_stdio().unwrap();
    unit.append_main().unwrap();
    unit.include_unistd().unwrap();
    let mut builder = VMMod::get_builder_at_end(inkwellkit::Block { func: 1 });
    unit.build_return(&mut builder, Some(unit.usize(0)));
    let module = lower_unit(&ctx, &unit, &table).unwrap();
    let names: Vec<String> =
        module.get_functions().map(|f| f.get_name().to_string_lossy().to_string()).collect();
    assert_eq!(names, vec!["printf", "main", "write", "close", "sleep"]);
    assert_eq!(module.get_function("printf").unwrap().get_linkage(), inkwell::module::Linkage::External);
    let main = module.get_function("main").unwrap();
    assert_eq!(main.get_linkage(), inkwell::module::Linkage::External);
    assert!(module.get_first_global().is_none());
    assert_eq!(main.get_first_basic_block().unwrap().get_name().to_str(), Ok("blk_main"));
}

#[test]
fn what_is_handed_to_the_back_end() {
    let mut unit = VMMod::new("u");
    unit.include_stdio().unwrap();
    assert_eq!(linkage_for(&unit, 0), Some(inkwell::module::Linkage::External));
    unit.append_main().unwrap();
    assert_eq!(linkage_for(&unit, 0), Some(inkwell::module::Linkage::External));
    assert_eq!(linkage_for(&unit, 1), None);
    assert_eq!(linkage_for(&unit, 2), Some(inkwell::module::Linkage::External));
    assert_eq!(predicate_for(Predicate::Sgt), inkwell::IntPredicate::SGT);
    assert_eq!(predicate_for(Predicate::Sge), inkwell::IntPredicate::SGE);
    assert_eq!(bits_of(Prim::Bit), Some(1));
    assert_eq!(bits_of(Prim::I8), Some(8));
    assert_eq!(bits_of(Prim::I32), Some(32));
    assert_eq!(bits_of(Prim::I64), Some(64));
    assert_eq!(bits_of(Prim::I128), Some(128));
    assert_eq!(bits_of(Prim::Word), Some(usize::BITS));
    assert_eq!(bits_of(Prim::Void), None);
    assert_eq!(bits_of(Prim::Double), None);
    assert_eq!(bits_of(Prim::Opaque(0)), None);
    assert_eq!(entry_label(), "blk_main");
}

#[test]
fn what_the_back_end_hands_back() {
    let ctx = get_ctx();
    let seven = ctx.i32_type().const_int(7, false);
    let module = ctx.create_module("m");
    let void_fn = ctx.void_type().fn_type(&[], false);
    let f = module.add_function("f", void_fn, None);
    let int_fn = ctx.i32_type().fn_type(&[], false);
    let g = module.add_function("g", int_fn, None);
    let block = ctx.append_basic_block(f, "b");
    let builder = ctx.create_builder();
    builder.position_at_end(block);
    let slot = builder.build_alloca(ctx.i32_type(), "");
    assert_eq!(int_of(seven.into()), Ok(seven));
    assert_eq!(int_of(slot.into()), Err(EmitError::Operand));
    assert_eq!(ptr_of(slot.into()), Ok(slot));
    assert_eq!(ptr_of(seven.into()), Err(EmitError::Operand));
    assert!(builder.build_call(f, &[], "").try_as_basic_value().is_right());
    assert!(builder.build_call(g, &[], "").try_as_basic_value().is_left());
    assert!(can_load(ctx.i32_type().into()));
    assert!(can_load(slot.get_type().into()));
    assert!(can_load(ctx.f64_type().into()));
    assert!(can_load(ctx.i8_type().array_type(3).into()));
    assert!(!can_load(ctx.opaque_struct_type("s").into()));
    assert!(!can_load(ctx.i8_type().vec_type(4).into()));
    assert!(!can_load(void_fn.into()));
    assert!(!can_load(ctx.void_type().into()));
}

#[test]
fn a_run_stops_at_an_element_address() {
    let table = load_vm_common_ty();
    let ctx = get_ctx();
    let mut unit = VMMod::new("u");
    let blk = unit.append_main().unwrap();
    let mut builder = VMMod::get_builder_at_end(blk);
    let items = vec![unit.usize(1), unit.usize(2)];
    unit.build_local_dyn_usize_array(&mut builder, &items);
    unit.build_return(&mut builder, Some(unit.usize(0)));
    let mut lowering = inkwellkit::Lowering::begin(&ctx, &unit, &table).unwrap();
    assert_eq!(lowering.run(&ctx, &unit.code, 0), Ok(Some(1)));
    assert_eq!(lowering.run(&ctx, &unit.code, 1), Ok(Some(1)));
    assert_eq!(lowering.run(&ctx, &unit.code, 2), Err(EmitError::Undefined));
    let base = lowering.operand(&ctx, Value { ty: TypeDesc { base: Prim::Word, depth: 1 }, kind: ValueKind::Reg(0) }).unwrap();
    assert!(lowering.define(1, base));
    assert_eq!(lowering.run(&ctx, &unit.code, 2), Ok(Some(3)));
    assert!(lowering.define(2, base));
    assert_eq!(lowering.run(&ctx, &unit.code, 4), Ok(None));
    assert_eq!(lowering.run(&ctx, &unit.code, 9), Ok(None));
    assert!(lowering.finish().verify().is_ok());
}

#[test]
fn what_needs_an_unsafe_call_is_not_lowered() {
    let table = load_vm_common_ty();
    let ctx = get_ctx();
    let mut dynamic = VMMod::new("u");
    let blk = dynamic.append_main().unwrap();
    let mut builder = VMMod::get_builder_at_end(blk);
    let items = vec![dynamic.usize(1)];
    dynamic.build_local_dyn_usize_array(&mut builder, &items);
    assert_eq!(lower_unit(&ctx, &dynamic, &table).err(), Some(EmitError::Unsupported));
}

#[test]
fn a_floating_point_constant_is_lowered_from_its_bits() {
    let table = load_vm_common_ty();
    let ctx = get_ctx();
    let mut unit = VMMod::new("u");
    unit.include_stdio().unwrap();
    let blk = unit.append_main().unwrap();
    let mut builder = VMMod::get_builder_at_end(blk);
    let half = unit.double(0.5f64.to_bits());
    let minus_two = unit.double((-2.0f64).to_bits());
    unit.build_call_printf(&mut builder, "%f %f", &[half, minus_two]);
    unit.build_return(&mut builder, Some(unit.usize(0)));
    let module = lower_unit(&ctx, &unit, &table).unwrap();
    assert!(module.verify().is_ok());
    let ir = module.print_to_string().to_string();
    assert!(ir.contains("double 5.000000e-01, double -2.000000e+00)"), "{}", ir);

    let mut mistyped = VMMod::new("u");
    mistyped.append_main().unwrap();
    mistyped.code.push(Inst::Ret {
        val: Some(Value { ty: TypeDesc::prim(Prim::I64), kind: ValueKind::Double(0) }),
    });
    assert_eq!(lower_unit(&ctx, &mistyped, &table).err(), Some(EmitError::Type));
}

#[test]
fn a_register_must_be_defined_before_it_is_used() {
    let table = load_vm_common_ty();
    let ctx = get_ctx();
    let mut unit = VMMod::new("u");
    let blk = unit.append_main().unwrap();
    let mut builder = VMMod::get_builder_at_end(blk);
    let one = unit.i32(1);
    let bit = unit.bsgt(&mut builder, one, one);
    let mut at_start = unit.get_builder_at_start(blk);
    unit.bsgt(&mut at_start, bit, bit);
    assert_eq!(lower_unit(&ctx, &unit, &table).err(), Some(EmitError::Undefined));

    let mut stray = VMMod::new("u");
    stray.append_main().unwrap();
    stray.code.push(Inst::Ret {
        val: Some(Value { ty: TypeDesc::prim(Prim::I32), kind: ValueKind::Reg(0) }),
    });
    assert_eq!(lower_unit(&ctx, &stray, &table).err(), Some(EmitError::Undefined));
}

#[test]
fn an_operand_of_another_class_is_refused() {
    let table = load_vm_common_ty();
    let ctx = get_ctx();
    let mut unit = VMMod::new("u");
    let blk = unit.append_main().unwrap();
    let mut builder = VMMod::get_builder_at_end(blk);
    let var = unit.bcnt_init(&mut builder, unit.i32(5));
    let mistagged = Value { ty: TypeDesc::prim(Prim::I32), kind: var.kind };
    unit.bsgt(&mut builder, mistagged, unit.i32(1));
    assert_eq!(lower_unit(&ctx, &unit, &table).err(), Some(EmitError::Operand));

    let mut store = VMMod::new("u");
    let blk = store.append_main().unwrap();
    let mut builder = VMMod::get_builder_at_end(blk);
    let one = store.i32(1);
    let bit = store.bsgt(&mut builder, one, one);
    store.bcnt_forward(&mut builder, Value { ty: TypeDesc { base: Prim::I32, depth: 1 }, kind: bit.kind }, one);
    assert_eq!(lower_unit(&ctx, &store, &table).err(), Some(EmitError::Operand));
}

#[test]
fn the_two_sides_of_a_comparison_are_of_one_type() {
    let table = load_vm_common_ty();
    let ctx = get_ctx();
    let mut unit = VMMod::new("u");
    let blk = unit.append_main().unwrap();
    let mut builder = VMMod::get_builder_at_end(blk);
    let var = unit.bcnt_init(&mut builder, unit.i32(5));
    unit.bsgt(&mut builder, var, unit.i32(1));
    assert_eq!(lower_unit(&ctx, &unit, &table).err(), Some(EmitError::Type));

    let mut sum = VMMod::new("u");
    let blk = sum.append_main().unwrap();
    let mut builder = VMMod::get_builder_at_end(blk);
    let var = sum.bcnt_init(&mut builder, sum.i32(5));
    sum.bcnt_forward(&mut builder, var, sum.u8(1));
    assert_eq!(lower_unit(&ctx, &sum, &table).err(), Some(EmitError::Type));
}

#[test]
fn a_lowering_can_be_driven_step_by_step() {
    let table = load_vm_common_ty();
    let ctx = get_ctx();
    let mut unit = VMMod::new("steps");
    let blk = unit.append_main().unwrap();
    let mut builder = VMMod::get_builder_at_end(blk);
    let var = unit.bcnt_init(&mut builder, unit.i32(5));
    let count = unit.bload_int(&mut builder, var);
    unit.build_return(&mut builder, Some(unit.usize(0)));

    let mut lowering = inkwellkit::Lowering::begin(&ctx, &unit, &table).unwrap();
    assert!(lowering.cursor().is_some());
    assert_eq!(lowering.operand(&ctx, var).err(), Some(EmitError::Undefined));
    assert_eq!(lowering.step(&ctx, &unit.code[2]).err(), Some(EmitError::Undefined));
    assert_eq!(lowering.step(&ctx, &unit.code[0]), Ok(()));
    assert!(lowering.operand(&ctx, var).unwrap().is_pointer_value());
    assert_eq!(lowering.operand(&ctx, count).err(), Some(EmitError::Undefined));
    assert_eq!(lowering.step(&ctx, &unit.code[1]), Ok(()));
    assert_eq!(lowering.step(&ctx, &unit.code[2]), Ok(()));
    assert!(lowering.operand(&ctx, count).unwrap().is_int_value());
    assert!(lowering.operand(&ctx, unit.i32(7)).unwrap().is_int_value());
    for (v, width, bits) in [
        (unit.u8(200), 8, 200u64),
        (unit.bool(true), 8, 1),
        (unit.i32(-1), 32, 0xffff_ffff),
        (unit.i64(-2), 64, u64::MAX - 1),
        (unit.usize(9), usize::BITS, 9),
    ] {
        let lowered = lowering.operand(&ctx, v).unwrap().into_int_value();
        assert_eq!(lowered.get_type().get_bit_width(), width);
        assert_eq!(lowered.get_zero_extended_constant(), Some(bits));
    }
    assert_eq!(lowering.operand(&ctx, var).unwrap(), lowering.operand(&ctx, var).unwrap());
    let seven = lowering.operand(&ctx, unit.i32(7)).unwrap();
    assert!(!lowering.define(9, seven));
    assert!(lowering.define(1, seven));
    assert_eq!(lowering.step(&ctx, &unit.code[3]), Ok(()));
    let module = lowering.finish();
    assert!(module.verify().is_ok(), "{}", module.print_to_string().to_string());

    let bare = VMMod::new("bare");
    let mut lowering = inkwellkit::Lowering::begin(&ctx, &bare, &table).unwrap();
    assert!(lowering.cursor().is_none());
    assert_eq!(lowering.operand(&ctx, bare.i32(1)).err(), Some(EmitError::Undefined));
    assert_eq!(lowering.step(&ctx, &Inst::Ret { val: None }).err(), Some(EmitError::Undefined));
    assert_eq!(lowering.finish().get_functions().count(), 0);
}

#[test]
fn a_lowering_can_be_tried() {
    let table = load_vm_common_ty();
    let mut unit = VMMod::new("u");
    unit.include_stdio().unwrap();
    assert_eq!(try_lower(&unit, &table), Ok(()));
    let blk = unit.append_main().unwrap();
    let mut builder = VMMod::get_builder_at_end(blk);
    unit.build_call_printf(&mut builder, "hi\n", &[]);
    unit.build_return(&mut builder, Some(unit.usize(0)));
    assert_eq!(try_lower(&unit, &table), Ok(()));
    let items = vec![unit.usize(1)];
    unit.build_local_dyn_usize_array(&mut builder, &items);
    assert_eq!(try_lower(&unit, &table), Err(EmitError::Unsupported));
}

#[test]
fn the_two_sides_of_a_sum_are_of_one_width() {
    let table = load_vm_common_ty();
    let ctx = get_ctx();
    assert!(same_width(ctx.i32_type().const_int(1, false), ctx.i32_type().const_int(9, false)));
    assert!(!same_width(ctx.i32_type().const_int(1, false), ctx.i64_type().const_int(1, false)));

    let mut unit = VMMod::new("u");
    let blk = unit.append_main().unwrap();
    let mut builder = VMMod::get_builder_at_end(blk);
    let one = unit.i32(1);
    let bit = unit.bsgt(&mut builder, one, one);
    let wide = Value { ty: TypeDesc::prim(Prim::I32), kind: bit.kind };
    unit.bsge(&mut builder, wide, one);
    assert_eq!(lower_unit(&ctx, &unit, &table).err(), Some(EmitError::Operand));

    let mut fits = VMMod::new("u");
    let blk = fits.append_main().unwrap();
    let mut builder = VMMod::get_builder_at_end(blk);
    let bit = fits.bsgt(&mut builder, one, one);
    fits.bsge(&mut builder, bit, fits.bool(true));
    assert_eq!(lower_unit(&ctx, &fits, &table).err(), Some(EmitError::Type));
    let narrow = Value { ty: TypeDesc::prim(Prim::Bit), kind: ValueKind::Int(1) };
    let mut same = VMMod::new("u");
    let blk = same.append_main().unwrap();
    let mut builder = VMMod::get_builder_at_end(blk);
    let bit = same.bsgt(&mut builder, one, one);
    same.bsge(&mut builder, bit, narrow);
    same.build_return(&mut builder, Some(same.usize(0)));
    let module = lower_unit(&ctx, &same, &table).unwrap();
    assert!(module.verify().is_ok());
}

#[test]
fn the_result_of_a_call_that_returns_nothing_cannot_be_taken() {
    let table = load_vm_common_ty();
    let ctx = get_ctx();
    let mut unit = VMMod::new("u");
    impl_fn_hdr(&mut unit, &table, "tick(i32); tock(i32) -> i32").unwrap();
    unit.append_main().unwrap();
    unit.regs.push(TypeDesc::prim(Prim::I32));
    let one = unit.i32(1);
    unit.code.push(Inst::Call { dst: None, callee: unit.get_unchecked_fn("tick"), args: vec![one] });
    unit.code.push(Inst::Call { dst: Some(0), callee: unit.get_unchecked_fn("tock"), args: vec![one] });
    unit.code.push(Inst::Call { dst: None, callee: unit.get_unchecked_fn("tock"), args: vec![one] });
    unit.code.push(Inst::Ret { val: Some(unit.usize(0)) });
    let module = lower_unit(&ctx, &unit, &table).unwrap();
    assert!(module.verify().is_ok(), "{}", module.print_to_string().to_string());
    let ir = module.print_to_string().to_string();
    assert!(ir.contains("call void @tick(i32 1)"), "{}", ir);
    assert_eq!(ir.matches("call i32 @tock(i32 1)").count(), 2, "{}", ir);

    let mut lowering = inkwellkit::Lowering::begin(&ctx, &unit, &table).unwrap();
    let call = inkwell::values::InstructionOpcode::Call;
    let lowered_one = lowering.operand(&ctx, one).unwrap();
    assert_eq!(lowering.step(&ctx, &unit.code[0]), Ok(()));
    let tick = lowering.last_emitted().unwrap();
    assert_eq!(tick.get_opcode(), call);
    assert_eq!(tick.get_num_operands(), 2);
    assert_eq!(tick.get_operand(0).unwrap().left(), Some(lowered_one));
    let callee = tick.get_operand(1).unwrap().left().unwrap().into_pointer_value();
    assert_eq!(callee.get_name().to_str(), Ok("tick"));
    assert_eq!(lowering.step(&ctx, &unit.code[1]), Ok(()));
    assert_eq!(lowering.last_emitted(), Some(tick));
    let result = Value { ty: TypeDesc::prim(Prim::I32), kind: ValueKind::Reg(0) };
    let tock = lowering.operand(&ctx, result).unwrap().into_int_value().as_instruction().unwrap();
    assert_eq!(tock.get_opcode(), call);
    assert_eq!(tock.get_operand(0).unwrap().left(), Some(lowered_one));
    let callee = tock.get_operand(1).unwrap().left().unwrap().into_pointer_value();
    assert_eq!(callee.get_name().to_str(), Ok("tock"));

    unit.code.insert(0, Inst::Call { dst: Some(0), callee: unit.get_unchecked_fn("tick"), args: vec![one] });
    assert_eq!(lower_unit(&ctx, &unit, &table).err(), Some(EmitError::Operand));
    unit.code[0] = Inst::Call { dst: Some(4), callee: unit.get_unchecked_fn("tick"), args: vec![one] };
    assert_eq!(lower_unit(&ctx, &unit, &table).err(), Some(EmitError::Undefined));
}

#[test]
fn a_load_reads_through_a_pointer_of_the_lowering() {
    let mut table = load_vm_common_ty();
    let dynvec = table.declare_opaque("dynvec");
    let ctx = get_ctx();
    let mut unit = VMMod::new("u");
    unit.append_main().unwrap();
    let handle = dynvec.wrap(1);
    unit.regs.push(handle.wrap(1));
    unit.regs.push(handle);
    unit.regs.push(dynvec);
    unit.regs.push(TypeDesc::prim(Prim::I32).wrap(1));
    unit.regs.push(TypeDesc::prim(Prim::I32));
    let reg = |id: usize, ty: TypeDesc| Value { ty, kind: ValueKind::Reg(id) };
    let code = vec![
        Inst::Alloca { dst: 0, slot: inkwellkit::Slot::One(handle) },
        Inst::Load { dst: 1, ptr: reg(0, handle.wrap(1)) },
        Inst::Alloca { dst: 3, slot: inkwellkit::Slot::One(TypeDesc::prim(Prim::I32)) },
        Inst::Load { dst: 4, ptr: reg(3, TypeDesc::prim(Prim::I32).wrap(1)) },
        Inst::Load { dst: 2, ptr: reg(1, handle) },
    ];
    let mut lowering = inkwellkit::Lowering::begin(&ctx, &unit, &table).unwrap();
    assert_eq!(lowering.step(&ctx, &code[0]), Ok(()));
    let slot = lowering.operand(&ctx, reg(0, handle.wrap(1))).unwrap().into_pointer_value();
    assert_eq!(
        slot.as_instruction().unwrap().get_opcode(),
        inkwell::values::InstructionOpcode::Alloca
    );
    assert_eq!(lowering.step(&ctx, &code[1]), Ok(()));
    let read = lowering.operand(&ctx, reg(1, handle)).unwrap().into_pointer_value();
    let load = read.as_instruction().unwrap();
    assert_eq!(load.get_opcode(), inkwell::values::InstructionOpcode::Load);
    assert_eq!(load.get_operand(0).unwrap().left(), Some(slot.into()));
    assert_eq!(lowering.step(&ctx, &code[2]), Ok(()));
    assert_eq!(lowering.step(&ctx, &code[3]), Ok(()));
    assert!(lowering.operand(&ctx, reg(4, TypeDesc::prim(Prim::I32))).unwrap().is_int_value());
    // A structure without a body cannot be loaded.
    assert_eq!(lowering.step(&ctx, &code[4]), Err(EmitError::Operand));
    assert_eq!(lowering.operand(&ctx, reg(2, dynvec)).err(), Some(EmitError::Undefined));
    // Nor is anything loaded through a pointer that was put from outside.
    let slot = lowering.operand(&ctx, reg(3, TypeDesc::prim(Prim::I32).wrap(1))).unwrap();
    assert!(lowering.define(3, slot));
    assert_eq!(lowering.step(&ctx, &code[3]), Err(EmitError::Operand));
    assert_eq!(lowering.step(&ctx, &code[2]), Ok(()));
    assert_eq!(lowering.step(&ctx, &code[3]), Ok(()));
    let module = lowering.finish();
    let ir = module.print_to_string().to_string();
    assert_eq!(ir.matches("load i32, i32* %").count(), 2, "{}", ir);
    assert_eq!(ir.matches("load %dynvec*, %dynvec** %").count(), 1, "{}", ir);
}

#[test]
fn a_store_and_a_return_are_the_last_instruction() {
    let table = load_vm_common_ty();
    let ctx = get_ctx();
    let mut unit = VMMod::new("u");
    unit.append_main().unwrap();
    let slot_ty = TypeDesc::prim(Prim::I32).wrap(1);
    unit.regs.push(slot_ty);
    let slot = Value { ty: slot_ty, kind: ValueKind::Reg(0) };
    let seven = unit.i32(7);
    let mut lowering = inkwellkit::Lowering::begin(&ctx, &unit, &table).unwrap();
    assert!(lowering.last_emitted().is_none());
    let alloca = Inst::Alloca { dst: 0, slot: inkwellkit::Slot::One(TypeDesc::prim(Prim::I32)) };
    assert_eq!(lowering.step(&ctx, &alloca), Ok(()));
    assert!(lowering.last_emitted().is_none());
    assert_eq!(lowering.step(&ctx, &Inst::Store { ptr: slot, val: seven }), Ok(()));
    let store = lowering.last_emitted().unwrap();
    assert_eq!(store.get_opcode(), inkwell::values::InstructionOpcode::Store);
    assert_eq!(store.get_operand(0).unwrap().left(), Some(lowering.operand(&ctx, seven).unwrap()));
    assert_eq!(store.get_operand(1).unwrap().left(), Some(lowering.operand(&ctx, slot).unwrap()));
    assert_eq!(lowering.step(&ctx, &Inst::StoreText { ptr: slot, text: "ab".to_string() }), Ok(()));
    let text = lowering.last_emitted().unwrap();
    assert_ne!(text, store);
    assert_eq!(text.get_operand(0).unwrap().left(), Some(ctx.const_string(b"ab", true).into()));
    assert_eq!(lowering.step(&ctx, &alloca), Ok(()));
    assert_eq!(lowering.last_emitted(), Some(text));
    assert_eq!(lowering.step(&ctx, &Inst::Ret { val: Some(unit.usize(0)) }), Ok(()));
    let ret = lowering.last_emitted().unwrap();
    assert_eq!(ret.get_opcode(), inkwell::values::InstructionOpcode::Return);
    assert_eq!(ret.get_operand(0).unwrap().left(), Some(lowering.operand(&ctx, unit.usize(0)).unwrap()));
    assert_eq!(ret.get_operand(1), None);
}

#[test]
fn the_program_that_opens_and_writes_is_lowered() {
    let table = load_vm_common_ty();
    let ctx = get_ctx();
    for (path, content) in [("hello.txt", "_____写入了"), ("", ""), ("a/b", "x\ny")] {
        let mut unit = VMMod::new("posix");
        unit.include_fcntl().unwrap();
        unit.include_unistd().unwrap();
        let blk = unit.append_main().unwrap();
        let open = unit.get_unchecked_fn("open");
        let write = unit.get_unchecked_fn("write");
        let (flags, mode) = (unit.i32(0o2101), unit.i32(0o666));
        inkwellkit::build_open_and_write(&mut unit, blk, open, flags, mode, write, path, content);
        assert!(unit.is_wf());
        assert_eq!(unit.regs.len(), 6);
        assert_eq!(unit.code.len(), 9);
        assert_eq!(unit.code[8], Inst::Ret { val: Some(unit.usize(0)) });
        let module = lower_unit(&ctx, &unit, &table).unwrap();
        assert!(module.verify().is_ok(), "{}", module.print_to_string().to_string());
        let with_body: Vec<String> = module
            .get_functions()
            .filter(|f| f.count_basic_blocks() > 0)
            .map(|f| f.get_name().to_string_lossy().to_string())
            .collect();
        assert_eq!(with_body, vec!["main"]);
        let ir = module.print_to_string().to_string();
        assert!(ir.contains(&format!("alloca [{} x i8]", path.len() + 1)), "{}", ir);
        assert!(ir.contains(&format!("alloca [{} x i8]", content.len() + 1)), "{}", ir);
        assert!(ir.contains(&format!("i{} {})", usize::BITS, content.len())), "{}", ir);
        assert!(ir.contains(&format!("ret i{} 0", usize::BITS)), "{}", ir);
    }
}

#[test]
fn the_program_is_built_and_lowered_in_one() {
    let table = load_vm_common_ty();
    let ctx = get_ctx();
    let fresh = || {
        let mut unit = VMMod::new("posix");
        unit.include_fcntl().unwrap();
        unit.include_unistd().unwrap();
        unit
    };
    let (mut unit, mut other) = (fresh(), fresh());
    let blk = unit.append_main().unwrap();
    assert_eq!(other.append_main(), Ok(blk));
    let open = unit.get_unchecked_fn("open");
    let write = unit.get_unchecked_fn("write");
    let (flags, mode) = (unit.i32(0o2101), unit.i32(0o666));
    let module = inkwellkit::lower_open_and_write(
        &ctx, &mut unit, &table, blk, open, flags, mode, write, "hello.txt", "hi",
    )
    .unwrap();
    assert!(module.verify().is_ok(), "{}", module.print_to_string().to_string());
    assert_eq!(module.get_functions().count(), unit.decls.len());
    assert_eq!(unit.code.len(), 9);
    let ir = module.print_to_string().to_string();
    assert!(ir.contains("c\"hello.txt\\00\""), "{}", ir);
    assert!(ir.contains("@open(i8* %"), "{}", ir);

    // A constant that is tagged with another type than an integer's is a fault.
    let tagged = Value { ty: TypeDesc::prim(Prim::I32).wrap(1), kind: ValueKind::Int(1) };
    let refused = inkwellkit::lower_open_and_write(
        &ctx, &mut other, &table, blk, open, tagged, mode, write, "hello.txt", "hi",
    );
    assert_eq!(refused.err(), Some(EmitError::Type));
    assert_eq!(other.code.len(), 9);
}

use inkwellkit::{load_vm_common_ty, str_eq, DeclError, Prim, TypeDesc, TypeTable};

fn ty(base: Prim, depth: usize) -> TypeDesc {
    TypeDesc { base, depth }
}

#[test]
fn wrapping_adds_pointer_levels() {
    let i8_t = TypeDesc::prim(Prim::I8);
    assert_eq!(i8_t, ty(Prim::I8, 0));
    assert_eq!(i8_t.wrap(0), i8_t);
    for n in 0..9usize {
        assert_eq!(i8_t.wrap(n), ty(Prim::I8, n));
        assert_eq!(i8_t.wrap(n).wrap(3), i8_t.wrap(n + 3));
    }
    assert_eq!(i8_t.wrap(2).pointee(), Some(i8_t.wrap(1)));
    assert_eq!(i8_t.pointee(), None);
}

#[test]
fn wrapping_beyond_the_machine_word_is_refused() {
    let deep = ty(Prim::I8, usize::MAX - 1);
    assert_eq!(deep.checked_wrap(1), Some(ty(Prim::I8, usize::MAX)));
    assert_eq!(deep.checked_wrap(2), None);
    assert_eq!(deep.checked_wrap(usize::MAX), None);
}

#[test]
fn integer_types() {
    for base in [Prim::Bit, Prim::I8, Prim::I32, Prim::I64, Prim::I128, Prim::Word] {
        assert!(ty(base, 0).is_int());
        assert!(!ty(base, 1).is_int());
    }
    assert!(!ty(Prim::Void, 0).is_int());
    assert!(!ty(Prim::Double, 0).is_int());
    assert!(!ty(Prim::Opaque(0), 0).is_int());
}

#[test]
fn the_fixed_vocabulary() {
    let table = TypeTable::new();
    let cases = [
        ("i8", Prim::I8),
        ("u8", Prim::I8),
        ("usize", Prim::Word),
        ("isize", Prim::Word),
        ("i32", Prim::I32),
        ("u32", Prim::I32),
        ("i64", Prim::I64),
        ("u64", Prim::I64),
        ("i128", Prim::I128),
        ("void", Prim::Void),
        ("f64", Prim::Double),
    ];
    for (name, base) in cases {
        assert_eq!(table.resolve(name, 0), Ok(ty(base, 0)), "{}", name);
        assert_eq!(table.resolve(name, 2), Ok(ty(base, 2)), "{}", name);
    }
    assert_eq!(table.resolve("u128", 0), Err(DeclError::UnknownType));
    assert_eq!(table.resolve("f32", 0), Err(DeclError::UnknownType));
    assert_eq!(table.resolve("I8", 0), Err(DeclError::UnknownType));
    assert_eq!(table.resolve("", 0), Err(DeclError::UnknownType));
}

#[test]
fn the_common_table() {
    let table = load_vm_common_ty();
    let names: Vec<&str> = table.bindings.iter().map(|b| b.name.as_str()).collect();
    assert_eq!(
        names,
        vec![
            "i8_t", "i32_t", "i64_t", "i128_t", "size_t", "sizeptr_t", "void_t", "i8ptr_t",
            "i32ptr_t", "i64ptr_t", "i128ptr_t", "i8ptr2_t", "f64_t",
        ]
    );
    assert_eq!(table.lookup("size_t"), Some(ty(Prim::Word, 0)));
    assert_eq!(table.lookup("sizeptr_t"), Some(ty(Prim::Word, 1)));
    assert_eq!(table.lookup("i8ptr2_t"), Some(ty(Prim::I8, 2)));
    assert_eq!(table.lookup("i128ptr_t"), Some(ty(Prim::I128, 1)));
    assert_eq!(table.lookup("f64_t"), Some(ty(Prim::Double, 0)));
    assert_eq!(table.lookup("f64"), None);
    assert!(table.opaque.is_empty());
}

#[test]
fn unknown_names_fall_back_to_the_bindings() {
    let table = load_vm_common_ty();
    assert_eq!(table.resolve("sizeptr", 0), Ok(ty(Prim::Word, 1)));
    assert_eq!(table.resolve("i8ptr", 1), Ok(ty(Prim::I8, 2)));
    assert_eq!(table.resolve("size", 0), Ok(ty(Prim::Word, 0)));
    assert_eq!(table.resolve("vec", 0), Err(DeclError::UnknownType));
    assert_eq!(table.resolve("i8_t", 0), Err(DeclError::UnknownType));
}

#[test]
fn a_declared_structure_resolves_once_it_is_bound() {
    let mut table = load_vm_common_ty();
    let dynvec = table.declare_opaque("dynvec");
    assert_eq!(dynvec, ty(Prim::Opaque(0), 0));
    assert_eq!(table.resolve("vec", 0), Err(DeclError::UnknownType));
    table.bind("vec_t", dynvec.wrap(1));
    assert_eq!(table.resolve("vec", 0), Ok(ty(Prim::Opaque(0), 1)));
    assert_eq!(table.resolve("vec", 1), Ok(ty(Prim::Opaque(0), 2)));
    let other = table.declare_opaque("other");
    assert_eq!(other, ty(Prim::Opaque(1), 0));
    assert_eq!(table.opaque, vec!["dynvec".to_string(), "other".to_string()]);
}

#[test]
fn a_later_binding_hides_an_earlier_one() {
    let mut table = TypeTable::new();
    table.bind("x_t", ty(Prim::I8, 0));
    table.bind("y_t", ty(Prim::I64, 0));
    table.bind("x_t", ty(Prim::I32, 3));
    assert_eq!(table.lookup("x_t"), Some(ty(Prim::I32, 3)));
    assert_eq!(table.resolve("x", 1), Ok(ty(Prim::I32, 4)));
    assert_eq!(table.resolve("y", 0), Ok(ty(Prim::I64, 0)));
}

#[test]
fn too_many_pointers_are_an_error_of_their_own() {
    let mut table = TypeTable::new();
    table.bind("deep_t", ty(Prim::I8, usize::MAX));
    assert_eq!(table.resolve("deep", 0), Ok(ty(Prim::I8, usize::MAX)));
    assert_eq!(table.resolve("deep", 1), Err(DeclError::PointerDepth));
}

#[test]
fn strings_are_compared_by_their_characters() {
    assert!(str_eq("", ""));
    assert!(str_eq("main", "main"));
    assert!(str_eq("写入", "写入"));
    assert!(!str_eq("main", "mai"));
    assert!(!str_eq("main", "maim"));
    assert!(!str_eq("", "a"));
    assert!(!str_eq("写入", "写人"));
}

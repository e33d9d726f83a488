use inkwellkit::{
    impl_fn_hdr, load_vm_common_ty, parse_signatures, posix_catalogue, resolve_batch, Block,
    DeclError, FunDecl, Function, PosixGroup, Prim, Signature, TypeDesc, VMMod,
};

fn ty(base: Prim, depth: usize) -> TypeDesc {
    TypeDesc { base, depth }
}

fn decl(name: &str, params: Vec<TypeDesc>, is_variadic: bool, ret: TypeDesc) -> FunDecl {
    FunDecl { name: name.to_string(), sig: Signature { params, ret, is_variadic } }
}

#[test]
fn a_new_unit_is_empty() {
    let unit = VMMod::new("posix");
    assert_eq!(unit.name, "posix");
    assert!(unit.decls.is_empty());
    assert_eq!(unit.entry, None);
    assert!(unit.code.is_empty());
    assert!(unit.regs.is_empty());
    assert_eq!(unit.lookup_function("main"), None);
}

#[test]
fn the_catalogues() {
    assert_eq!(
        posix_catalogue(PosixGroup::Fcntl),
        vec![decl("open", vec![ty(Prim::I8, 1), ty(Prim::I32, 0)], true, ty(Prim::I32, 0))]
    );
    assert_eq!(
        posix_catalogue(PosixGroup::Stdio),
        vec![decl("printf", vec![ty(Prim::I8, 1)], true, ty(Prim::I32, 0))]
    );
    assert_eq!(
        posix_catalogue(PosixGroup::String),
        vec![decl("strlen", vec![ty(Prim::I8, 1)], false, ty(Prim::Word, 0))]
    );
    assert_eq!(
        posix_catalogue(PosixGroup::Unistd),
        vec![
            decl(
                "write",
                vec![ty(Prim::I32, 0), ty(Prim::I8, 1), ty(Prim::Word, 0)],
                false,
                ty(Prim::I128, 0)
            ),
            decl("close", vec![ty(Prim::I32, 0)], false, ty(Prim::I32, 0)),
            decl("sleep", vec![ty(Prim::I32, 0)], false, ty(Prim::I32, 0)),
        ]
    );
}

#[test]
fn the_catalogues_are_what_their_texts_spell() {
    let table = load_vm_common_ty();
    let texts = [
        (PosixGroup::Fcntl, "open(*i8, i32, ...) -> i32;"),
        (PosixGroup::Stdio, "printf(*i8, ...) -> i32;"),
        (PosixGroup::String, "strlen(*i8) -> usize;"),
        (
            PosixGroup::Unistd,
            "write(i32, *i8, usize) -> i128;\n close(i32) -> i32;\n sleep(u32) -> u32;",
        ),
    ];
    for (kind, text) in texts {
        let hdrs = parse_signatures(text).unwrap();
        assert_eq!(resolve_batch(&hdrs, &table), Ok(posix_catalogue(kind)));
        let mut by_text = VMMod::new("a");
        assert_eq!(impl_fn_hdr(&mut by_text, &table, text), Ok(()));
        let mut by_group = VMMod::new("a");
        assert_eq!(by_group.declare_group(kind), Ok(()));
        assert_eq!(by_text.decls, by_group.decls);
    }
}

#[test]
fn the_includes_declare_their_catalogues() {
    let mut unit = VMMod::new("posix");
    assert_eq!(unit.include_stdio(), Ok(()));
    assert_eq!(unit.include_unistd(), Ok(()));
    assert_eq!(unit.include_fcntl(), Ok(()));
    assert_eq!(unit.include_string(), Ok(()));
    let names: Vec<&str> = unit.decls.iter().map(|d| d.name.as_str()).collect();
    assert_eq!(names, vec!["printf", "write", "close", "sleep", "open", "strlen"]);
    assert_eq!(unit.lookup_function("printf"), Some(Function { index: 0 }));
    assert_eq!(unit.lookup_function("sleep"), Some(Function { index: 3 }));
    assert_eq!(unit.get_unchecked_fn("strlen"), Function { index: 5 });
    assert_eq!(unit.lookup_function("read"), None);
    assert_eq!(unit.lookup_function(""), None);
}

#[test]
fn one_catalogue_on_two_units_gives_the_same_declarations() {
    for kind in [PosixGroup::Fcntl, PosixGroup::Stdio, PosixGroup::String, PosixGroup::Unistd] {
        let mut first = VMMod::new("first");
        let mut second = VMMod::new("second");
        second.declare_batch(vec![decl("other", vec![], false, ty(Prim::Void, 0))]).unwrap();
        assert_eq!(first.declare_group(kind), Ok(()));
        assert_eq!(second.declare_group(kind), Ok(()));
        assert_eq!(first.decls, posix_catalogue(kind));
        assert_eq!(second.decls[1..], posix_catalogue(kind)[..]);
    }
}

#[test]
fn one_catalogue_twice_on_one_unit_is_a_conflict() {
    for kind in [PosixGroup::Fcntl, PosixGroup::Stdio, PosixGroup::String, PosixGroup::Unistd] {
        let mut unit = VMMod::new("unit");
        assert_eq!(unit.declare_group(kind), Ok(()));
        let before = unit.decls.clone();
        assert_eq!(unit.declare_group(kind), Err(DeclError::Conflict));
        assert_eq!(unit.decls, before);
    }
}

#[test]
fn a_batch_is_declared_whole_or_not_at_all() {
    let mut unit = VMMod::new("unit");
    unit.include_unistd().unwrap();
    let before = unit.decls.clone();
    let batch = vec![
        decl("fresh", vec![], false, ty(Prim::Void, 0)),
        decl("close", vec![ty(Prim::I32, 0)], false, ty(Prim::I32, 0)),
    ];
    assert_eq!(unit.declare_batch(batch), Err(DeclError::Conflict));
    assert_eq!(unit.decls, before);
    let twice = vec![
        decl("twin", vec![], false, ty(Prim::Void, 0)),
        decl("twin", vec![], false, ty(Prim::Void, 0)),
    ];
    assert_eq!(unit.declare_batch(twice), Err(DeclError::Conflict));
    assert_eq!(unit.decls, before);
    assert_eq!(unit.declare_batch(vec![]), Ok(()));
    assert_eq!(unit.decls, before);
}

#[test]
fn declaring_a_text_fails_as_a_whole() {
    let table = load_vm_common_ty();
    let mut unit = VMMod::new("unit");
    unit.include_stdio().unwrap();
    let before = unit.decls.clone();
    assert_eq!(impl_fn_hdr(&mut unit, &table, "f(i32); g(i32"), Err(DeclError::Grammar));
    assert_eq!(unit.decls, before);
    assert_eq!(impl_fn_hdr(&mut unit, &table, "f(i32); g(vec)"), Err(DeclError::UnknownType));
    assert_eq!(unit.decls, before);
    assert_eq!(impl_fn_hdr(&mut unit, &table, "f(i32) -> vec"), Err(DeclError::UnknownType));
    assert_eq!(unit.decls, before);
    assert_eq!(impl_fn_hdr(&mut unit, &table, "f(i32); printf(*i8)"), Err(DeclError::Conflict));
    assert_eq!(unit.decls, before);
    assert_eq!(impl_fn_hdr(&mut unit, &table, "f(i32); f(i64)"), Err(DeclError::Conflict));
    assert_eq!(unit.decls, before);
    assert_eq!(impl_fn_hdr(&mut unit, &table, "printf(vec); g("), Err(DeclError::Grammar));
    assert_eq!(impl_fn_hdr(&mut unit, &table, "printf(vec)"), Err(DeclError::UnknownType));
    assert_eq!(unit.decls, before);
}

#[test]
fn declaring_a_text_resolves_bound_names() {
    let mut table = load_vm_common_ty();
    let dynvec = table.declare_opaque("dynvec");
    table.bind("vec_t", dynvec.wrap(1));
    let mut unit = VMMod::new("unit");
    let text = "vec_new_i32(i32) -> vec;\n vec_push_i32(vec, i32) -> i32;\n vec_get_i32(vec, i32) -> i32;";
    assert_eq!(impl_fn_hdr(&mut unit, &table, text), Ok(()));
    let vec_t = ty(Prim::Opaque(0), 1);
    assert_eq!(
        unit.decls,
        vec![
            decl("vec_new_i32", vec![ty(Prim::I32, 0)], false, vec_t),
            decl("vec_push_i32", vec![vec_t, ty(Prim::I32, 0)], false, ty(Prim::I32, 0)),
            decl("vec_get_i32", vec![vec_t, ty(Prim::I32, 0)], false, ty(Prim::I32, 0)),
        ]
    );
    assert_eq!(impl_fn_hdr(&mut unit, &table, ""), Ok(()));
    assert_eq!(unit.decls.len(), 3);
}

#[test]
fn a_signature_without_return_clause_is_declared_void() {
    let table = load_vm_common_ty();
    let mut unit = VMMod::new("unit");
    assert_eq!(impl_fn_hdr(&mut unit, &table, "exit(i32); tick(...)"), Ok(()));
    assert_eq!(
        unit.decls,
        vec![
            decl("exit", vec![ty(Prim::I32, 0)], false, ty(Prim::Void, 0)),
            decl("tick", vec![], true, ty(Prim::Void, 0)),
        ]
    );
}

#[test]
fn main_is_appended_once() {
    let mut unit = VMMod::new("unit");
    unit.include_stdio().unwrap();
    assert_eq!(unit.append_main(), Ok(Block { func: 1 }));
    assert_eq!(unit.entry, Some(1));
    assert_eq!(unit.decls[1], decl("main", vec![], false, ty(Prim::Word, 0)));
    assert_eq!(unit.lookup_function("main"), Some(Function { index: 1 }));
    let before = unit.decls.clone();
    assert_eq!(unit.append_main(), Err(DeclError::Conflict));
    assert_eq!(unit.decls, before);
    assert_eq!(unit.entry, Some(1));
}

#[test]
fn a_declared_main_is_in_the_way_of_the_entry() {
    let table = load_vm_common_ty();
    let mut unit = VMMod::new("unit");
    assert_eq!(impl_fn_hdr(&mut unit, &table, "main() -> i32"), Ok(()));
    assert_eq!(unit.append_main(), Err(DeclError::Conflict));
    assert_eq!(unit.entry, None);
    let mut other = VMMod::new("other");
    other.append_main().unwrap();
    assert_eq!(impl_fn_hdr(&mut other, &table, "main() -> i32"), Err(DeclError::Conflict));
}

#[test]
fn consistency_can_be_tested() {
    let mut unit = VMMod::new("unit");
    assert!(unit.is_wf());
    unit.include_unistd().unwrap();
    unit.append_main().unwrap();
    assert!(unit.is_wf());
    let twin = unit.decls[1].clone();
    unit.decls.push(twin);
    assert!(!unit.is_wf());
    unit.decls.pop();
    assert!(unit.is_wf());
    unit.entry = Some(0);
    assert!(!unit.is_wf());
    unit.entry = Some(7);
    assert!(!unit.is_wf());
    unit.entry = None;
    assert!(unit.is_wf());
    unit.code.push(inkwellkit::Inst::Ret { val: None });
    assert!(!unit.is_wf());
}

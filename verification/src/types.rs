//! The table of primitive types.
//!
//! A type descriptor is a primitive wrapped in any number of pointers. It is
//! held flat, as the primitive and the number of pointers around it; its view
//! is the nested form.

use vstd::prelude::*;
use vstd::string::*;
use crate::error::DeclError;
use crate::text::str_eq;

verus! {

/// A primitive of the type vocabulary.
#[derive(Clone, Copy, Debug, PartialEq, Eq, Structural)]
pub enum Prim {
    /// The one-bit integer that a comparison yields.
    Bit,
    /// The narrow, eight-bit integer.
    I8,
    /// The 32-bit integer.
    I32,
    /// The 64-bit integer.
    I64,
    /// The 128-bit integer.
    I128,
    /// The integer as wide as a pointer of the target.
    Word,
    /// No value.
    Void,
    /// The double-precision floating-point number.
    Double,
    /// A structure declared by name only; the number is its place among the
    /// table's opaque structures.
    Opaque(usize),
}

/// A type descriptor in nested form: a primitive, or a pointer to a type.
pub enum TypeSpec {
    Prim(Prim),
    Ptr(Box<TypeSpec>),
}

/// `t` wrapped in `n` pointers.
pub open spec fn ptr_n(t: TypeSpec, n: nat) -> TypeSpec
    decreases n,
{
    if n == 0 {
        t
    } else {
        TypeSpec::Ptr(Box::new(ptr_n(t, (n - 1) as nat)))
    }
}

/// The number of pointers around the primitive of `t`.
pub open spec fn depth_of(t: TypeSpec) -> nat
    decreases t,
{
    match t {
        TypeSpec::Prim(_) => 0,
        TypeSpec::Ptr(inner) => 1 + depth_of(*inner),
    }
}

/// The primitive at the heart of `t`.
pub open spec fn base_of(t: TypeSpec) -> Prim
    decreases t,
{
    match t {
        TypeSpec::Prim(p) => p,
        TypeSpec::Ptr(inner) => base_of(*inner),
    }
}

/// A type descriptor: `base` behind `depth` pointers.
#[derive(Clone, Copy, Debug, PartialEq, Eq, Structural)]
pub struct TypeDesc {
    pub base: Prim,
    pub depth: usize,
}

impl View for TypeDesc {
    type V = TypeSpec;

    open spec fn view(&self) -> TypeSpec {
        ptr_n(TypeSpec::Prim(self.base), self.depth as nat)
    }
}

/// Wrapping in no pointer changes nothing, and wrapping in `a` pointers and
/// then in `b` is wrapping in `a + b`.
pub proof fn lemma_ptr_n_add(t: TypeSpec, a: nat, b: nat)
    ensures
        ptr_n(t, 0) == t,
        ptr_n(ptr_n(t, a), b) == ptr_n(t, a + b),
    decreases b,
{
    if b > 0 {
        lemma_ptr_n_add(t, a, (b - 1) as nat);
    }
}

/// Wrapping adds to the depth and keeps the primitive.
pub proof fn lemma_ptr_n_shape(t: TypeSpec, n: nat)
    ensures
        depth_of(ptr_n(t, n)) == depth_of(t) + n,
        base_of(ptr_n(t, n)) == base_of(t),
    decreases n,
{
    if n > 0 {
        lemma_ptr_n_shape(t, (n - 1) as nat);
    }
}

/// The flat form is canonical: two descriptors with the same nested form are
/// the same descriptor.
pub proof fn lemma_view_injective(a: TypeDesc, b: TypeDesc)
    requires
        a@ == b@,
    ensures
        a == b,
{
    lemma_ptr_n_shape(TypeSpec::Prim(a.base), a.depth as nat);
    lemma_ptr_n_shape(TypeSpec::Prim(b.base), b.depth as nat);
}

impl TypeDesc {
    /// The bare primitive.
    pub fn prim(base: Prim) -> (t: TypeDesc)
        ensures
            t == (TypeDesc { base, depth: 0 }),
            t@ == TypeSpec::Prim(base),
    {
        TypeDesc { base, depth: 0 }
    }

    /// This type behind `levels` more pointers.
    pub fn wrap(self, levels: usize) -> (t: TypeDesc)
        requires
            self.depth + levels <= usize::MAX,
        ensures
            t == (TypeDesc { base: self.base, depth: (self.depth + levels) as usize }),
            t@ == ptr_n(self@, levels as nat),
    {
        proof {
            lemma_ptr_n_add(TypeSpec::Prim(self.base), self.depth as nat, levels as nat);
        }
        TypeDesc { base: self.base, depth: self.depth + levels }
    }

    /// This type behind `levels` more pointers, or `None` where the depth
    /// would not fit the machine word.
    pub fn checked_wrap(self, levels: usize) -> (t: Option<TypeDesc>)
        ensures
            self.depth + levels <= usize::MAX ==> t == Some(
                TypeDesc { base: self.base, depth: (self.depth + levels) as usize },
            ) && t.unwrap()@ == ptr_n(self@, levels as nat),
            self.depth + levels > usize::MAX ==> t is None,
    {
        if levels <= usize::MAX - self.depth {
            Some(self.wrap(levels))
        } else {
            None
        }
    }

    /// The type that a pointer of this type points to; `None` for a type
    /// that is no pointer.
    pub fn pointee(self) -> (t: Option<TypeDesc>)
        ensures
            self.depth == 0 ==> t is None,
            self.depth > 0 ==> t == Some(TypeDesc { base: self.base, depth: (self.depth - 1) as usize })
                && self@ == TypeSpec::Ptr(Box::new(t.unwrap()@)),
    {
        if self.depth == 0 {
            None
        } else {
            Some(TypeDesc { base: self.base, depth: self.depth - 1 })
        }
    }

    /// Whether this is an integer type: one of the integer primitives,
    /// behind no pointer.
    pub open spec fn spec_is_int(self) -> bool {
        self.depth == 0 && (self.base == Prim::Bit || self.base == Prim::I8 || self.base
            == Prim::I32 || self.base == Prim::I64 || self.base == Prim::I128 || self.base
            == Prim::Word)
    }

    #[verifier::when_used_as_spec(spec_is_int)]
    pub fn is_int(self) -> (yes: bool)
        ensures
            yes == self.spec_is_int(),
    {
        self.depth == 0 && match self.base {
            Prim::Bit | Prim::I8 | Prim::I32 | Prim::I64 | Prim::I128 | Prim::Word => true,
            _ => false,
        }
    }
}

/// A name bound to a type, as a `let` binds one.
#[derive(Debug)]
pub struct Binding {
    pub name: String,
    pub ty: TypeDesc,
}

/// What a binding says: the characters of the name, and the type.
pub struct BindingSpec {
    pub name: Seq<char>,
    pub ty: TypeDesc,
}

impl View for Binding {
    type V = BindingSpec;

    open spec fn view(&self) -> BindingSpec {
        BindingSpec { name: self.name@, ty: self.ty }
    }
}

/// The type that `name` is bound to: that of the latest binding of the
/// name, if there is one.
pub open spec fn lookup_binding(bound: Seq<BindingSpec>, name: Seq<char>) -> Option<TypeDesc>
    decreases bound.len(),
{
    if bound.len() == 0 {
        None
    } else if bound.last().name == name {
        Some(bound.last().ty)
    } else {
        lookup_binding(bound.drop_last(), name)
    }
}

/// The primitive that a name of the fixed vocabulary stands for. Signed and
/// unsigned names of one width share a primitive.
pub open spec fn primitive_named(name: Seq<char>) -> Option<Prim> {
    if name == "i8"@ || name == "u8"@ {
        Some(Prim::I8)
    } else if name == "usize"@ || name == "isize"@ {
        Some(Prim::Word)
    } else if name == "i32"@ || name == "u32"@ {
        Some(Prim::I32)
    } else if name == "i64"@ || name == "u64"@ {
        Some(Prim::I64)
    } else if name == "i128"@ {
        Some(Prim::I128)
    } else if name == "void"@ {
        Some(Prim::Void)
    } else if name == "f64"@ {
        Some(Prim::Double)
    } else {
        None
    }
}

/// The type that a type name stands for: its primitive if the name belongs
/// to the fixed vocabulary, else what the name followed by `_t` is bound to.
pub open spec fn resolve_name(bound: Seq<BindingSpec>, name: Seq<char>) -> Option<TypeDesc> {
    match primitive_named(name) {
        Some(p) => Some(TypeDesc { base: p, depth: 0 }),
        None => lookup_binding(bound, name + "_t"@),
    }
}

/// The type that `levels` pointer markers before the type name `name` stand
/// for.
pub open spec fn resolve_type(bound: Seq<BindingSpec>, name: Seq<char>, levels: usize) -> Result<
    TypeDesc,
    DeclError,
> {
    match resolve_name(bound, name) {
        None => Err(DeclError::UnknownType),
        Some(t) => if t.depth + levels <= usize::MAX {
            Ok(TypeDesc { base: t.base, depth: (t.depth + levels) as usize })
        } else {
            Err(DeclError::PointerDepth)
        },
    }
}

/// The bindings that every table starts with, in the order in which they
/// are made.
pub open spec fn common_bindings() -> Seq<BindingSpec> {
    seq![
        BindingSpec { name: "i8_t"@, ty: TypeDesc { base: Prim::I8, depth: 0 } },
        BindingSpec { name: "i32_t"@, ty: TypeDesc { base: Prim::I32, depth: 0 } },
        BindingSpec { name: "i64_t"@, ty: TypeDesc { base: Prim::I64, depth: 0 } },
        BindingSpec { name: "i128_t"@, ty: TypeDesc { base: Prim::I128, depth: 0 } },
        BindingSpec { name: "size_t"@, ty: TypeDesc { base: Prim::Word, depth: 0 } },
        BindingSpec { name: "sizeptr_t"@, ty: TypeDesc { base: Prim::Word, depth: 1 } },
        BindingSpec { name: "void_t"@, ty: TypeDesc { base: Prim::Void, depth: 0 } },
        BindingSpec { name: "i8ptr_t"@, ty: TypeDesc { base: Prim::I8, depth: 1 } },
        BindingSpec { name: "i32ptr_t"@, ty: TypeDesc { base: Prim::I32, depth: 1 } },
        BindingSpec { name: "i64ptr_t"@, ty: TypeDesc { base: Prim::I64, depth: 1 } },
        BindingSpec { name: "i128ptr_t"@, ty: TypeDesc { base: Prim::I128, depth: 1 } },
        BindingSpec { name: "i8ptr2_t"@, ty: TypeDesc { base: Prim::I8, depth: 2 } },
        BindingSpec { name: "f64_t"@, ty: TypeDesc { base: Prim::Double, depth: 0 } },
    ]
}

/// The types that names can stand for: the opaque structures declared so
/// far, and the bindings made so far.
#[derive(Debug)]
pub struct TypeTable {
    pub opaque: Vec<String>,
    pub bindings: Vec<Binding>,
}

impl TypeTable {
    /// The bindings, oldest first.
    pub open spec fn bound(&self) -> Seq<BindingSpec> {
        Seq::new(self.bindings@.len(), |i: int| self.bindings@[i]@)
    }

    /// The names of the opaque structures, in the order of their numbers.
    pub open spec fn opaque_names(&self) -> Seq<Seq<char>> {
        Seq::new(self.opaque@.len(), |i: int| self.opaque@[i]@)
    }

    /// A table without any binding or opaque structure.
    pub fn new() -> (table: TypeTable)
        ensures
            table.bound() == Seq::<BindingSpec>::empty(),
            table.opaque_names() == Seq::<Seq<char>>::empty(),
    {
        TypeTable { opaque: Vec::new(), bindings: Vec::new() }
    }

    /// Binds `name` to `ty`. A later binding of a name hides the earlier
    /// ones.
    pub fn bind(&mut self, name: &str, ty: TypeDesc)
        ensures
            final(self).bound() == old(self).bound().push(BindingSpec { name: name@, ty }),
            final(self).opaque_names() == old(self).opaque_names(),
    {
        self.bindings.push(Binding { name: name.to_owned(), ty });
    }

    /// Declares an opaque structure called `name` and returns its type.
    pub fn declare_opaque(&mut self, name: &str) -> (ty: TypeDesc)
        ensures
            ty == (TypeDesc { base: Prim::Opaque(old(self).opaque@.len() as usize), depth: 0 }),
            final(self).opaque_names() == old(self).opaque_names().push(name@),
            final(self).bound() == old(self).bound(),
    {
        let number = self.opaque.len();
        self.opaque.push(name.to_owned());
        TypeDesc { base: Prim::Opaque(number), depth: 0 }
    }

    /// The type that `name` is bound to, if it is bound.
    pub fn lookup(&self, name: &str) -> (ty: Option<TypeDesc>)
        ensures
            ty == lookup_binding(self.bound(), name@),
    {
        let mut i: usize = self.bindings.len();
        assert(self.bound().take(i as int) =~= self.bound());
        while i > 0
            invariant
                i <= self.bindings@.len(),
                lookup_binding(self.bound(), name@) == lookup_binding(
                    self.bound().take(i as int),
                    name@,
                ),
            decreases i,
        {
            i -= 1;
            proof {
                let head = self.bound().take(i + 1);
                assert(head.last() == self.bindings@[i as int]@);
                assert(head.drop_last() =~= self.bound().take(i as int));
            }
            if str_eq(self.bindings[i].name.as_str(), name) {
                return Some(self.bindings[i].ty);
            }
        }
        None
    }

    /// The type that a type name stands for, if it stands for one.
    pub fn resolve_name(&self, name: &str) -> (ty: Option<TypeDesc>)
        ensures
            ty == resolve_name(self.bound(), name@),
    {
        if str_eq(name, "i8") || str_eq(name, "u8") {
            Some(TypeDesc::prim(Prim::I8))
        } else if str_eq(name, "usize") || str_eq(name, "isize") {
            Some(TypeDesc::prim(Prim::Word))
        } else if str_eq(name, "i32") || str_eq(name, "u32") {
            Some(TypeDesc::prim(Prim::I32))
        } else if str_eq(name, "i64") || str_eq(name, "u64") {
            Some(TypeDesc::prim(Prim::I64))
        } else if str_eq(name, "i128") {
            Some(TypeDesc::prim(Prim::I128))
        } else if str_eq(name, "void") {
            Some(TypeDesc::prim(Prim::Void))
        } else if str_eq(name, "f64") {
            Some(TypeDesc::prim(Prim::Double))
        } else {
            let mut bound_name = name.to_owned();
            bound_name.append("_t");
            self.lookup(bound_name.as_str())
        }
    }

    /// The type that `levels` pointer markers before the type name `name`
    /// stand for.
    pub fn resolve(&self, name: &str, levels: usize) -> (ty: Result<TypeDesc, DeclError>)
        ensures
            ty == resolve_type(self.bound(), name@, levels),
    {
        match self.resolve_name(name) {
            None => Err(DeclError::UnknownType),
            Some(t) => match t.checked_wrap(levels) {
                Some(wrapped) => Ok(wrapped),
                None => Err(DeclError::PointerDepth),
            },
        }
    }
}

/// The table that every unit starts from: the common integer, pointer,
/// void and floating-point types under their usual names.
pub fn load_vm_common_ty() -> (table: TypeTable)
    ensures
        table.bound() == common_bindings(),
        table.opaque_names() == Seq::<Seq<char>>::empty(),
{
    let mut table = TypeTable::new();
    let i8_t = TypeDesc::prim(Prim::I8);
    let i32_t = TypeDesc::prim(Prim::I32);
    let i64_t = TypeDesc::prim(Prim::I64);
    let i128_t = TypeDesc::prim(Prim::I128);
    let size_t = TypeDesc::prim(Prim::Word);
    table.bind("i8_t", i8_t);
    table.bind("i32_t", i32_t);
    table.bind("i64_t", i64_t);
    table.bind("i128_t", i128_t);
    table.bind("size_t", size_t);
    table.bind("sizeptr_t", size_t.wrap(1));
    table.bind("void_t", TypeDesc::prim(Prim::Void));
    table.bind("i8ptr_t", i8_t.wrap(1));
    table.bind("i32ptr_t", i32_t.wrap(1));
    table.bind("i64ptr_t", i64_t.wrap(1));
    table.bind("i128ptr_t", i128_t.wrap(1));
    table.bind("i8ptr2_t", i8_t.wrap(1).wrap(1));
    table.bind("f64_t", TypeDesc::prim(Prim::Double));
    assert(table.bound() =~= common_bindings());
    table
}

/// So many pointer markers before a name of the fixed vocabulary, so many
/// pointers are wrapped around its primitive: none give the primitive
/// itself, and each further marker gives the pointer to what one marker
/// fewer gives.
pub proof fn lemma_markers_wrap(bound: Seq<BindingSpec>, name: Seq<char>, levels: usize)
    requires
        primitive_named(name) is Some,
    ensures
        ({
            let p = primitive_named(name).unwrap();
            &&& resolve_type(bound, name, 0) == Ok::<TypeDesc, DeclError>(TypeDesc { base: p, depth: 0 })
            &&& resolve_type(bound, name, levels) matches Ok(t) && t@ == ptr_n(
                TypeSpec::Prim(p),
                levels as nat,
            ) && depth_of(t@) == levels && base_of(t@) == p
            &&& levels > 0 ==> resolve_type(bound, name, levels).unwrap()@ == TypeSpec::Ptr(
                Box::new(resolve_type(bound, name, (levels - 1) as usize).unwrap()@),
            )
        }),
{
    let p = primitive_named(name).unwrap();
    lemma_ptr_n_shape(TypeSpec::Prim(p), levels as nat);
}

} // verus!

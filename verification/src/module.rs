//! The compilation unit: a named container of function declarations, of
//! which at most one, `main`, has a body.

use vstd::prelude::*;
use vstd::string::*;
use crate::error::DeclError;
use crate::grammar::{
    batch_of_text, exprs_view, hdr_of_text, hdrs_view, is_name, kind_at,
    lemma_signature_parameters, marker_between, names_between, params_at, paren_between,
    parse_signatures, type_of_text, type_text, FunHdr, HdrSpec, TypeExprSpec,
};
use crate::spelling::lemma_markers_count;
use crate::lexer::{lexeme, tokens_of, TokenKind};
use crate::ir::{insts_view, Block, Function, Inst, InstSpec};
use crate::text::str_eq;
use crate::types::{
    lemma_markers_wrap, primitive_named, ptr_n, resolve_type, BindingSpec, Prim, TypeDesc,
    TypeSpec, TypeTable,
};

verus! {

/// The types of a function: those of its parameters, whether more
/// arguments may follow them, and the type of what it returns.
#[derive(Clone, Debug, PartialEq, Eq)]
pub struct Signature {
    pub params: Vec<TypeDesc>,
    pub ret: TypeDesc,
    pub is_variadic: bool,
}

/// What a signature says.
pub struct SigSpec {
    pub params: Seq<TypeDesc>,
    pub ret: TypeDesc,
    pub is_variadic: bool,
}

impl View for Signature {
    type V = SigSpec;

    open spec fn view(&self) -> SigSpec {
        SigSpec { params: self.params@, ret: self.ret, is_variadic: self.is_variadic }
    }
}

/// A function of a unit: its name and its signature.
#[derive(Clone, Debug, PartialEq, Eq)]
pub struct FunDecl {
    pub name: String,
    pub sig: Signature,
}

/// What a declaration says.
pub struct DeclSpec {
    pub name: Seq<char>,
    pub sig: SigSpec,
}

impl View for FunDecl {
    type V = DeclSpec;

    open spec fn view(&self) -> DeclSpec {
        DeclSpec { name: self.name@, sig: self.sig@ }
    }
}

/// What a list of declarations says.
pub open spec fn decls_view(v: Seq<FunDecl>) -> Seq<DeclSpec> {
    Seq::new(v.len(), |i: int| v[i]@)
}

/// Whether a function called `name` is among the declarations.
pub open spec fn declares(decls: Seq<DeclSpec>, name: Seq<char>) -> bool {
    exists|i: int| 0 <= i < decls.len() && (#[trigger] decls[i]).name == name
}

/// `i` is the first place at which `name` is declared.
pub open spec fn is_first_named(decls: Seq<DeclSpec>, name: Seq<char>, i: int) -> bool {
    &&& 0 <= i < decls.len()
    &&& decls[i].name == name
    &&& forall|j: int| 0 <= j < i ==> (#[trigger] decls[j]).name != name
}

/// The first function called `name` among the declarations.
pub open spec fn first_named(decls: Seq<DeclSpec>, name: Seq<char>) -> Function {
    Function { index: (choose|i: int| is_first_named(decls, name, i)) as usize }
}

/// No two declarations have the same name.
pub open spec fn names_distinct(decls: Seq<DeclSpec>) -> bool {
    forall|i: int, j: int|
        #![trigger decls[i], decls[j]]
        0 <= i < j < decls.len() ==> decls[i].name != decls[j].name
}

/// The declarations after the batch has been added to them, one by one:
/// a conflict where a name of the batch is already there.
pub open spec fn add_all(decls: Seq<DeclSpec>, batch: Seq<DeclSpec>) -> Result<
    Seq<DeclSpec>,
    DeclError,
>
    decreases batch.len(),
{
    if batch.len() == 0 {
        Ok(decls)
    } else if declares(decls, batch[0].name) {
        Err(DeclError::Conflict)
    } else {
        add_all(decls.push(batch[0]), batch.drop_first())
    }
}

/// The type that a type expression stands for.
pub open spec fn resolve_expr(bound: Seq<BindingSpec>, expr: TypeExprSpec) -> Result<
    TypeDesc,
    DeclError,
> {
    if expr.levels <= usize::MAX {
        resolve_type(bound, expr.name, expr.levels as usize)
    } else {
        Err(DeclError::PointerDepth)
    }
}

/// The types that a list of type expressions stands for; the error of the
/// first that stands for none.
pub open spec fn resolve_exprs(bound: Seq<BindingSpec>, exprs: Seq<TypeExprSpec>) -> Result<
    Seq<TypeDesc>,
    DeclError,
>
    decreases exprs.len(),
{
    if exprs.len() == 0 {
        Ok(Seq::empty())
    } else {
        match resolve_expr(bound, exprs[0]) {
            Err(e) => Err(e),
            Ok(t) => match resolve_exprs(bound, exprs.drop_first()) {
                Err(e) => Err(e),
                Ok(rest) => Ok(seq![t] + rest),
            },
        }
    }
}

/// The declaration that a written signature stands for: its parameters
/// are resolved from the left, then its return type.
pub open spec fn resolve_hdr(bound: Seq<BindingSpec>, hdr: HdrSpec) -> Result<DeclSpec, DeclError> {
    match resolve_exprs(bound, hdr.args) {
        Err(e) => Err(e),
        Ok(params) => match resolve_expr(bound, hdr.ret) {
            Err(e) => Err(e),
            Ok(ret) => Ok(
                DeclSpec { name: hdr.name, sig: SigSpec { params, ret, is_variadic: hdr.is_var } },
            ),
        },
    }
}

/// The declarations that a batch of written signatures stands for; the
/// error of the first signature that stands for none.
pub open spec fn resolve_hdrs(bound: Seq<BindingSpec>, hdrs: Seq<HdrSpec>) -> Result<
    Seq<DeclSpec>,
    DeclError,
>
    decreases hdrs.len(),
{
    if hdrs.len() == 0 {
        Ok(Seq::empty())
    } else {
        match resolve_hdr(bound, hdrs[0]) {
            Err(e) => Err(e),
            Ok(d) => match resolve_hdrs(bound, hdrs.drop_first()) {
                Err(e) => Err(e),
                Ok(rest) => Ok(seq![d] + rest),
            },
        }
    }
}

/// What declaring the text of a batch does to the declarations of a unit:
/// the text is read whole, then every signature is resolved, then the
/// declarations are added.
pub open spec fn declare_text(
    decls: Seq<DeclSpec>,
    bound: Seq<BindingSpec>,
    text: Seq<char>,
) -> Result<Seq<DeclSpec>, DeclError> {
    match batch_of_text(text) {
        None => Err(DeclError::Grammar),
        Some(hdrs) => match resolve_hdrs(bound, hdrs) {
            Err(e) => Err(e),
            Ok(batch) => add_all(decls, batch),
        },
    }
}

/// A compilation unit.
#[derive(Debug)]
pub struct VMMod {
    /// The unit's name.
    pub name: String,
    /// The functions of the unit, in the order of their declaration.
    pub decls: Vec<FunDecl>,
    /// The place of `main` among them, once it was appended.
    pub entry: Option<usize>,
    /// The instructions of the entry block of `main`.
    pub code: Vec<Inst>,
    /// The types of the registers that the instructions define.
    pub regs: Vec<TypeDesc>,
}

/// The first place at which `name` is declared.
fn find_decl(decls: &Vec<FunDecl>, name: &str) -> (at: Option<usize>)
    ensures
        match at {
            Some(i) => i < decls@.len() && decls@[i as int].name@ == name@ && forall|j: int|
                0 <= j < i ==> (#[trigger] decls@[j]).name@ != name@,
            None => forall|j: int| 0 <= j < decls@.len() ==> (#[trigger] decls@[j]).name@ != name@,
        },
        at is Some <==> declares(decls_view(decls@), name@),
{
    let mut i: usize = 0;
    while i < decls.len()
        invariant
            i <= decls@.len(),
            forall|j: int| 0 <= j < i ==> (#[trigger] decls@[j]).name@ != name@,
        decreases decls@.len() - i,
    {
        if str_eq(decls[i].name.as_str(), name) {
            assert(decls_view(decls@)[i as int].name == name@);
            return Some(i);
        }
        i += 1;
    }
    proof {
        if declares(decls_view(decls@), name@) {
            let k = choose|k: int|
                0 <= k < decls_view(decls@).len() && (#[trigger] decls_view(decls@)[k]).name
                    == name@;
            assert(decls@[k].name@ == name@);
        }
    }
    None
}

impl VMMod {
    /// The declarations of the unit.
    pub open spec fn declared(&self) -> Seq<DeclSpec> {
        decls_view(self.decls@)
    }

    /// The instructions of the entry block.
    pub open spec fn body(&self) -> Seq<InstSpec> {
        insts_view(self.code@)
    }

    /// The unit is consistent: no two functions have the same name, the
    /// entry is `main`, and there are instructions only where there is an
    /// entry.
    pub open spec fn wf(&self) -> bool {
        &&& names_distinct(self.declared())
        &&& match self.entry {
            Some(e) => e < self.decls@.len() && self.decls@[e as int].name@ == "main"@,
            None => self.code@.len() == 0,
        }
    }

    /// Whether the unit is consistent.
    pub fn is_wf(&self) -> (yes: bool)
        ensures
            yes == self.wf(),
    {
        let n = self.decls.len();
        let mut j: usize = 0;
        while j < n
            invariant
                n == self.decls@.len(),
                j <= n,
                forall|a: int, b: int|
                    #![trigger self.declared()[a], self.declared()[b]]
                    0 <= a < b < j ==> self.declared()[a].name != self.declared()[b].name,
            decreases n - j,
        {
            let mut i: usize = 0;
            while i < j
                invariant
                    n == self.decls@.len(),
                    i <= j < n,
                    forall|a: int|
                        0 <= a < i ==> (#[trigger] self.declared()[a]).name != self.declared()[j as int].name,
                decreases j - i,
            {
                if str_eq(self.decls[i].name.as_str(), self.decls[j].name.as_str()) {
                    assert(self.declared()[i as int].name == self.declared()[j as int].name);
                    return false;
                }
                i += 1;
            }
            j += 1;
        }
        match self.entry {
            Some(e) => e < n && str_eq(self.decls[e].name.as_str(), "main"),
            None => self.code.len() == 0,
        }
    }

    /// A new, empty unit called `name`.
    pub fn new(name: &str) -> (unit: VMMod)
        ensures
            unit.wf(),
            unit.name@ == name@,
            unit.declared() == Seq::<DeclSpec>::empty(),
            unit.entry is None,
            unit.body() == Seq::<InstSpec>::empty(),
            unit.regs@ == Seq::<TypeDesc>::empty(),
    {
        VMMod {
            name: name.to_owned(),
            decls: Vec::new(),
            entry: None,
            code: Vec::new(),
            regs: Vec::new(),
        }
    }

    /// The function called `name`, or `None` where the unit declares none
    /// of that name.
    pub fn lookup_function(&self, name: &str) -> (f: Option<Function>)
        ensures
            f is Some <==> declares(self.declared(), name@),
            f matches Some(v) ==> is_first_named(self.declared(), name@, v.index as int),
    {
        match find_decl(&self.decls, name) {
            Some(index) => {
                proof {
                    assert forall|j: int| 0 <= j < index implies (#[trigger] self.declared()[j]).name
                        != name@ by {
                        assert(self.decls@[j].name@ != name@);
                    }
                }
                Some(Function { index })
            },
            None => None,
        }
    }

    /// The function called `name`, which the unit must declare.
    pub fn get_unchecked_fn(&self, name: &str) -> (f: Function)
        requires
            declares(self.declared(), name@),
        ensures
            is_first_named(self.declared(), name@, f.index as int),
            f == first_named(self.declared(), name@),
    {
        match find_decl(&self.decls, name) {
            Some(index) => {
                proof {
                    let decls = self.declared();
                    assert forall|j: int| 0 <= j < index implies (#[trigger] decls[j]).name
                        != name@ by {
                        assert(self.decls@[j].name@ != name@);
                    }
                    assert(is_first_named(decls, name@, index as int));
                    let chosen = choose|i: int| is_first_named(decls, name@, i);
                    if chosen < index {
                        assert(decls[chosen].name != name@);
                    } else if index < chosen {
                        assert(decls[index as int].name != name@);
                    }
                }
                Function { index }
            },
            None => unreached(),
        }
    }
}

/// The types read so far, then what the rest of the list gives.
pub open spec fn types_then(read: Seq<TypeDesc>, rest: Result<Seq<TypeDesc>, DeclError>) -> Result<
    Seq<TypeDesc>,
    DeclError,
> {
    match rest {
        Err(e) => Err(e),
        Ok(r) => Ok(read + r),
    }
}

/// The declarations read so far, then what the rest of the batch gives.
pub open spec fn decls_then(read: Seq<DeclSpec>, rest: Result<Seq<DeclSpec>, DeclError>) -> Result<
    Seq<DeclSpec>,
    DeclError,
> {
    match rest {
        Err(e) => Err(e),
        Ok(r) => Ok(read + r),
    }
}

/// A name is declared in two lists put together exactly if it is declared
/// in one of them.
pub proof fn lemma_declares_concat(a: Seq<DeclSpec>, b: Seq<DeclSpec>, name: Seq<char>)
    ensures
        declares(a + b, name) <==> declares(a, name) || declares(b, name),
{
    if declares(a + b, name) {
        let k = choose|k: int| 0 <= k < (a + b).len() && (#[trigger] (a + b)[k]).name == name;
        if k < a.len() {
            assert(a[k].name == name);
        } else {
            assert(b[k - a.len()].name == name);
        }
    }
    if declares(a, name) {
        let k = choose|k: int| 0 <= k < a.len() && (#[trigger] a[k]).name == name;
        assert((a + b)[k].name == name);
    }
    if declares(b, name) {
        let k = choose|k: int| 0 <= k < b.len() && (#[trigger] b[k]).name == name;
        assert((a + b)[k + a.len()].name == name);
    }
}

impl FunHdr {
    /// The declaration that this written signature stands for, with the
    /// type names resolved by `table`.
    pub fn resolve(&self, table: &TypeTable) -> (r: Result<FunDecl, DeclError>)
        ensures
            match r {
                Ok(d) => resolve_hdr(table.bound(), self@) == Ok::<DeclSpec, DeclError>(d@),
                Err(e) => resolve_hdr(table.bound(), self@) == Err::<DeclSpec, DeclError>(e),
            },
    {
        let ghost bound = table.bound();
        let ghost all = exprs_view(self.args@);
        let mut params: Vec<TypeDesc> = Vec::new();
        let mut k: usize = 0;
        proof {
            assert(all.skip(0) =~= all);
            let whole = resolve_exprs(bound, all);
            if whole is Ok {
                assert(params@ + whole.unwrap() =~= whole.unwrap());
            }
        }
        while k < self.args.len()
            invariant
                k <= self.args@.len(),
                bound == table.bound(),
                all == exprs_view(self.args@),
                resolve_exprs(bound, all) == types_then(params@, resolve_exprs(bound, all.skip(k as int))),
            decreases self.args@.len() - k,
        {
            let ghost read = params@;
            proof {
                assert(all.skip(k as int)[0] == self.args@[k as int]@);
                assert(all.skip(k as int).drop_first() =~= all.skip(k + 1));
            }
            match table.resolve(self.args[k].name.as_str(), self.args[k].levels) {
                Err(e) => {
                    return Err(e);
                },
                Ok(t) => {
                    params.push(t);
                    proof {
                        let rest = resolve_exprs(bound, all.skip(k + 1));
                        if rest is Ok {
                            assert(read.push(t) + rest.unwrap() =~= read + (seq![t]
                                + rest.unwrap()));
                        }
                    }
                },
            }
            k += 1;
        }
        proof {
            assert(all.skip(k as int) =~= Seq::<TypeExprSpec>::empty());
            assert(params@ + Seq::<TypeDesc>::empty() =~= params@);
        }
        match table.resolve(self.ret.name.as_str(), self.ret.levels) {
            Err(e) => Err(e),
            Ok(ret) => Ok(
                FunDecl {
                    name: self.name.clone(),
                    sig: Signature { params, ret, is_variadic: self.is_var },
                },
            ),
        }
    }
}

/// The declarations that a batch of written signatures stands for, or the
/// error of the first signature that stands for none.
pub fn resolve_batch(hdrs: &Vec<FunHdr>, table: &TypeTable) -> (r: Result<Vec<FunDecl>, DeclError>)
    ensures
        match r {
            Ok(batch) => resolve_hdrs(table.bound(), hdrs_view(hdrs@)) == Ok::<
                Seq<DeclSpec>,
                DeclError,
            >(decls_view(batch@)),
            Err(e) => resolve_hdrs(table.bound(), hdrs_view(hdrs@)) == Err::<
                Seq<DeclSpec>,
                DeclError,
            >(e),
        },
{
    let ghost bound = table.bound();
    let ghost all = hdrs_view(hdrs@);
    let mut batch: Vec<FunDecl> = Vec::new();
    let mut k: usize = 0;
    proof {
        assert(all.skip(0) =~= all);
        let whole = resolve_hdrs(bound, all);
        if whole is Ok {
            assert(decls_view(batch@) + whole.unwrap() =~= whole.unwrap());
        }
    }
    while k < hdrs.len()
        invariant
            k <= hdrs@.len(),
            bound == table.bound(),
            all == hdrs_view(hdrs@),
            resolve_hdrs(bound, all) == decls_then(
                decls_view(batch@),
                resolve_hdrs(bound, all.skip(k as int)),
            ),
        decreases hdrs@.len() - k,
    {
        let ghost read = decls_view(batch@);
        proof {
            assert(all.skip(k as int)[0] == hdrs@[k as int]@);
            assert(all.skip(k as int).drop_first() =~= all.skip(k + 1));
        }
        match hdrs[k].resolve(table) {
            Err(e) => {
                return Err(e);
            },
            Ok(d) => {
                let ghost d_spec = d@;
                batch.push(d);
                proof {
                    assert(decls_view(batch@) =~= read.push(d_spec));
                    let rest = resolve_hdrs(bound, all.skip(k + 1));
                    if rest is Ok {
                        assert(read.push(d_spec) + rest.unwrap() =~= read + (seq![d_spec]
                            + rest.unwrap()));
                    }
                }
            },
        }
        k += 1;
    }
    proof {
        assert(all.skip(k as int) =~= Seq::<HdrSpec>::empty());
        assert(decls_view(batch@) + Seq::<DeclSpec>::empty() =~= decls_view(batch@));
    }
    Ok(batch)
}

impl VMMod {
    /// Everything but the declarations is the same in `self` and `other`.
    pub open spec fn same_body(&self, other: &VMMod) -> bool {
        &&& self.name == other.name
        &&& self.entry == other.entry
        &&& self.code == other.code
        &&& self.regs == other.regs
    }

    /// Adds a batch of declarations, all of them or none: where a name of
    /// the batch is declared already, by the unit or earlier in the batch,
    /// the unit stays as it is.
    #[verifier::loop_isolation(false)]
    pub fn declare_batch(&mut self, batch: Vec<FunDecl>) -> (r: Result<(), DeclError>)
        ensures
            old(self).wf() ==> final(self).wf(),
            final(self).same_body(old(self)),
            match add_all(old(self).declared(), decls_view(batch@)) {
                Ok(d) => r is Ok && final(self).declared() == d,
                Err(e) => r == Err::<(), DeclError>(e) && *final(self) == *old(self),
            },
            r is Ok ==> final(self).declared() == old(self).declared() + decls_view(batch@),
    {
        let ghost before = self.declared();
        let ghost all = decls_view(batch@);
        let mut staged = batch;
        let n = staged.len();
        let mut k: usize = 0;
        proof {
            assert(before + all.take(0) =~= before);
            assert(all.skip(0) =~= all);
        }
        while k < n
            invariant
                n == staged@.len(),
                k <= n,
                *self == *old(self),
                before == self.declared(),
                all == decls_view(staged@),
                names_distinct(before) ==> names_distinct(before + all.take(k as int)),
                add_all(before, all) == add_all(before + all.take(k as int), all.skip(k as int)),
            decreases n - k,
        {
            let ghost seen = before + all.take(k as int);
            proof {
                assert(all.skip(k as int)[0] == all[k as int]);
                assert(all.skip(k as int).drop_first() =~= all.skip(k + 1));
                assert(seen.push(all[k as int]) =~= before + all.take(k + 1));
                lemma_declares_concat(before, all.take(k as int), all[k as int].name);
            }
            if find_decl(&self.decls, staged[k].name.as_str()).is_some() {
                return Err(DeclError::Conflict);
            }
            let mut j: usize = 0;
            while j < k
                invariant
                    n == staged@.len(),
                    j <= k < n,
                    all == decls_view(staged@),
                    forall|i: int| 0 <= i < j ==> (#[trigger] all[i]).name != all[k as int].name,
                decreases k - j,
            {
                if str_eq(staged[j].name.as_str(), staged[k].name.as_str()) {
                    proof {
                        assert(all.take(k as int)[j as int].name == all[k as int].name);
                    }
                    return Err(DeclError::Conflict);
                }
                j += 1;
            }
            proof {
                if declares(all.take(k as int), all[k as int].name) {
                    let i = choose|i: int|
                        0 <= i < all.take(k as int).len() && (#[trigger] all.take(k as int)[i]).name
                            == all[k as int].name;
                    assert(all[i].name == all[k as int].name);
                }
                assert(!declares(seen, all[k as int].name));
                let grown = seen.push(all[k as int]);
                if names_distinct(before) {
                    assert forall|a: int, b: int|
                        #![trigger grown[a], grown[b]]
                        0 <= a < b < grown.len() implies grown[a].name != grown[b].name by {
                        if b == seen.len() {
                            assert(seen[a].name != all[k as int].name);
                        } else {
                            assert(seen[a].name != seen[b].name);
                        }
                    }
                }
            }
            k += 1;
        }
        proof {
            assert(all.take(n as int) =~= all);
            assert(all.skip(n as int) =~= Seq::<DeclSpec>::empty());
        }
        self.decls.append(&mut staged);
        proof {
            assert(self.declared() =~= before + all);
        }
        Ok(())
    }
}

/// Declares the external functions that `text` spells, all of them or
/// none. The text is read whole first, then every signature is resolved by
/// `table`, then the declarations are added to `module`; on any error the
/// unit stays as it is.
pub fn impl_fn_hdr(module: &mut VMMod, table: &TypeTable, text: &str) -> (r: Result<(), DeclError>)
    ensures
        old(module).wf() ==> final(module).wf(),
        final(module).same_body(old(module)),
        match declare_text(old(module).declared(), table.bound(), text@) {
            Ok(d) => r is Ok && final(module).declared() == d,
            Err(e) => r == Err::<(), DeclError>(e) && *final(module) == *old(module),
        },
{
    match parse_signatures(text) {
        None => Err(DeclError::Grammar),
        Some(hdrs) => match resolve_batch(&hdrs, table) {
            Err(e) => Err(e),
            Ok(batch) => module.declare_batch(batch),
        },
    }
}

/// The subsystems whose functions a unit can declare in one step.
#[derive(Clone, Copy, Debug, PartialEq, Eq, Structural)]
pub enum PosixGroup {
    /// File control: `open`.
    Fcntl,
    /// Standard input and output: `printf`.
    Stdio,
    /// Strings: `strlen`.
    String,
    /// Processes: `write`, `close`, `sleep`.
    Unistd,
}

/// The type of the primitive `base` behind `depth` pointers.
pub open spec fn ty(base: Prim, depth: usize) -> TypeDesc {
    TypeDesc { base, depth }
}

/// The declaration of the function `name` with these types.
pub open spec fn external(name: Seq<char>, params: Seq<TypeDesc>, is_variadic: bool, ret: TypeDesc) -> DeclSpec {
    DeclSpec { name, sig: SigSpec { params, ret, is_variadic } }
}

/// The functions of each subsystem, as C declares them:
/// `open(*i8, i32, ...) -> i32`; `printf(*i8, ...) -> i32`;
/// `strlen(*i8) -> usize`; `write(i32, *i8, usize) -> i128`,
/// `close(i32) -> i32` and `sleep(u32) -> u32`.
pub open spec fn catalogue(kind: PosixGroup) -> Seq<DeclSpec> {
    match kind {
        PosixGroup::Fcntl => seq![
            external("open"@, seq![ty(Prim::I8, 1), ty(Prim::I32, 0)], true, ty(Prim::I32, 0)),
        ],
        PosixGroup::Stdio => seq![
            external("printf"@, seq![ty(Prim::I8, 1)], true, ty(Prim::I32, 0)),
        ],
        PosixGroup::String => seq![
            external("strlen"@, seq![ty(Prim::I8, 1)], false, ty(Prim::Word, 0)),
        ],
        PosixGroup::Unistd => seq![
            external(
                "write"@,
                seq![ty(Prim::I32, 0), ty(Prim::I8, 1), ty(Prim::Word, 0)],
                false,
                ty(Prim::I128, 0),
            ),
            external("close"@, seq![ty(Prim::I32, 0)], false, ty(Prim::I32, 0)),
            external("sleep"@, seq![ty(Prim::I32, 0)], false, ty(Prim::I32, 0)),
        ],
    }
}

fn external_decl(name: &str, params: Vec<TypeDesc>, is_variadic: bool, ret: TypeDesc) -> (d: FunDecl)
    ensures
        d@ == external(name@, params@, is_variadic, ret),
{
    FunDecl { name: name.to_owned(), sig: Signature { params, ret, is_variadic } }
}

/// The declarations of a subsystem.
pub fn posix_catalogue(kind: PosixGroup) -> (batch: Vec<FunDecl>)
    ensures
        decls_view(batch@) == catalogue(kind),
{
    let i8ptr_t = TypeDesc { base: Prim::I8, depth: 1 };
    let i32_t = TypeDesc::prim(Prim::I32);
    let size_t = TypeDesc::prim(Prim::Word);
    let i128_t = TypeDesc::prim(Prim::I128);
    let mut batch: Vec<FunDecl> = Vec::new();
    match kind {
        PosixGroup::Fcntl => {
            let params = vec![i8ptr_t, i32_t];
            assert(params@ =~= seq![ty(Prim::I8, 1), ty(Prim::I32, 0)]);
            batch.push(external_decl("open", params, true, i32_t));
        },
        PosixGroup::Stdio => {
            let params = vec![i8ptr_t];
            assert(params@ =~= seq![ty(Prim::I8, 1)]);
            batch.push(external_decl("printf", params, true, i32_t));
        },
        PosixGroup::String => {
            let params = vec![i8ptr_t];
            assert(params@ =~= seq![ty(Prim::I8, 1)]);
            batch.push(external_decl("strlen", params, false, size_t));
        },
        PosixGroup::Unistd => {
            let write_params = vec![i32_t, i8ptr_t, size_t];
            assert(write_params@ =~= seq![ty(Prim::I32, 0), ty(Prim::I8, 1), ty(Prim::Word, 0)]);
            batch.push(external_decl("write", write_params, false, i128_t));
            let close_params = vec![i32_t];
            assert(close_params@ =~= seq![ty(Prim::I32, 0)]);
            batch.push(external_decl("close", close_params, false, i32_t));
            let sleep_params = vec![i32_t];
            assert(sleep_params@ =~= seq![ty(Prim::I32, 0)]);
            batch.push(external_decl("sleep", sleep_params, false, i32_t));
        },
    }
    assert(decls_view(batch@) =~= catalogue(kind));
    batch
}

impl VMMod {
    /// Declares the functions of a subsystem, all of them or none: a
    /// conflict where the unit already declares one of their names.
    pub fn declare_group(&mut self, kind: PosixGroup) -> (r: Result<(), DeclError>)
        ensures
            old(self).wf() ==> final(self).wf(),
            final(self).same_body(old(self)),
            match add_all(old(self).declared(), catalogue(kind)) {
                Ok(d) => r is Ok && final(self).declared() == d,
                Err(e) => r == Err::<(), DeclError>(e) && *final(self) == *old(self),
            },
            r is Ok ==> final(self).declared() == old(self).declared() + catalogue(kind),
            r is Err ==> r == Err::<(), DeclError>(DeclError::Conflict),
            r is Ok <==> forall|k: int|
                0 <= k < catalogue(kind).len() ==> !declares(
                    old(self).declared(),
                    (#[trigger] catalogue(kind)[k]).name,
                ),
    {
        proof {
            lemma_add_all(self.declared(), catalogue(kind));
            lemma_catalogue_distinct(kind);
        }
        self.declare_batch(posix_catalogue(kind))
    }

    /// Declares `open`.
    pub fn include_fcntl(&mut self) -> (r: Result<(), DeclError>)
        ensures
            old(self).wf() ==> final(self).wf(),
            final(self).same_body(old(self)),
            match add_all(old(self).declared(), catalogue(PosixGroup::Fcntl)) {
                Ok(d) => r is Ok && final(self).declared() == d,
                Err(e) => r == Err::<(), DeclError>(e) && *final(self) == *old(self),
            },
            r is Ok ==> final(self).declared() == old(self).declared() + catalogue(PosixGroup::Fcntl),
            r is Err ==> r == Err::<(), DeclError>(DeclError::Conflict),
            r is Ok <==> forall|k: int|
                0 <= k < catalogue(PosixGroup::Fcntl).len() ==> !declares(
                    old(self).declared(),
                    (#[trigger] catalogue(PosixGroup::Fcntl)[k]).name,
                ),
    {
        self.declare_group(PosixGroup::Fcntl)
    }

    /// Declares `printf`.
    pub fn include_stdio(&mut self) -> (r: Result<(), DeclError>)
        ensures
            old(self).wf() ==> final(self).wf(),
            final(self).same_body(old(self)),
            match add_all(old(self).declared(), catalogue(PosixGroup::Stdio)) {
                Ok(d) => r is Ok && final(self).declared() == d,
                Err(e) => r == Err::<(), DeclError>(e) && *final(self) == *old(self),
            },
            r is Ok ==> final(self).declared() == old(self).declared() + catalogue(PosixGroup::Stdio),
            r is Err ==> r == Err::<(), DeclError>(DeclError::Conflict),
            r is Ok <==> forall|k: int|
                0 <= k < catalogue(PosixGroup::Stdio).len() ==> !declares(
                    old(self).declared(),
                    (#[trigger] catalogue(PosixGroup::Stdio)[k]).name,
                ),
    {
        self.declare_group(PosixGroup::Stdio)
    }

    /// Declares `strlen`.
    pub fn include_string(&mut self) -> (r: Result<(), DeclError>)
        ensures
            old(self).wf() ==> final(self).wf(),
            final(self).same_body(old(self)),
            match add_all(old(self).declared(), catalogue(PosixGroup::String)) {
                Ok(d) => r is Ok && final(self).declared() == d,
                Err(e) => r == Err::<(), DeclError>(e) && *final(self) == *old(self),
            },
            r is Ok ==> final(self).declared() == old(self).declared() + catalogue(PosixGroup::String),
            r is Err ==> r == Err::<(), DeclError>(DeclError::Conflict),
            r is Ok <==> forall|k: int|
                0 <= k < catalogue(PosixGroup::String).len() ==> !declares(
                    old(self).declared(),
                    (#[trigger] catalogue(PosixGroup::String)[k]).name,
                ),
    {
        self.declare_group(PosixGroup::String)
    }

    /// Declares `write`, `close` and `sleep`.
    pub fn include_unistd(&mut self) -> (r: Result<(), DeclError>)
        ensures
            old(self).wf() ==> final(self).wf(),
            final(self).same_body(old(self)),
            match add_all(old(self).declared(), catalogue(PosixGroup::Unistd)) {
                Ok(d) => r is Ok && final(self).declared() == d,
                Err(e) => r == Err::<(), DeclError>(e) && *final(self) == *old(self),
            },
            r is Ok ==> final(self).declared() == old(self).declared() + catalogue(PosixGroup::Unistd),
            r is Err ==> r == Err::<(), DeclError>(DeclError::Conflict),
            r is Ok <==> forall|k: int|
                0 <= k < catalogue(PosixGroup::Unistd).len() ==> !declares(
                    old(self).declared(),
                    (#[trigger] catalogue(PosixGroup::Unistd)[k]).name,
                ),
    {
        self.declare_group(PosixGroup::Unistd)
    }

    /// The declaration of the entry point: `main`, without parameters,
    /// returning the platform word.
    pub open spec fn main_decl() -> DeclSpec {
        external("main"@, Seq::empty(), false, ty(Prim::Word, 0))
    }

    /// Appends the entry point `main` with its empty entry block, and
    /// returns the block. A conflict where the unit already declares a
    /// `main`; the unit then stays as it is.
    pub fn append_main(&mut self) -> (r: Result<Block, DeclError>)
        ensures
            old(self).wf() ==> final(self).wf(),
            declares(old(self).declared(), "main"@) ==> r == Err::<Block, DeclError>(
                DeclError::Conflict,
            ) && *final(self) == *old(self),
            !declares(old(self).declared(), "main"@) ==> r == Ok::<Block, DeclError>(
                Block { func: old(self).decls@.len() as usize },
            ) && final(self).declared() == old(self).declared().push(Self::main_decl())
                && final(self).entry == Some(old(self).decls@.len() as usize)
                && final(self).name == old(self).name && final(self).code == old(self).code
                && final(self).regs == old(self).regs,
    {
        if find_decl(&self.decls, "main").is_some() {
            return Err(DeclError::Conflict);
        }
        let ghost before = self.declared();
        let func = self.decls.len();
        self.decls.push(external_decl("main", Vec::new(), false, TypeDesc::prim(Prim::Word)));
        self.entry = Some(func);
        proof {
            assert(self.declared() =~= before.push(Self::main_decl()));
            let grown = self.declared();
            if names_distinct(before) {
                assert forall|a: int, b: int|
                    #![trigger grown[a], grown[b]]
                    0 <= a < b < grown.len() implies grown[a].name != grown[b].name by {
                    if b == before.len() {
                        assert(before[a].name != "main"@);
                    } else {
                        assert(before[a].name != before[b].name);
                    }
                }
            }
        }
        Ok(Block { func })
    }
}

/// Adding a batch fails only with a conflict, and where it succeeds the
/// batch stands behind the declarations that were there. It succeeds
/// exactly if the names of the batch differ from one another and from the
/// names that were there.
pub proof fn lemma_add_all(decls: Seq<DeclSpec>, batch: Seq<DeclSpec>)
    ensures
        match add_all(decls, batch) {
            Ok(d) => d == decls + batch,
            Err(e) => e == DeclError::Conflict,
        },
        add_all(decls, batch) is Ok <==> names_distinct(batch) && forall|k: int|
            0 <= k < batch.len() ==> !declares(decls, (#[trigger] batch[k]).name),
    decreases batch.len(),
{
    if batch.len() == 0 {
        assert(decls + batch =~= decls);
    } else if declares(decls, batch[0].name) {
    } else {
        let first = batch[0];
        let rest = batch.drop_first();
        let grown = decls.push(first);
        lemma_add_all(grown, rest);
        assert(grown + rest =~= decls + batch);
        assert forall|n: Seq<char>| declares(grown, n) <==> declares(decls, n) || n
            == first.name by {
            lemma_declares_concat(decls, seq![first], n);
            assert(grown =~= decls + seq![first]);
            if declares(seq![first], n) {
                let k = choose|k: int| 0 <= k < 1 && (#[trigger] seq![first][k]).name == n;
            }
            if n == first.name {
                assert(seq![first][0].name == n);
            }
        }
        let rest_ok = names_distinct(rest) && forall|k: int|
            0 <= k < rest.len() ==> !declares(grown, (#[trigger] rest[k]).name);
        let all_ok = names_distinct(batch) && forall|k: int|
            0 <= k < batch.len() ==> !declares(decls, (#[trigger] batch[k]).name);
        if rest_ok {
            assert forall|a: int, b: int|
                #![trigger batch[a], batch[b]]
                0 <= a < b < batch.len() implies batch[a].name != batch[b].name by {
                if a == 0 {
                    assert(!declares(grown, rest[b - 1].name));
                } else {
                    assert(rest[a - 1].name != rest[b - 1].name);
                }
            }
            assert forall|k: int| 0 <= k < batch.len() implies !declares(
                decls,
                (#[trigger] batch[k]).name,
            ) by {
                if k > 0 {
                    assert(!declares(grown, rest[k - 1].name));
                }
            }
        }
        if all_ok {
            assert forall|a: int, b: int|
                #![trigger rest[a], rest[b]]
                0 <= a < b < rest.len() implies rest[a].name != rest[b].name by {
                assert(batch[a + 1].name != batch[b + 1].name);
            }
            assert forall|k: int| 0 <= k < rest.len() implies !declares(
                grown,
                (#[trigger] rest[k]).name,
            ) by {
                assert(!declares(decls, batch[k + 1].name));
                assert(batch[0].name != batch[k + 1].name);
            }
        }
    }
}

/// As many types come out of a list of type expressions as expressions
/// went in.
pub proof fn lemma_resolve_exprs_len(bound: Seq<BindingSpec>, exprs: Seq<TypeExprSpec>)
    ensures
        resolve_exprs(bound, exprs) matches Ok(types) ==> types.len() == exprs.len(),
    decreases exprs.len(),
{
    if exprs.len() > 0 {
        lemma_resolve_exprs_len(bound, exprs.drop_first());
    }
}

/// Of every signature that a text spells and that can be resolved: the
/// declared function has as many parameters as there are type names
/// between the parentheses of the text, it is variadic exactly if the
/// variadic marker stands between them, and it has the name that the text
/// begins with.
pub proof fn lemma_declared_parameters(bound: Seq<BindingSpec>, text: Seq<char>)
    requires
        hdr_of_text(text) is Some,
        resolve_hdr(bound, hdr_of_text(text).unwrap()) is Ok,
    ensures
        ({
            let toks = tokens_of(text).unwrap();
            let decl = resolve_hdr(bound, hdr_of_text(text).unwrap()).unwrap();
            let close = params_at(text, toks, 2).unwrap().2 - 1;
            &&& kind_at(toks, 0) == Some(TokenKind::Ident)
            &&& kind_at(toks, 1) == Some(TokenKind::Open)
            &&& kind_at(toks, close) == Some(TokenKind::Close)
            &&& !paren_between(toks, 2, close)
            &&& decl.name == lexeme(text, toks[0])
            &&& decl.sig.params.len() == names_between(toks, 2, close)
            &&& decl.sig.is_variadic <==> marker_between(toks, 2, close)
        }),
{
    let toks = tokens_of(text).unwrap();
    lemma_signature_parameters(text, toks, 0);
    lemma_resolve_exprs_len(bound, hdr_of_text(text).unwrap().args);
}

/// The names of the fixed vocabulary are names.
pub proof fn lemma_primitives_are_names(name: Seq<char>)
    requires
        primitive_named(name) is Some,
    ensures
        is_name(name),
{
    reveal_strlit("i8");
    reveal_strlit("u8");
    reveal_strlit("usize");
    reveal_strlit("isize");
    reveal_strlit("i32");
    reveal_strlit("u32");
    reveal_strlit("i64");
    reveal_strlit("u64");
    reveal_strlit("i128");
    reveal_strlit("void");
    reveal_strlit("f64");
}

/// So many pointer markers as stand before a primitive's name in a text,
/// so many pointers are wrapped around the primitive in the type that the
/// text stands for: with no marker the text stands for the primitive
/// itself, and with each marker more for the pointer to what it stood for
/// before.
pub proof fn lemma_pointer_levels(bound: Seq<BindingSpec>, levels: usize, name: Seq<char>)
    requires
        primitive_named(name) is Some,
        levels + name.len() <= usize::MAX,
    ensures
        ({
            let written = TypeExprSpec { levels: levels as nat, name };
            let p = primitive_named(name).unwrap();
            &&& type_of_text(type_text(written)) == Some(written)
            &&& resolve_expr(bound, written) matches Ok(t) && t@ == ptr_n(
                TypeSpec::Prim(p),
                levels as nat,
            )
            &&& levels == 0 ==> resolve_expr(bound, written) == Ok::<TypeDesc, DeclError>(
                TypeDesc { base: p, depth: 0 },
            )
        }),
{
    lemma_primitives_are_names(name);
    lemma_markers_count(TypeExprSpec { levels: levels as nat, name });
    lemma_markers_wrap(bound, name, levels);
}

/// No two functions of a subsystem have the same name.
pub proof fn lemma_catalogue_distinct(kind: PosixGroup)
    ensures
        names_distinct(catalogue(kind)),
{
    reveal_strlit("write");
    reveal_strlit("close");
    reveal_strlit("sleep");
    let names = catalogue(kind);
    assert forall|i: int, j: int|
        #![trigger names[i], names[j]]
        0 <= i < j < names.len() implies names[i].name != names[j].name by {
        if names[i].name == names[j].name {
            assert(names[i].name[0] == names[j].name[0]);
        }
    }
}

/// Declaring one batch on two units adds the same declarations to both.
pub proof fn lemma_same_batch_same_declarations(
    a: Seq<DeclSpec>,
    b: Seq<DeclSpec>,
    batch: Seq<DeclSpec>,
)
    requires
        add_all(a, batch) is Ok,
        add_all(b, batch) is Ok,
    ensures
        add_all(a, batch).unwrap().skip(a.len() as int) == batch,
        add_all(b, batch).unwrap().skip(b.len() as int) == batch,
{
    lemma_add_all(a, batch);
    lemma_add_all(b, batch);
    assert((a + batch).skip(a.len() as int) =~= batch);
    assert((b + batch).skip(b.len() as int) =~= batch);
}

/// Declaring a batch a second time on the same unit is a conflict.
pub proof fn lemma_batch_twice_conflicts(decls: Seq<DeclSpec>, batch: Seq<DeclSpec>)
    requires
        batch.len() > 0,
        add_all(decls, batch) is Ok,
    ensures
        add_all(add_all(decls, batch).unwrap(), batch) == Err::<Seq<DeclSpec>, DeclError>(
            DeclError::Conflict,
        ),
{
    lemma_add_all(decls, batch);
    let after = decls + batch;
    assert(after[decls.len() as int].name == batch[0].name);
}

/// Declaring a subsystem on two units adds the same declarations, those
/// of its catalogue, to both; declaring it twice on one unit is a
/// conflict.
pub proof fn lemma_group_deterministic(a: Seq<DeclSpec>, b: Seq<DeclSpec>, kind: PosixGroup)
    requires
        add_all(a, catalogue(kind)) is Ok,
        add_all(b, catalogue(kind)) is Ok,
    ensures
        add_all(a, catalogue(kind)).unwrap().skip(a.len() as int) == catalogue(kind),
        add_all(b, catalogue(kind)).unwrap().skip(b.len() as int) == catalogue(kind),
        add_all(add_all(a, catalogue(kind)).unwrap(), catalogue(kind)) == Err::<
            Seq<DeclSpec>,
            DeclError,
        >(DeclError::Conflict),
{
    lemma_same_batch_same_declarations(a, b, catalogue(kind));
    lemma_batch_twice_conflicts(a, catalogue(kind));
}

} // verus!

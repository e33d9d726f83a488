//! The grammar of external function signatures.
//!
//! A batch is a list of signatures separated by `;`, with an optional `;`
//! at its end. A signature is `name(param, param, ...) -> ret`. Each
//! parameter, and the return type, is a type expression: any number of
//! pointer markers `*`, then a type name. The last parameter may be the
//! variadic marker `...`; nothing but the closing parenthesis may follow
//! it. A comma may follow the last parameter. Without `-> ret` the
//! function returns `void`.

use vstd::prelude::*;
use vstd::string::*;
use crate::lexer::{
    is_ident_part, is_ident_start, lex, lexeme, tokens_in_text, tokens_of, Token, TokenKind,
};

verus! {

/// A type expression: `levels` pointer markers before the type name `name`.
#[derive(Clone, Debug, PartialEq, Eq)]
pub struct TypeExpr {
    pub levels: usize,
    pub name: String,
}

/// What a type expression says.
pub struct TypeExprSpec {
    pub levels: nat,
    pub name: Seq<char>,
}

impl View for TypeExpr {
    type V = TypeExprSpec;

    open spec fn view(&self) -> TypeExprSpec {
        TypeExprSpec { levels: self.levels as nat, name: self.name@ }
    }
}

/// A signature as it was written: the function's name, the type
/// expressions of its parameters, whether the variadic marker closes the
/// list, and the type expression of what it returns.
#[derive(Clone, Debug, PartialEq, Eq)]
pub struct FunHdr {
    pub name: String,
    pub args: Vec<TypeExpr>,
    pub ret: TypeExpr,
    pub is_var: bool,
}

/// What a written signature says.
pub struct HdrSpec {
    pub name: Seq<char>,
    pub args: Seq<TypeExprSpec>,
    pub ret: TypeExprSpec,
    pub is_var: bool,
}

/// What a list of type expressions says.
pub open spec fn exprs_view(v: Seq<TypeExpr>) -> Seq<TypeExprSpec> {
    Seq::new(v.len(), |i: int| v[i]@)
}

impl View for FunHdr {
    type V = HdrSpec;

    open spec fn view(&self) -> HdrSpec {
        HdrSpec {
            name: self.name@,
            args: exprs_view(self.args@),
            ret: self.ret@,
            is_var: self.is_var,
        }
    }
}

/// What a list of written signatures says.
pub open spec fn hdrs_view(v: Seq<FunHdr>) -> Seq<HdrSpec> {
    Seq::new(v.len(), |i: int| v[i]@)
}

/// The return type of a signature without a return clause.
pub open spec fn void_expr() -> TypeExprSpec {
    TypeExprSpec { levels: 0, name: "void"@ }
}

/// The kind of the token at `pos`, if there is a token at `pos`.
pub open spec fn kind_at(toks: Seq<Token>, pos: int) -> Option<TokenKind> {
    if 0 <= pos < toks.len() {
        Some(toks[pos].kind)
    } else {
        None
    }
}

/// The number of pointer markers in a row from `pos` on.
pub open spec fn stars_at(toks: Seq<Token>, pos: int) -> nat
    decreases toks.len() - pos,
{
    if kind_at(toks, pos) == Some(TokenKind::Star) {
        1 + stars_at(toks, pos + 1)
    } else {
        0
    }
}

/// The type expression that starts at `pos`, and the position after it.
pub open spec fn type_at(s: Seq<char>, toks: Seq<Token>, pos: int) -> Option<(TypeExprSpec, int)> {
    let levels = stars_at(toks, pos);
    let name = pos + levels;
    if kind_at(toks, name) == Some(TokenKind::Ident) {
        Some((TypeExprSpec { levels, name: lexeme(s, toks[name]) }, name + 1))
    } else {
        None
    }
}

/// The parameter list that starts at `pos`, behind the opening
/// parenthesis: the parameters, whether the variadic marker closes them,
/// and the position after the closing parenthesis.
pub open spec fn params_at(s: Seq<char>, toks: Seq<Token>, pos: int) -> Option<
    (Seq<TypeExprSpec>, bool, int),
>
    decreases toks.len() - pos,
{
    if kind_at(toks, pos) == Some(TokenKind::Close) {
        Some((Seq::empty(), false, pos + 1))
    } else if kind_at(toks, pos) == Some(TokenKind::Ellipsis) {
        if kind_at(toks, pos + 1) == Some(TokenKind::Close) {
            Some((Seq::empty(), true, pos + 2))
        } else {
            None
        }
    } else {
        match type_at(s, toks, pos) {
            None => None,
            Some((ty, next)) => if kind_at(toks, next) == Some(TokenKind::Close) {
                Some((seq![ty], false, next + 1))
            } else if kind_at(toks, next) == Some(TokenKind::Comma) && pos < next {
                match params_at(s, toks, next + 1) {
                    None => None,
                    Some((rest, var, end)) => Some((seq![ty] + rest, var, end)),
                }
            } else {
                None
            },
        }
    }
}

/// The signature that starts at `pos`, and the position after it.
pub open spec fn hdr_at(s: Seq<char>, toks: Seq<Token>, pos: int) -> Option<(HdrSpec, int)> {
    if kind_at(toks, pos) == Some(TokenKind::Ident) && kind_at(toks, pos + 1) == Some(
        TokenKind::Open,
    ) {
        match params_at(s, toks, pos + 2) {
            None => None,
            Some((args, is_var, after)) => {
                let name = lexeme(s, toks[pos]);
                if kind_at(toks, after) == Some(TokenKind::Arrow) {
                    match type_at(s, toks, after + 1) {
                        None => None,
                        Some((ret, end)) => Some((HdrSpec { name, args, ret, is_var }, end)),
                    }
                } else {
                    Some((HdrSpec { name, args, ret: void_expr(), is_var }, after))
                }
            },
        }
    } else {
        None
    }
}

/// The signatures from `pos` to the end of the tokens.
pub open spec fn batch_at(s: Seq<char>, toks: Seq<Token>, pos: int) -> Option<Seq<HdrSpec>>
    decreases toks.len() - pos,
{
    if pos < 0 || pos >= toks.len() {
        Some(Seq::empty())
    } else {
        match hdr_at(s, toks, pos) {
            None => None,
            Some((hdr, next)) => if next >= toks.len() {
                Some(seq![hdr])
            } else if toks[next].kind == TokenKind::Semi && pos < next {
                match batch_at(s, toks, next + 1) {
                    None => None,
                    Some(rest) => Some(seq![hdr] + rest),
                }
            } else {
                None
            },
        }
    }
}

/// The type expression that a text spells, if it spells one and nothing
/// else.
pub open spec fn type_of_text(s: Seq<char>) -> Option<TypeExprSpec> {
    match tokens_of(s) {
        None => None,
        Some(toks) => match type_at(s, toks, 0) {
            Some((ty, end)) if end == toks.len() => Some(ty),
            _ => None,
        },
    }
}

/// The signature that a text spells, if it spells one and nothing else.
pub open spec fn hdr_of_text(s: Seq<char>) -> Option<HdrSpec> {
    match tokens_of(s) {
        None => None,
        Some(toks) => match hdr_at(s, toks, 0) {
            Some((hdr, end)) if end == toks.len() => Some(hdr),
            _ => None,
        },
    }
}

/// The batch of signatures that a text spells, if it spells one.
pub open spec fn batch_of_text(s: Seq<char>) -> Option<Seq<HdrSpec>> {
    match tokens_of(s) {
        None => None,
        Some(toks) => batch_at(s, toks, 0),
    }
}

/// The parameters read so far, then what the rest of the list gives.
pub open spec fn args_then(
    read: Seq<TypeExprSpec>,
    rest: Option<(Seq<TypeExprSpec>, bool, int)>,
) -> Option<(Seq<TypeExprSpec>, bool, int)> {
    match rest {
        None => None,
        Some((r, var, end)) => Some((read + r, var, end)),
    }
}

/// The signatures read so far, then what the rest of the batch gives.
pub open spec fn hdrs_then(read: Seq<HdrSpec>, rest: Option<Seq<HdrSpec>>) -> Option<
    Seq<HdrSpec>,
> {
    match rest {
        None => None,
        Some(r) => Some(read + r),
    }
}

/// Reads the type expression that starts at `pos`.
fn parse_type_at(text: &str, toks: &Vec<Token>, pos: usize) -> (r: Option<(TypeExpr, usize)>)
    requires
        is_ascii(text),
        tokens_in_text(text@, toks@),
        pos <= toks@.len(),
    ensures
        match r {
            Some((ty, next)) => type_at(text@, toks@, pos as int) == Some((ty@, next as int))
                && pos < next <= toks@.len(),
            None => type_at(text@, toks@, pos as int) is None,
        },
{
    let mut p: usize = pos;
    while p < toks.len() && toks[p].kind == TokenKind::Star
        invariant
            pos <= p <= toks@.len(),
            stars_at(toks@, pos as int) == (p - pos) + stars_at(toks@, p as int),
        decreases toks@.len() - p,
    {
        p += 1;
    }
    if p < toks.len() && toks[p].kind == TokenKind::Ident {
        let t = toks[p];
        let name = text.substring_ascii(t.start, t.end).to_owned();
        Some((TypeExpr { levels: p - pos, name }, p + 1))
    } else {
        None
    }
}

/// Reads the parameter list that starts at `pos`, behind the opening
/// parenthesis.
fn parse_params_at(text: &str, toks: &Vec<Token>, pos: usize) -> (r: Option<
    (Vec<TypeExpr>, bool, usize),
>)
    requires
        is_ascii(text),
        tokens_in_text(text@, toks@),
        pos <= toks@.len(),
    ensures
        match r {
            Some((args, is_var, end)) => params_at(text@, toks@, pos as int) == Some(
                (exprs_view(args@), is_var, end as int),
            ) && pos < end <= toks@.len(),
            None => params_at(text@, toks@, pos as int) is None,
        },
{
    let n = toks.len();
    let mut args: Vec<TypeExpr> = Vec::new();
    let mut p: usize = pos;
    proof {
        let whole = params_at(text@, toks@, pos as int);
        if whole is Some {
            assert(exprs_view(args@) + whole.unwrap().0 =~= whole.unwrap().0);
        }
    }
    loop
        invariant
            n == toks@.len(),
            is_ascii(text),
            tokens_in_text(text@, toks@),
            pos <= p <= n,
            params_at(text@, toks@, pos as int) == args_then(
                exprs_view(args@),
                params_at(text@, toks@, p as int),
            ),
        decreases n - p,
    {
        if p >= n {
            return None;
        }
        let ghost read = exprs_view(args@);
        let kind = toks[p].kind;
        if kind == TokenKind::Close {
            proof {
                assert(read + Seq::<TypeExprSpec>::empty() =~= read);
            }
            return Some((args, false, p + 1));
        }
        if kind == TokenKind::Ellipsis {
            if n - p > 1 && toks[p + 1].kind == TokenKind::Close {
                proof {
                    assert(read + Seq::<TypeExprSpec>::empty() =~= read);
                }
                return Some((args, true, p + 2));
            }
            return None;
        }
        match parse_type_at(text, toks, p) {
            None => {
                return None;
            },
            Some((ty, next)) => {
                if next >= n {
                    return None;
                }
                let after = toks[next].kind;
                let ghost ty_spec = ty@;
                if after == TokenKind::Close {
                    args.push(ty);
                    proof {
                        assert(exprs_view(args@) =~= read + seq![ty_spec]);
                    }
                    return Some((args, false, next + 1));
                } else if after == TokenKind::Comma {
                    args.push(ty);
                    proof {
                        assert(exprs_view(args@) =~= read.push(ty_spec));
                        let rest = params_at(text@, toks@, next + 1);
                        if rest is Some {
                            assert(read.push(ty_spec) + rest.unwrap().0 =~= read + (seq![ty_spec]
                                + rest.unwrap().0));
                        }
                    }
                    p = next + 1;
                } else {
                    return None;
                }
            },
        }
    }
}

/// Reads the signature that starts at `pos`.
fn parse_hdr_at(text: &str, toks: &Vec<Token>, pos: usize) -> (r: Option<(FunHdr, usize)>)
    requires
        is_ascii(text),
        tokens_in_text(text@, toks@),
        pos <= toks@.len(),
    ensures
        match r {
            Some((hdr, end)) => hdr_at(text@, toks@, pos as int) == Some((hdr@, end as int))
                && pos < end <= toks@.len(),
            None => hdr_at(text@, toks@, pos as int) is None,
        },
{
    let n = toks.len();
    if n - pos < 2 {
        return None;
    }
    let first = toks[pos];
    if !(first.kind == TokenKind::Ident && toks[pos + 1].kind == TokenKind::Open) {
        return None;
    }
    match parse_params_at(text, toks, pos + 2) {
        None => None,
        Some((args, is_var, after)) => {
            let name = text.substring_ascii(first.start, first.end).to_owned();
            if after < n && toks[after].kind == TokenKind::Arrow {
                match parse_type_at(text, toks, after + 1) {
                    None => None,
                    Some((ret, end)) => Some((FunHdr { name, args, ret, is_var }, end)),
                }
            } else {
                let ret = TypeExpr { levels: 0, name: "void".to_owned() };
                Some((FunHdr { name, args, ret, is_var }, after))
            }
        },
    }
}

impl TypeExpr {
    /// Reads a type expression: any number of `*`, then a type name.
    /// Returns `None` where the text is anything else.
    pub fn parse(text: &str) -> (r: Option<TypeExpr>)
        ensures
            match r {
                Some(ty) => type_of_text(text@) == Some(ty@),
                None => type_of_text(text@) is None,
            },
    {
        match lex(text) {
            None => None,
            Some(toks) => match parse_type_at(text, &toks, 0) {
                None => None,
                Some((ty, end)) => if end == toks.len() {
                    Some(ty)
                } else {
                    None
                },
            },
        }
    }
}

impl FunHdr {
    /// Reads one signature. Returns `None` where the text is anything
    /// else.
    pub fn parse(text: &str) -> (r: Option<FunHdr>)
        ensures
            match r {
                Some(hdr) => hdr_of_text(text@) == Some(hdr@),
                None => hdr_of_text(text@) is None,
            },
    {
        match lex(text) {
            None => None,
            Some(toks) => match parse_hdr_at(text, &toks, 0) {
                None => None,
                Some((hdr, end)) => if end == toks.len() {
                    Some(hdr)
                } else {
                    None
                },
            },
        }
    }
}

/// Reads a batch of signatures. Returns `None` where the text is no batch;
/// no signature of a malformed batch is returned.
pub fn parse_signatures(text: &str) -> (r: Option<Vec<FunHdr>>)
    ensures
        match r {
            Some(hdrs) => batch_of_text(text@) == Some(hdrs_view(hdrs@)),
            None => batch_of_text(text@) is None,
        },
{
    let toks = match lex(text) {
        None => {
            return None;
        },
        Some(toks) => toks,
    };
    let n = toks.len();
    let mut hdrs: Vec<FunHdr> = Vec::new();
    let mut p: usize = 0;
    proof {
        let whole = batch_at(text@, toks@, 0);
        if whole is Some {
            assert(hdrs_view(hdrs@) + whole.unwrap() =~= whole.unwrap());
        }
    }
    while p < n
        invariant
            n == toks@.len(),
            is_ascii(text),
            tokens_of(text@) == Some(toks@),
            tokens_in_text(text@, toks@),
            p <= n,
            batch_at(text@, toks@, 0) == hdrs_then(hdrs_view(hdrs@), batch_at(text@, toks@, p as int)),
        decreases n - p,
    {
        let ghost read = hdrs_view(hdrs@);
        match parse_hdr_at(text, &toks, p) {
            None => {
                return None;
            },
            Some((hdr, next)) => {
                let ghost hdr_spec = hdr@;
                if next < n && toks[next].kind != TokenKind::Semi {
                    return None;
                }
                hdrs.push(hdr);
                proof {
                    assert(hdrs_view(hdrs@) =~= read.push(hdr_spec));
                    if next >= n {
                        assert(read.push(hdr_spec) =~= read + seq![hdr_spec]);
                        assert(batch_at(text@, toks@, n as int) == Some(Seq::<HdrSpec>::empty()));
                        assert(read.push(hdr_spec) + Seq::<HdrSpec>::empty() =~= read.push(
                            hdr_spec,
                        ));
                    } else {
                        let rest = batch_at(text@, toks@, next + 1);
                        if rest is Some {
                            assert(read.push(hdr_spec) + rest.unwrap() =~= read + (seq![hdr_spec]
                                + rest.unwrap()));
                        }
                    }
                }
                p = if next < n {
                    next + 1
                } else {
                    n
                };
            },
        }
    }
    proof {
        assert(hdrs_view(hdrs@) + Seq::<HdrSpec>::empty() =~= hdrs_view(hdrs@));
    }
    Some(hdrs)
}

/// The number of names among the tokens `from..to`.
pub open spec fn names_between(toks: Seq<Token>, from: int, to: int) -> nat
    decreases to - from,
{
    if from >= to {
        0
    } else if kind_at(toks, from) == Some(TokenKind::Ident) {
        1 + names_between(toks, from + 1, to)
    } else {
        names_between(toks, from + 1, to)
    }
}

/// Whether the variadic marker is among the tokens `from..to`.
pub open spec fn marker_between(toks: Seq<Token>, from: int, to: int) -> bool {
    exists|k: int| from <= k < to && #[trigger] kind_at(toks, k) == Some(TokenKind::Ellipsis)
}

/// Whether a parenthesis is among the tokens `from..to`.
pub open spec fn paren_between(toks: Seq<Token>, from: int, to: int) -> bool {
    exists|k: int|
        from <= k < to && (#[trigger] kind_at(toks, k) == Some(TokenKind::Open) || kind_at(toks, k)
            == Some(TokenKind::Close))
}

/// The names of `from..to` are those of `from..mid` and those of `mid..to`.
pub proof fn lemma_names_split(toks: Seq<Token>, from: int, mid: int, to: int)
    requires
        from <= mid <= to,
    ensures
        names_between(toks, from, to) == names_between(toks, from, mid) + names_between(
            toks,
            mid,
            to,
        ),
    decreases mid - from,
{
    if from < mid {
        lemma_names_split(toks, from + 1, mid, to);
    }
}

/// A run of pointer markers holds no name, no variadic marker and no
/// parenthesis.
pub proof fn lemma_stars_are_stars(toks: Seq<Token>, pos: int)
    requires
        0 <= pos,
    ensures
        forall|k: int|
            pos <= k < pos + stars_at(toks, pos) ==> #[trigger] kind_at(toks, k) == Some(
                TokenKind::Star,
            ),
        names_between(toks, pos, pos + stars_at(toks, pos)) == 0,
    decreases toks.len() - pos,
{
    if kind_at(toks, pos) == Some(TokenKind::Star) {
        lemma_stars_are_stars(toks, pos + 1);
    }
}

/// A type expression holds one name: its last token. Before the name
/// stand pointer markers only.
pub proof fn lemma_type_tokens(s: Seq<char>, toks: Seq<Token>, pos: int)
    requires
        0 <= pos,
        type_at(s, toks, pos) is Some,
    ensures
        ({
            let (ty, next) = type_at(s, toks, pos).unwrap();
            &&& next == pos + ty.levels + 1
            &&& next <= toks.len()
            &&& names_between(toks, pos, next) == 1
            &&& !marker_between(toks, pos, next)
            &&& !paren_between(toks, pos, next)
        }),
{
    let (ty, next) = type_at(s, toks, pos).unwrap();
    lemma_stars_are_stars(toks, pos);
    lemma_names_split(toks, pos, next - 1, next);
    assert(names_between(toks, next - 1, next) == 1) by {
        assert(names_between(toks, next, next) == 0);
    }
    assert forall|k: int| pos <= k < next implies #[trigger] kind_at(toks, k) != Some(
        TokenKind::Ellipsis,
    ) && kind_at(toks, k) != Some(TokenKind::Open) && kind_at(toks, k) != Some(
        TokenKind::Close,
    ) by {
        if k < next - 1 {
            assert(kind_at(toks, k) == Some(TokenKind::Star));
        }
    }
}

/// The parameters of a list are as many as the names between its
/// parentheses, and the list is variadic exactly if the variadic marker
/// stands between them. The list ends with the first closing parenthesis.
pub proof fn lemma_params_count(s: Seq<char>, toks: Seq<Token>, pos: int)
    requires
        0 <= pos,
        params_at(s, toks, pos) is Some,
    ensures
        ({
            let (args, is_var, end) = params_at(s, toks, pos).unwrap();
            &&& pos < end <= toks.len()
            &&& kind_at(toks, end - 1) == Some(TokenKind::Close)
            &&& !paren_between(toks, pos, end - 1)
            &&& args.len() == names_between(toks, pos, end - 1)
            &&& is_var <==> marker_between(toks, pos, end - 1)
        }),
    decreases toks.len() - pos,
{
    let (args, is_var, end) = params_at(s, toks, pos).unwrap();
    if kind_at(toks, pos) == Some(TokenKind::Close) {
    } else if kind_at(toks, pos) == Some(TokenKind::Ellipsis) {
        assert(names_between(toks, pos + 1, pos + 1) == 0);
        assert(kind_at(toks, pos) == Some(TokenKind::Ellipsis));
        assert(marker_between(toks, pos, pos + 1));
    } else {
        let (ty, next) = type_at(s, toks, pos).unwrap();
        lemma_type_tokens(s, toks, pos);
        if kind_at(toks, next) == Some(TokenKind::Close) {
            assert(args =~= seq![ty]);
        } else {
            let (rest, var, rest_end) = params_at(s, toks, next + 1).unwrap();
            lemma_params_count(s, toks, next + 1);
            assert(args =~= seq![ty] + rest);
            lemma_names_split(toks, pos, next, end - 1);
            lemma_names_split(toks, next, next + 1, end - 1);
            assert(names_between(toks, next, next + 1) == 0) by {
                assert(names_between(toks, next + 1, next + 1) == 0);
            }
            if marker_between(toks, next + 1, end - 1) {
                let k = choose|k: int|
                    next + 1 <= k < end - 1 && #[trigger] kind_at(toks, k) == Some(
                        TokenKind::Ellipsis,
                    );
                assert(pos <= k < end - 1 && kind_at(toks, k) == Some(TokenKind::Ellipsis));
            }
            if marker_between(toks, pos, end - 1) {
                let k = choose|k: int|
                    pos <= k < end - 1 && #[trigger] kind_at(toks, k) == Some(TokenKind::Ellipsis);
                if k < next {
                    assert(marker_between(toks, pos, next));
                }
                assert(next + 1 <= k < end - 1 && kind_at(toks, k) == Some(TokenKind::Ellipsis));
            }
            if paren_between(toks, pos, end - 1) {
                let k = choose|k: int|
                    pos <= k < end - 1 && (#[trigger] kind_at(toks, k) == Some(TokenKind::Open)
                        || kind_at(toks, k) == Some(TokenKind::Close));
                if k < next {
                    assert(paren_between(toks, pos, next));
                }
                assert(paren_between(toks, next + 1, end - 1));
            }
        }
    }
}

/// Of every signature that the grammar accepts: it has as many parameters
/// as there are type names between its parentheses, and it is variadic
/// exactly if the variadic marker stands between them.
pub proof fn lemma_signature_parameters(s: Seq<char>, toks: Seq<Token>, pos: int)
    requires
        0 <= pos,
        hdr_at(s, toks, pos) is Some,
    ensures
        ({
            let hdr = hdr_at(s, toks, pos).unwrap().0;
            let close = params_at(s, toks, pos + 2).unwrap().2 - 1;
            &&& kind_at(toks, pos + 1) == Some(TokenKind::Open)
            &&& kind_at(toks, close) == Some(TokenKind::Close)
            &&& !paren_between(toks, pos + 2, close)
            &&& hdr.args.len() == names_between(toks, pos + 2, close)
            &&& hdr.is_var <==> marker_between(toks, pos + 2, close)
        }),
{
    lemma_params_count(s, toks, pos + 2);
}

/// As many pointer markers as stand before a type name, so many levels
/// has the type expression: `n` markers in a row and then a name are read
/// as that name at level `n`.
pub proof fn lemma_pointer_markers(s: Seq<char>, toks: Seq<Token>, pos: int, n: nat)
    requires
        0 <= pos,
        forall|k: int| pos <= k < pos + n ==> #[trigger] kind_at(toks, k) == Some(TokenKind::Star),
        kind_at(toks, pos + n) == Some(TokenKind::Ident),
    ensures
        stars_at(toks, pos) == n,
        type_at(s, toks, pos) == Some(
            (TypeExprSpec { levels: n, name: lexeme(s, toks[pos + n]) }, pos + n + 1),
        ),
    decreases n,
{
    if n > 0 {
        assert(kind_at(toks, pos) == Some(TokenKind::Star));
        lemma_pointer_markers(s, toks, pos + 1, (n - 1) as nat);
    }
}

/// `name` is a name: a letter or `_`, then letters, digits and `_`.
pub open spec fn is_name(name: Seq<char>) -> bool {
    &&& name.len() > 0
    &&& is_ident_start(name[0])
    &&& forall|i: int| 0 <= i < name.len() ==> is_ident_part(#[trigger] name[i])
}

/// The text of a type expression: its pointer markers, then its name.
pub open spec fn type_text(ty: TypeExprSpec) -> Seq<char> {
    Seq::new(ty.levels, |i: int| '*') + ty.name
}

} // verus!

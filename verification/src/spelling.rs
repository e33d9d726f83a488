//! The text of a signature, and the proof that it is read back as the
//! signature.
//!
//! `hdr_text` writes a signature without blanks: the name, the
//! parameters between parentheses and separated by commas, the variadic
//! marker behind them where there is one, and the return clause.

use vstd::prelude::*;
use vstd::utf8::is_ascii_chars;
use crate::grammar::{
    hdr_at, hdr_of_text, is_name, kind_at, lemma_pointer_markers, params_at, type_at,
    type_of_text, type_text, HdrSpec, TypeExprSpec,
};
use crate::lexer::{
    followed_by, ident_end, is_ident_part, lex_from, lexeme, token, token_at, tokens_of, Token,
    TokenKind,
};

verus! {

/// `piece` stands in `s` at position `at`.
#[verifier::opaque]
pub open spec fn stands_at<A>(s: Seq<A>, at: int, piece: Seq<A>) -> bool {
    &&& 0 <= at
    &&& at + piece.len() <= s.len()
    &&& forall|k: int| 0 <= k < piece.len() ==> s[at + k] == #[trigger] piece[k]
}

/// The tokens of the text of a type expression that stands at `at`.
pub open spec fn type_tokens_at(ty: TypeExprSpec, at: int) -> Seq<Token> {
    Seq::new(
        ty.levels + 1,
        |k: int|
            if k < ty.levels {
                token(TokenKind::Star, at + k, at + k + 1)
            } else {
                token(TokenKind::Ident, at + ty.levels, at + ty.levels + ty.name.len())
            },
    )
}

/// The text of a parameter list from behind the opening parenthesis to
/// the closing one.
pub open spec fn params_text(args: Seq<TypeExprSpec>, is_var: bool) -> Seq<char>
    decreases args.len(),
{
    if args.len() == 0 {
        if is_var {
            seq!['.', '.', '.', ')']
        } else {
            seq![')']
        }
    } else if args.len() == 1 && !is_var {
        type_text(args[0]) + seq![')']
    } else {
        type_text(args[0]) + seq![','] + params_text(args.drop_first(), is_var)
    }
}

/// The tokens of the text of a parameter list that stands at `at`.
pub open spec fn params_tokens(args: Seq<TypeExprSpec>, is_var: bool, at: int) -> Seq<Token>
    decreases args.len(),
{
    if args.len() == 0 {
        if is_var {
            seq![token(TokenKind::Ellipsis, at, at + 3), token(TokenKind::Close, at + 3, at + 4)]
        } else {
            seq![token(TokenKind::Close, at, at + 1)]
        }
    } else {
        let behind = at + type_text(args[0]).len();
        if args.len() == 1 && !is_var {
            type_tokens_at(args[0], at) + seq![token(TokenKind::Close, behind, behind + 1)]
        } else {
            type_tokens_at(args[0], at) + seq![token(TokenKind::Comma, behind, behind + 1)]
                + params_tokens(args.drop_first(), is_var, behind + 1)
        }
    }
}

/// The text of a signature.
pub open spec fn hdr_text(hdr: HdrSpec) -> Seq<char> {
    hdr.name + seq!['('] + params_text(hdr.args, hdr.is_var) + seq!['-', '>'] + type_text(hdr.ret)
}

/// The tokens of the text of a signature.
pub open spec fn hdr_tokens(hdr: HdrSpec) -> Seq<Token> {
    let open = hdr.name.len() as int;
    let arrow = open + 1 + params_text(hdr.args, hdr.is_var).len();
    seq![token(TokenKind::Ident, 0, open), token(TokenKind::Open, open, open + 1)] + params_tokens(
        hdr.args,
        hdr.is_var,
        open + 1,
    ) + seq![token(TokenKind::Arrow, arrow, arrow + 2)] + type_tokens_at(hdr.ret, arrow + 2)
}

/// Every name of the signature is a name.
pub open spec fn names_valid(hdr: HdrSpec) -> bool {
    &&& is_name(hdr.name)
    &&& is_name(hdr.ret.name)
    &&& forall|i: int| 0 <= i < hdr.args.len() ==> is_name((#[trigger] hdr.args[i]).name)
}

/// A run of name characters ends where the first character that is none
/// stands, or where the text ends.
proof fn lemma_name_run(s: Seq<char>, i: int, end: int)
    requires
        0 <= i <= end <= s.len(),
        forall|k: int| i <= k < end ==> is_ident_part(#[trigger] s[k]),
        end == s.len() || !is_ident_part(s[end]),
    ensures
        ident_end(s, i) == end,
    decreases end - i,
{
    if i < end {
        lemma_name_run(s, i + 1, end);
    }
}

/// Where the text of a type expression stands in a text, and no name
/// character follows it, its tokens are read there.
proof fn lemma_lex_type(s: Seq<char>, at: int, ty: TypeExprSpec, k: int)
    requires
        s.len() <= usize::MAX,
        stands_at(s, at, type_text(ty)),
        is_name(ty.name),
        0 <= k <= ty.levels,
        at + type_text(ty).len() == s.len() || !is_ident_part(s[at + type_text(ty).len()]),
    ensures
        lex_from(s, at + k) == followed_by(
            type_tokens_at(ty, at).skip(k),
            lex_from(s, at + type_text(ty).len()),
        ),
    decreases ty.levels - k,
{
    reveal(stands_at);
    let text = type_text(ty);
    let n = ty.levels as int;
    let toks = type_tokens_at(ty, at);
    let end = at + text.len();
    let rest = lex_from(s, end);
    if k < n {
        lemma_lex_type(s, at, ty, k + 1);
        assert(s[at + k] == text[k]);
        assert(token_at(s, at + k) == Some(token(TokenKind::Star, at + k, at + k + 1)));
        assert(toks.skip(k) =~= seq![toks[k]] + toks.skip(k + 1));
        if rest is Some {
            assert(toks.skip(k) + rest.unwrap() =~= seq![toks[k]] + (toks.skip(k + 1)
                + rest.unwrap()));
        }
    } else {
        assert(s[at + n] == text[n]);
        assert(text[n] == ty.name[0]);
        assert forall|j: int| at + n <= j < end implies is_ident_part(#[trigger] s[j]) by {
            assert(s[at + (j - at)] == text[j - at]);
            assert(text[j - at] == ty.name[j - at - n]);
        }
        lemma_name_run(s, at + n + 1, end);
        assert(token_at(s, at + n) == Some(token(TokenKind::Ident, at + n, end)));
        assert(toks.skip(n) =~= seq![toks[n]]);
    }
}

/// What stands at a place stands there piece by piece.
proof fn lemma_stands_split<A>(s: Seq<A>, at: int, a: Seq<A>, b: Seq<A>)
    requires
        stands_at(s, at, a + b),
    ensures
        stands_at(s, at, a),
        stands_at(s, at + a.len(), b),
{
    reveal(stands_at);
    assert forall|k: int| 0 <= k < a.len() implies s[at + k] == #[trigger] a[k] by {
        assert((a + b)[k] == a[k]);
    }
    assert forall|k: int| 0 <= k < b.len() implies s[at + a.len() + k] == #[trigger] b[k] by {
        assert((a + b)[a.len() + k] == b[k]);
        assert(s[at + (a.len() + k)] == (a + b)[a.len() + k]);
    }
}

/// What stands at a place begins with its first element there.
proof fn lemma_stands_first<A>(s: Seq<A>, at: int, piece: Seq<A>, k: int)
    requires
        stands_at(s, at, piece),
        0 <= k < piece.len(),
    ensures
        0 <= at + k < s.len(),
        s[at + k] == piece[k],
{
    reveal(stands_at);
}

/// A token that is read at a place stands before the tokens that are
/// read behind it.
proof fn lemma_lex_one(s: Seq<char>, at: int, t: Token)
    requires
        0 <= at < s.len(),
        token_at(s, at) == Some(t),
        at < t.end <= s.len(),
        s[at] != ' ' && s[at] != '\t' && s[at] != '\n' && s[at] != '\r',
    ensures
        lex_from(s, at) == followed_by(seq![t], lex_from(s, t.end as int)),
{
}

/// Tokens before tokens before the rest are the tokens put together
/// before the rest.
proof fn lemma_followed_twice(a: Seq<Token>, b: Seq<Token>, rest: Option<Seq<Token>>)
    ensures
        followed_by(a, followed_by(b, rest)) == followed_by(a + b, rest),
{
    if rest is Some {
        assert(a + (b + rest.unwrap()) =~= (a + b) + rest.unwrap());
    }
}

/// Where the closing parenthesis stands, it is read.
proof fn lemma_lex_punct(s: Seq<char>, at: int, c: char, kind: TokenKind)
    requires
        s.len() <= usize::MAX,
        0 <= at < s.len(),
        s[at] == c,
        (c == ')' && kind == TokenKind::Close) || (c == ',' && kind == TokenKind::Comma) || (c == '('
            && kind == TokenKind::Open),
    ensures
        lex_from(s, at) == followed_by(seq![token(kind, at, at + 1)], lex_from(s, at + 1)),
{
    lemma_lex_one(s, at, token(kind, at, at + 1));
}

/// Where the variadic marker stands, it is read.
proof fn lemma_lex_marker(s: Seq<char>, at: int)
    requires
        s.len() <= usize::MAX,
        stands_at(s, at, seq!['.', '.', '.']),
    ensures
        lex_from(s, at) == followed_by(
            seq![token(TokenKind::Ellipsis, at, at + 3)],
            lex_from(s, at + 3),
        ),
{
    let dots = seq!['.', '.', '.'];
    lemma_stands_first(s, at, dots, 0);
    lemma_stands_first(s, at, dots, 1);
    lemma_stands_first(s, at, dots, 2);
    lemma_lex_one(s, at, token(TokenKind::Ellipsis, at, at + 3));
}

/// Where the arrow stands, it is read.
proof fn lemma_lex_arrow(s: Seq<char>, at: int)
    requires
        s.len() <= usize::MAX,
        stands_at(s, at, seq!['-', '>']),
    ensures
        lex_from(s, at) == followed_by(seq![token(TokenKind::Arrow, at, at + 2)], lex_from(s, at + 2)),
{
    let arrow = seq!['-', '>'];
    lemma_stands_first(s, at, arrow, 0);
    lemma_stands_first(s, at, arrow, 1);
    lemma_lex_one(s, at, token(TokenKind::Arrow, at, at + 2));
}

/// Where the text of a type expression stands before a comma, a closing
/// parenthesis or the end of the text, its tokens are read there.
proof fn lemma_lex_type_before(s: Seq<char>, at: int, ty: TypeExprSpec)
    requires
        s.len() <= usize::MAX,
        stands_at(s, at, type_text(ty)),
        is_name(ty.name),
        at + type_text(ty).len() == s.len() || s[at + type_text(ty).len()] == ',' || s[at
            + type_text(ty).len()] == ')',
    ensures
        lex_from(s, at) == followed_by(type_tokens_at(ty, at), lex_from(s, at + type_text(ty).len())),
{
    lemma_lex_type(s, at, ty, 0);
    assert(type_tokens_at(ty, at).skip(0) =~= type_tokens_at(ty, at));
}

/// Where the text of an empty parameter list stands in a text, its
/// tokens are read there.
proof fn lemma_lex_no_params(s: Seq<char>, at: int, is_var: bool)
    requires
        s.len() <= usize::MAX,
        stands_at(s, at, params_text(Seq::empty(), is_var)),
    ensures
        lex_from(s, at) == followed_by(
            params_tokens(Seq::empty(), is_var, at),
            lex_from(s, at + params_text(Seq::empty(), is_var).len()),
        ),
{
    let none = Seq::<TypeExprSpec>::empty();
    let rest = lex_from(s, at + params_text(none, is_var).len());
    if is_var {
        let dots = seq!['.', '.', '.'];
        assert(params_text(none, is_var) =~= dots + seq![')']);
        lemma_stands_split(s, at, dots, seq![')']);
        lemma_stands_first(s, at + 3, seq![')'], 0);
        lemma_lex_marker(s, at);
        lemma_lex_punct(s, at + 3, ')', TokenKind::Close);
        lemma_followed_twice(
            seq![token(TokenKind::Ellipsis, at, at + 3)],
            seq![token(TokenKind::Close, at + 3, at + 4)],
            rest,
        );
        assert(params_tokens(none, is_var, at) =~= seq![token(TokenKind::Ellipsis, at, at + 3)]
            + seq![token(TokenKind::Close, at + 3, at + 4)]);
    } else {
        lemma_stands_first(s, at, seq![')'], 0);
        lemma_lex_punct(s, at, ')', TokenKind::Close);
    }
}

/// Where the text of a parameter list of one parameter, and no variadic
/// marker, stands in a text, its tokens are read there.
proof fn lemma_lex_last_param(s: Seq<char>, at: int, last: TypeExprSpec)
    requires
        s.len() <= usize::MAX,
        stands_at(s, at, type_text(last) + seq![')']),
        is_name(last.name),
    ensures
        ({
            let behind = at + type_text(last).len();
            lex_from(s, at) == followed_by(
                type_tokens_at(last, at) + seq![token(TokenKind::Close, behind, behind + 1)],
                lex_from(s, behind + 1),
            )
        }),
{
    let behind = at + type_text(last).len();
    lemma_stands_split(s, at, type_text(last), seq![')']);
    lemma_stands_first(s, behind, seq![')'], 0);
    lemma_lex_type_before(s, at, last);
    lemma_lex_punct(s, behind, ')', TokenKind::Close);
    lemma_followed_twice(
        type_tokens_at(last, at),
        seq![token(TokenKind::Close, behind, behind + 1)],
        lex_from(s, behind + 1),
    );
}

/// Where the text of a parameter and the comma behind it stand in a text,
/// their tokens are read there.
proof fn lemma_lex_param_and_comma(s: Seq<char>, at: int, first: TypeExprSpec)
    requires
        s.len() <= usize::MAX,
        stands_at(s, at, type_text(first) + seq![',']),
        is_name(first.name),
    ensures
        ({
            let behind = at + type_text(first).len();
            lex_from(s, at) == followed_by(
                type_tokens_at(first, at) + seq![token(TokenKind::Comma, behind, behind + 1)],
                lex_from(s, behind + 1),
            )
        }),
{
    let behind = at + type_text(first).len();
    lemma_stands_split(s, at, type_text(first), seq![',']);
    lemma_stands_first(s, behind, seq![','], 0);
    lemma_lex_type_before(s, at, first);
    lemma_lex_punct(s, behind, ',', TokenKind::Comma);
    lemma_followed_twice(
        type_tokens_at(first, at),
        seq![token(TokenKind::Comma, behind, behind + 1)],
        lex_from(s, behind + 1),
    );
}

/// Where the text of a parameter list stands in a text, its tokens are
/// read there.
proof fn lemma_lex_params(s: Seq<char>, at: int, args: Seq<TypeExprSpec>, is_var: bool)
    requires
        s.len() <= usize::MAX,
        stands_at(s, at, params_text(args, is_var)),
        forall|i: int| 0 <= i < args.len() ==> is_name((#[trigger] args[i]).name),
    ensures
        lex_from(s, at) == followed_by(
            params_tokens(args, is_var, at),
            lex_from(s, at + params_text(args, is_var).len()),
        ),
    decreases args.len(),
{
    if args.len() == 0 {
        assert(args =~= Seq::<TypeExprSpec>::empty());
        lemma_lex_no_params(s, at, is_var);
    } else if args.len() == 1 && !is_var {
        assert(is_name(args[0].name));
        lemma_lex_last_param(s, at, args[0]);
    } else {
        let first = args[0];
        let behind = at + type_text(first).len();
        let later = args.drop_first();
        let tail = params_text(later, is_var);
        let head_toks = type_tokens_at(first, at) + seq![
            token(TokenKind::Comma, behind, behind + 1),
        ];
        let tail_toks = params_tokens(later, is_var, behind + 1);
        assert(is_name(first.name));
        assert(params_text(args, is_var) =~= (type_text(first) + seq![',']) + tail);
        lemma_stands_split(s, at, type_text(first) + seq![','], tail);
        lemma_lex_param_and_comma(s, at, first);
        assert forall|i: int| 0 <= i < later.len() implies is_name((#[trigger] later[i]).name) by {
            assert(later[i] == args[i + 1]);
        }
        lemma_lex_params(s, behind + 1, later, is_var);
        lemma_followed_twice(head_toks, tail_toks, lex_from(s, behind + 1 + tail.len()));
    }
}

/// Where the tokens of a type expression stand among the tokens of a
/// text in which its text stands, the type expression is read there.
proof fn lemma_parse_type(s: Seq<char>, toks: Seq<Token>, p: int, ty: TypeExprSpec, at: int)
    requires
        s.len() <= usize::MAX,
        stands_at(s, at, type_text(ty)),
        stands_at(toks, p, type_tokens_at(ty, at)),
    ensures
        type_at(s, toks, p) == Some((ty, p + ty.levels + 1)),
{
    reveal(stands_at);
    let piece = type_tokens_at(ty, at);
    let n = ty.levels as int;
    assert forall|k: int| p <= k < p + n implies #[trigger] kind_at(toks, k) == Some(
        TokenKind::Star,
    ) by {
        assert(toks[p + (k - p)] == piece[k - p]);
    }
    assert(toks[p + n] == piece[n]);
    lemma_pointer_markers(s, toks, p, ty.levels);
    let text = type_text(ty);
    assert(lexeme(s, toks[p + n]) =~= ty.name) by {
        assert forall|j: int| 0 <= j < ty.name.len() implies s[at + n + j] == ty.name[j] by {
            assert(s[at + (n + j)] == text[n + j]);
        }
    }
}

/// Where the tokens of a parameter list stand among the tokens of a text
/// in which its text stands, the parameter list is read there.
proof fn lemma_parse_params(
    s: Seq<char>,
    toks: Seq<Token>,
    p: int,
    args: Seq<TypeExprSpec>,
    is_var: bool,
    at: int,
)
    requires
        s.len() <= usize::MAX,
        stands_at(s, at, params_text(args, is_var)),
        stands_at(toks, p, params_tokens(args, is_var, at)),
    ensures
        params_at(s, toks, p) == Some((args, is_var, p + params_tokens(args, is_var, at).len())),
    decreases args.len(),
{
    let piece = params_tokens(args, is_var, at);
    if args.len() == 0 {
        lemma_stands_first(toks, p, piece, 0);
        if is_var {
            lemma_stands_first(toks, p, piece, 1);
        }
        assert(args =~= Seq::<TypeExprSpec>::empty());
    } else {
        let first = args[0];
        let first_text = type_text(first);
        let first_toks = type_tokens_at(first, at);
        let behind = at + first_text.len();
        let next = p + first.levels + 1;
        if args.len() == 1 && !is_var {
            let close = seq![token(TokenKind::Close, behind, behind + 1)];
            lemma_stands_split(s, at, first_text, seq![')']);
            lemma_stands_split(toks, p, first_toks, close);
            lemma_parse_type(s, toks, p, first, at);
            lemma_stands_first(toks, p, first_toks, 0);
            lemma_stands_first(toks, next, close, 0);
            assert(args =~= seq![first]);
        } else {
            let later = args.drop_first();
            let tail = params_text(later, is_var);
            let comma = seq![token(TokenKind::Comma, behind, behind + 1)];
            let tail_toks = params_tokens(later, is_var, behind + 1);
            assert(params_text(args, is_var) =~= first_text + (seq![','] + tail));
            assert(piece =~= first_toks + (comma + tail_toks));
            lemma_stands_split(s, at, first_text, seq![','] + tail);
            lemma_stands_split(s, behind, seq![','], tail);
            lemma_stands_split(toks, p, first_toks, comma + tail_toks);
            lemma_stands_split(toks, next, comma, tail_toks);
            lemma_parse_type(s, toks, p, first, at);
            lemma_stands_first(toks, p, first_toks, 0);
            lemma_stands_first(toks, next, comma, 0);
            lemma_parse_params(s, toks, next + 1, later, is_var, behind + 1);
            assert(args =~= seq![first] + later);
        }
    }
}

/// The text of a type expression is plain ASCII.
proof fn lemma_type_text_ascii(ty: TypeExprSpec)
    requires
        is_name(ty.name),
    ensures
        is_ascii_chars(type_text(ty)),
{
    let text = type_text(ty);
    assert forall|i: int| 0 <= i < text.len() implies '\0' <= #[trigger] text[i] <= '\u{7f}' by {
        if i >= ty.levels {
            assert(text[i] == ty.name[i - ty.levels]);
            assert(is_ident_part(ty.name[i - ty.levels]));
        }
    }
}

/// The text of a parameter list is plain ASCII.
proof fn lemma_params_text_ascii(args: Seq<TypeExprSpec>, is_var: bool)
    requires
        forall|i: int| 0 <= i < args.len() ==> is_name((#[trigger] args[i]).name),
    ensures
        is_ascii_chars(params_text(args, is_var)),
    decreases args.len(),
{
    let text = params_text(args, is_var);
    if args.len() == 0 {
    } else {
        let first_text = type_text(args[0]);
        assert(is_name(args[0].name));
        lemma_type_text_ascii(args[0]);
        if args.len() == 1 && !is_var {
            assert forall|i: int| 0 <= i < text.len() implies '\0' <= #[trigger] text[i]
                <= '\u{7f}' by {
                if i < first_text.len() {
                    assert(text[i] == first_text[i]);
                }
            }
        } else {
            let later = args.drop_first();
            let tail = params_text(later, is_var);
            assert forall|i: int| 0 <= i < later.len() implies is_name((#[trigger] later[i]).name) by {
                assert(later[i] == args[i + 1]);
            }
            lemma_params_text_ascii(later, is_var);
            assert forall|i: int| 0 <= i < text.len() implies '\0' <= #[trigger] text[i]
                <= '\u{7f}' by {
                if i < first_text.len() {
                    assert(text[i] == first_text[i]);
                } else if i > first_text.len() {
                    assert(text[i] == tail[i - first_text.len() - 1]);
                }
            }
        }
    }
}

/// As many pointer markers as a text has before its type name, so many
/// levels has the type expression that it spells: the text of `levels`
/// markers and a name is read as that name at that level, whatever the
/// number of markers.
pub proof fn lemma_markers_count(ty: TypeExprSpec)
    requires
        is_name(ty.name),
        ty.levels + ty.name.len() <= usize::MAX,
    ensures
        tokens_of(type_text(ty)) == Some(type_tokens_at(ty, 0)),
        type_of_text(type_text(ty)) == Some(ty),
{
    let s = type_text(ty);
    let toks = type_tokens_at(ty, 0);
    lemma_type_text_ascii(ty);
    assert(stands_at(s, 0, s) && stands_at(toks, 0, toks)) by {
        reveal(stands_at);
    }
    lemma_lex_type(s, 0, ty, 0);
    assert(toks.skip(0) =~= toks);
    assert(lex_from(s, s.len() as int) == Some(Seq::<Token>::empty()));
    assert(toks + Seq::<Token>::empty() =~= toks);
    lemma_parse_type(s, toks, 0, ty, 0);
}

/// Where the arrow stands in the text of a signature.
pub open spec fn arrow_at(hdr: HdrSpec) -> int {
    (hdr.name.len() + 1 + params_text(hdr.args, hdr.is_var).len()) as int
}

/// The parts of the text of a signature stand in it one behind the other.
proof fn lemma_text_layout(hdr: HdrSpec)
    ensures
        ({
            let s = hdr_text(hdr);
            let open = hdr.name.len() as int;
            let arrow = arrow_at(hdr);
            &&& stands_at(s, 0, hdr.name)
            &&& stands_at(s, open, seq!['('])
            &&& stands_at(s, open + 1, params_text(hdr.args, hdr.is_var))
            &&& stands_at(s, arrow, seq!['-', '>'])
            &&& stands_at(s, arrow + 2, type_text(hdr.ret))
            &&& s.len() == arrow + 2 + type_text(hdr.ret).len()
        }),
{
    let s = hdr_text(hdr);
    let params = params_text(hdr.args, hdr.is_var);
    let ret_text = type_text(hdr.ret);
    let open = hdr.name.len() as int;
    let arrow = arrow_at(hdr);
    assert(s =~= hdr.name + (seq!['('] + (params + (seq!['-', '>'] + ret_text))));
    assert(stands_at(s, 0, s)) by {
        reveal(stands_at);
    }
    lemma_stands_split(s, 0, hdr.name, seq!['('] + (params + (seq!['-', '>'] + ret_text)));
    lemma_stands_split(s, open, seq!['('], params + (seq!['-', '>'] + ret_text));
    lemma_stands_split(s, open + 1, params, seq!['-', '>'] + ret_text);
    lemma_stands_split(s, arrow, seq!['-', '>'], ret_text);
}

/// The parts of the tokens of a signature stand among them one behind
/// the other.
proof fn lemma_tokens_layout(hdr: HdrSpec)
    ensures
        ({
            let toks = hdr_tokens(hdr);
            let open = hdr.name.len() as int;
            let arrow = arrow_at(hdr);
            let params_toks = params_tokens(hdr.args, hdr.is_var, open + 1);
            let after = 2 + params_toks.len() as int;
            &&& toks[0] == token(TokenKind::Ident, 0, open)
            &&& toks[1] == token(TokenKind::Open, open, open + 1)
            &&& stands_at(toks, 2, params_toks)
            &&& toks[after] == token(TokenKind::Arrow, arrow, arrow + 2)
            &&& stands_at(toks, after + 1, type_tokens_at(hdr.ret, arrow + 2))
            &&& toks.len() == after + 1 + hdr.ret.levels + 1
        }),
{
    let toks = hdr_tokens(hdr);
    let open = hdr.name.len() as int;
    let arrow = arrow_at(hdr);
    let head = seq![token(TokenKind::Ident, 0, open), token(TokenKind::Open, open, open + 1)];
    let params_toks = params_tokens(hdr.args, hdr.is_var, open + 1);
    let arrow_toks = seq![token(TokenKind::Arrow, arrow, arrow + 2)];
    let ret_toks = type_tokens_at(hdr.ret, arrow + 2);
    let after = 2 + params_toks.len() as int;
    assert(toks =~= head + (params_toks + (arrow_toks + ret_toks)));
    assert(stands_at(toks, 0, toks)) by {
        reveal(stands_at);
    }
    lemma_stands_split(toks, 0, head, params_toks + (arrow_toks + ret_toks));
    lemma_stands_split(toks, 2, params_toks, arrow_toks + ret_toks);
    lemma_stands_split(toks, after, arrow_toks, ret_toks);
    lemma_stands_first(toks, 0, head, 0);
    lemma_stands_first(toks, 0, head, 1);
    lemma_stands_first(toks, after, arrow_toks, 0);
}

/// The text of a signature whose names are names is plain ASCII.
proof fn lemma_hdr_text_ascii(hdr: HdrSpec)
    requires
        names_valid(hdr),
    ensures
        is_ascii_chars(hdr_text(hdr)),
{
    let s = hdr_text(hdr);
    let name = TypeExprSpec { levels: 0, name: hdr.name };
    let params = params_text(hdr.args, hdr.is_var);
    let ret_text = type_text(hdr.ret);
    let open = hdr.name.len() as int;
    let arrow = arrow_at(hdr);
    assert(type_text(name) =~= hdr.name);
    lemma_type_text_ascii(name);
    lemma_type_text_ascii(hdr.ret);
    lemma_params_text_ascii(hdr.args, hdr.is_var);
    assert forall|i: int| 0 <= i < s.len() implies '\0' <= #[trigger] s[i] <= '\u{7f}' by {
        if i < open {
            assert(s[i] == hdr.name[i]);
        } else if i == open {
        } else if i < arrow {
            assert(s[i] == params[i - open - 1]);
        } else if i < arrow + 2 {
            assert(s[i] == seq!['-', '>'][i - arrow]);
        } else {
            assert(s[i] == ret_text[i - arrow - 2]);
        }
    }
}

/// The text of a signature has the tokens of the signature.
proof fn lemma_hdr_text_lexes(hdr: HdrSpec)
    requires
        names_valid(hdr),
        hdr_text(hdr).len() <= usize::MAX,
    ensures
        lex_from(hdr_text(hdr), 0) == Some(hdr_tokens(hdr)),
{
    let s = hdr_text(hdr);
    let toks = hdr_tokens(hdr);
    let name = TypeExprSpec { levels: 0, name: hdr.name };
    let open = hdr.name.len() as int;
    let arrow = arrow_at(hdr);
    let name_toks = seq![token(TokenKind::Ident, 0, open)];
    let open_toks = seq![token(TokenKind::Open, open, open + 1)];
    let params_toks = params_tokens(hdr.args, hdr.is_var, open + 1);
    let arrow_toks = seq![token(TokenKind::Arrow, arrow, arrow + 2)];
    let ret_toks = type_tokens_at(hdr.ret, arrow + 2);
    lemma_text_layout(hdr);
    assert(type_text(name) =~= hdr.name);
    assert(type_tokens_at(name, 0) =~= name_toks);
    lemma_stands_first(s, open, seq!['('], 0);

    let at_end = lex_from(s, s.len() as int);
    assert(at_end == Some(Seq::<Token>::empty()));
    lemma_lex_type(s, arrow + 2, hdr.ret, 0);
    assert(ret_toks.skip(0) =~= ret_toks);
    lemma_lex_arrow(s, arrow);
    lemma_lex_params(s, open + 1, hdr.args, hdr.is_var);
    lemma_lex_punct(s, open, '(', TokenKind::Open);
    lemma_lex_type(s, 0, name, 0);
    assert(name_toks.skip(0) =~= name_toks);
    lemma_followed_twice(arrow_toks, ret_toks, at_end);
    lemma_followed_twice(params_toks, arrow_toks + ret_toks, at_end);
    lemma_followed_twice(open_toks, params_toks + (arrow_toks + ret_toks), at_end);
    lemma_followed_twice(name_toks, open_toks + (params_toks + (arrow_toks + ret_toks)), at_end);
    assert(toks =~= name_toks + (open_toks + (params_toks + (arrow_toks + ret_toks))));
    assert(toks + Seq::<Token>::empty() =~= toks);
}

/// The tokens of a signature are read as the signature.
proof fn lemma_hdr_tokens_parse(hdr: HdrSpec)
    requires
        hdr_text(hdr).len() <= usize::MAX,
    ensures
        hdr_at(hdr_text(hdr), hdr_tokens(hdr), 0) == Some((hdr, hdr_tokens(hdr).len() as int)),
{
    let s = hdr_text(hdr);
    let toks = hdr_tokens(hdr);
    let open = hdr.name.len() as int;
    let arrow = arrow_at(hdr);
    let params_toks = params_tokens(hdr.args, hdr.is_var, open + 1);
    let after = 2 + params_toks.len() as int;
    lemma_text_layout(hdr);
    lemma_tokens_layout(hdr);
    lemma_parse_params(s, toks, 2, hdr.args, hdr.is_var, open + 1);
    lemma_parse_type(s, toks, after + 1, hdr.ret, arrow + 2);
    assert(lexeme(s, toks[0]) =~= hdr.name) by {
        reveal(stands_at);
    }
}

/// A signature that is written is read back: the text of a signature
/// whose names are names has the tokens of the signature, and is read as
/// the signature.
pub proof fn lemma_written_is_read(hdr: HdrSpec)
    requires
        names_valid(hdr),
        hdr_text(hdr).len() <= usize::MAX,
    ensures
        tokens_of(hdr_text(hdr)) == Some(hdr_tokens(hdr)),
        hdr_of_text(hdr_text(hdr)) == Some(hdr),
{
    lemma_hdr_text_ascii(hdr);
    lemma_hdr_text_lexes(hdr);
    lemma_hdr_tokens_parse(hdr);
}

} // verus!

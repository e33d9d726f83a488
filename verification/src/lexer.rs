//! Splitting the text of a batch of signatures into tokens.
//!
//! A token is a kind and the place of its characters in the text. Blanks
//! separate tokens and are otherwise ignored; any other character that
//! starts no token makes the whole text invalid.

use vstd::prelude::*;
use vstd::string::*;
use vstd::utf8::*;

verus! {

/// The kinds of token.
#[derive(Clone, Copy, Debug, PartialEq, Eq, Structural)]
pub enum TokenKind {
    /// A name: a letter or `_`, then letters, digits and `_`.
    Ident,
    /// The pointer marker `*`.
    Star,
    /// The variadic marker `...`.
    Ellipsis,
    /// `,`
    Comma,
    /// `(`
    Open,
    /// `)`
    Close,
    /// `->`
    Arrow,
    /// `;`
    Semi,
}

/// A token: its kind, and the range `start..end` of its characters.
#[derive(Clone, Copy, Debug, PartialEq, Eq, Structural)]
pub struct Token {
    pub kind: TokenKind,
    pub start: usize,
    pub end: usize,
}

pub open spec fn is_space(c: char) -> bool {
    c == ' ' || c == '\t' || c == '\n' || c == '\r'
}

pub open spec fn is_ident_start(c: char) -> bool {
    ('a' <= c && c <= 'z') || ('A' <= c && c <= 'Z') || c == '_'
}

pub open spec fn is_ident_part(c: char) -> bool {
    is_ident_start(c) || ('0' <= c && c <= '9')
}

/// Where the run of name characters that holds position `i` ends.
pub open spec fn ident_end(s: Seq<char>, i: int) -> int
    decreases s.len() - i,
{
    if 0 <= i < s.len() && is_ident_part(s[i]) {
        ident_end(s, i + 1)
    } else {
        i
    }
}

/// The token of kind `kind` on the characters `start..end`.
pub open spec fn token(kind: TokenKind, start: int, end: int) -> Token {
    Token { kind, start: start as usize, end: end as usize }
}

/// The token that starts at position `i` of `s`, if one starts there. A
/// name runs as far as name characters follow.
pub open spec fn token_at(s: Seq<char>, i: int) -> Option<Token>
    recommends
        0 <= i < s.len(),
{
    let c = s[i];
    if c == '*' {
        Some(token(TokenKind::Star, i, i + 1))
    } else if c == ',' {
        Some(token(TokenKind::Comma, i, i + 1))
    } else if c == '(' {
        Some(token(TokenKind::Open, i, i + 1))
    } else if c == ')' {
        Some(token(TokenKind::Close, i, i + 1))
    } else if c == ';' {
        Some(token(TokenKind::Semi, i, i + 1))
    } else if c == '-' {
        if i + 1 < s.len() && s[i + 1] == '>' {
            Some(token(TokenKind::Arrow, i, i + 2))
        } else {
            None
        }
    } else if c == '.' {
        if i + 2 < s.len() && s[i + 1] == '.' && s[i + 2] == '.' {
            Some(token(TokenKind::Ellipsis, i, i + 3))
        } else {
            None
        }
    } else if is_ident_start(c) {
        Some(token(TokenKind::Ident, i, ident_end(s, i + 1)))
    } else {
        None
    }
}

/// The tokens of `s` from position `i` on; `None` where a character
/// starts no token.
pub open spec fn lex_from(s: Seq<char>, i: int) -> Option<Seq<Token>>
    decreases s.len() - i,
{
    if i < 0 || i >= s.len() {
        Some(Seq::empty())
    } else if is_space(s[i]) {
        lex_from(s, i + 1)
    } else {
        match token_at(s, i) {
            None => None,
            Some(t) => if i < t.end <= s.len() {
                match lex_from(s, t.end as int) {
                    None => None,
                    Some(rest) => Some(seq![t] + rest),
                }
            } else {
                None
            },
        }
    }
}

/// The tokens of a text. A text with a character outside ASCII has none.
pub open spec fn tokens_of(s: Seq<char>) -> Option<Seq<Token>> {
    if is_ascii_chars(s) {
        lex_from(s, 0)
    } else {
        None
    }
}

/// Every token lies within the text and is not empty.
pub open spec fn tokens_in_text(s: Seq<char>, toks: Seq<Token>) -> bool {
    forall|k: int| 0 <= k < toks.len() ==> (#[trigger] toks[k]).start < toks[k].end <= s.len()
}

/// The characters of a token.
pub open spec fn lexeme(s: Seq<char>, t: Token) -> Seq<char> {
    s.subrange(t.start as int, t.end as int)
}

fn is_space_byte(b: u8) -> (yes: bool)
    ensures
        yes == is_space(b as char),
{
    b == 32 || b == 9 || b == 10 || b == 13
}

fn is_ident_start_byte(b: u8) -> (yes: bool)
    ensures
        yes == is_ident_start(b as char),
{
    (97 <= b && b <= 122) || (65 <= b && b <= 90) || b == 95
}

fn is_ident_part_byte(b: u8) -> (yes: bool)
    ensures
        yes == is_ident_part(b as char),
{
    is_ident_start_byte(b) || (48 <= b && b <= 57)
}

/// `followed` when `rest` is known: the tokens read so far, then `rest`.
pub open spec fn followed_by(read: Seq<Token>, rest: Option<Seq<Token>>) -> Option<Seq<Token>> {
    match rest {
        None => None,
        Some(r) => Some(read + r),
    }
}

/// The bytes are the characters of `s`, one byte for each.
pub open spec fn bytes_spell(bytes: Seq<u8>, s: Seq<char>) -> bool {
    &&& bytes.len() == s.len()
    &&& forall|k: int| 0 <= k < bytes.len() ==> (#[trigger] bytes[k]) as char == s[k]
}

/// Reads the name that starts at `i` and returns where it ends.
fn scan_ident(bytes: &[u8], i: usize, Ghost(s): Ghost<Seq<char>>) -> (end: usize)
    requires
        bytes_spell(bytes@, s),
        i < bytes@.len(),
    ensures
        end == ident_end(s, i + 1),
        i < end <= bytes@.len(),
{
    let n = bytes.len();
    let mut end: usize = i + 1;
    while end < n && is_ident_part_byte(bytes[end])
        invariant
            n == bytes@.len(),
            bytes_spell(bytes@, s),
            i < end <= n,
            ident_end(s, i + 1) == ident_end(s, end as int),
        decreases n - end,
    {
        end += 1;
    }
    end
}

/// Reads the token that starts at `i`, if one starts there.
fn scan_token(bytes: &[u8], i: usize, Ghost(s): Ghost<Seq<char>>) -> (t: Option<Token>)
    requires
        bytes_spell(bytes@, s),
        i < bytes@.len(),
    ensures
        t == token_at(s, i as int),
        t matches Some(tok) ==> tok.start == i && i < tok.end <= bytes@.len(),
{
    let n = bytes.len();
    let b = bytes[i];
    proof {
        assert(b as char == s[i as int]);
        if i + 1 < n {
            assert(bytes@[i + 1] as char == s[i + 1]);
        }
        if i + 2 < n {
            assert(bytes@[i + 2] as char == s[i + 2]);
        }
    }
    if b == 42 {
        Some(Token { kind: TokenKind::Star, start: i, end: i + 1 })
    } else if b == 44 {
        Some(Token { kind: TokenKind::Comma, start: i, end: i + 1 })
    } else if b == 40 {
        Some(Token { kind: TokenKind::Open, start: i, end: i + 1 })
    } else if b == 41 {
        Some(Token { kind: TokenKind::Close, start: i, end: i + 1 })
    } else if b == 59 {
        Some(Token { kind: TokenKind::Semi, start: i, end: i + 1 })
    } else if b == 45 {
        if n - i > 1 && bytes[i + 1] == 62 {
            Some(Token { kind: TokenKind::Arrow, start: i, end: i + 2 })
        } else {
            None
        }
    } else if b == 46 {
        if n - i > 2 && bytes[i + 1] == 46 && bytes[i + 2] == 46 {
            Some(Token { kind: TokenKind::Ellipsis, start: i, end: i + 3 })
        } else {
            None
        }
    } else if is_ident_start_byte(b) {
        let end = scan_ident(bytes, i, Ghost(s));
        Some(Token { kind: TokenKind::Ident, start: i, end })
    } else {
        None
    }
}

/// Splits `text` into its tokens. Returns `None` where the text holds a
/// character that starts no token.
pub fn lex(text: &str) -> (toks: Option<Vec<Token>>)
    ensures
        match toks {
            Some(v) => tokens_of(text@) == Some(v@) && tokens_in_text(text@, v@),
            None => tokens_of(text@) is None,
        },
{
    if !text.is_ascii() {
        return None;
    }
    let bytes = text.as_bytes();
    let n = bytes.len();
    let ghost s = text@;
    proof {
        is_ascii_chars_encode_utf8(s);
        assert forall|k: int| 0 <= k < n implies (#[trigger] bytes@[k]) as char == s[k] by {
            assert('\0' <= s[k] <= '\u{7f}');
            assert(s[k] as u8 == bytes@[k]);
        }
        assert(followed_by(Seq::<Token>::empty(), lex_from(s, 0)) == lex_from(s, 0)) by {
            if lex_from(s, 0) is Some {
                assert(Seq::<Token>::empty() + lex_from(s, 0).unwrap() =~= lex_from(s, 0).unwrap());
            }
        }
    }
    let mut out: Vec<Token> = Vec::new();
    let mut i: usize = 0;
    while i < n
        invariant
            n == bytes@.len(),
            s == text@,
            is_ascii_chars(s),
            bytes_spell(bytes@, s),
            i <= n,
            lex_from(s, 0) == followed_by(out@, lex_from(s, i as int)),
            tokens_in_text(s, out@),
        decreases n - i,
    {
        let ghost before = out@;
        proof {
            assert(bytes@[i as int] as char == s[i as int]);
        }
        if is_space_byte(bytes[i]) {
            i += 1;
        } else {
            match scan_token(bytes, i, Ghost(s)) {
                None => {
                    return None;
                },
                Some(t) => {
                    proof {
                        let rest = lex_from(s, t.end as int);
                        if rest is Some {
                            assert(before.push(t) + rest.unwrap() =~= before + (seq![t]
                                + rest.unwrap()));
                        }
                    }
                    out.push(t);
                    i = t.end;
                },
            }
        }
    }
    proof {
        assert(out@ + Seq::<Token>::empty() =~= out@);
    }
    Some(out)
}

} // verus!

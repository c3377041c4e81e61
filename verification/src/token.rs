//! The token alphabet of the attribute mini-grammars.
//!
//! The host compiler hands every attribute body over as a sequence of these
//! tokens; the parsers in `attrs` consume them with one token of lookahead.
//! The alphabet is lossless: every token the host can produce has a place
//! here, so type text can be carried through verbatim.

use vstd::prelude::*;

verus! {

/// Mathematical value of a single token: identifiers and uninterpreted
/// tokens carry their text.
pub enum Tok {
    Ident(Seq<char>),
    Comma,
    Eq,
    Colon,
    PathSep,
    Arrow,
    LParen,
    RParen,
    Amp,
    Underscore,
    Lt,
    Gt,
    LBracket,
    RBracket,
    LBrace,
    RBrace,
    Other(Seq<char>),
}

/// One token of an attribute body, as the host's tokenizer delivers it.
///
/// `Ident` covers both names and the grammar keywords (`fn`, `self`, `mut`,
/// `from`, `modifier`, `as_ref`, `deref`); the parsers tell them apart by
/// their text. `PathSep` is `::`, `Arrow` is `->`, `Underscore` is a lone
/// `_`. Tokens the grammars never read structurally — other punctuation,
/// literals, lifetime quotes — arrive as `Other` with their text, so that
/// type text passes through unchanged.
#[derive(Debug, PartialEq)]
pub enum Token {
    Ident(String),
    Comma,
    Eq,
    Colon,
    PathSep,
    Arrow,
    LParen,
    RParen,
    Amp,
    Underscore,
    Lt,
    Gt,
    LBracket,
    RBracket,
    LBrace,
    RBrace,
    Other(String),
}

impl View for Token {
    type V = Tok;

    open spec fn view(&self) -> Tok {
        match self {
            Token::Ident(s) => Tok::Ident(s@),
            Token::Comma => Tok::Comma,
            Token::Eq => Tok::Eq,
            Token::Colon => Tok::Colon,
            Token::PathSep => Tok::PathSep,
            Token::Arrow => Tok::Arrow,
            Token::LParen => Tok::LParen,
            Token::RParen => Tok::RParen,
            Token::Amp => Tok::Amp,
            Token::Underscore => Tok::Underscore,
            Token::Lt => Tok::Lt,
            Token::Gt => Tok::Gt,
            Token::LBracket => Tok::LBracket,
            Token::RBracket => Tok::RBracket,
            Token::LBrace => Tok::LBrace,
            Token::RBrace => Tok::RBrace,
            Token::Other(s) => Tok::Other(s@),
        }
    }
}

/// The token values of a token sequence.
pub open spec fn toks_of(s: Seq<Token>) -> Seq<Tok> {
    s.map_values(|t: Token| t@)
}

/// The token values of the suffix of `s` that starts at `pos`.
pub open spec fn toks_from(s: Seq<Token>, pos: int) -> Seq<Tok> {
    toks_of(s).skip(pos)
}

/// True when the string `s` spells exactly the keyword `kw`.
pub fn str_is(s: &String, kw: &str) -> (r: bool)
    ensures
        r == (s@ == kw@),
{
    let k: String = String::from_str(kw);
    *s == k
}

/// Returns a fresh token with the same value.
pub fn clone_token(t: &Token) -> (r: Token)
    ensures
        r@ == t@,
{
    match t {
        Token::Ident(s) => Token::Ident(s.clone()),
        Token::Comma => Token::Comma,
        Token::Eq => Token::Eq,
        Token::Colon => Token::Colon,
        Token::PathSep => Token::PathSep,
        Token::Arrow => Token::Arrow,
        Token::LParen => Token::LParen,
        Token::RParen => Token::RParen,
        Token::Amp => Token::Amp,
        Token::Underscore => Token::Underscore,
        Token::Lt => Token::Lt,
        Token::Gt => Token::Gt,
        Token::LBracket => Token::LBracket,
        Token::RBracket => Token::RBracket,
        Token::LBrace => Token::LBrace,
        Token::RBrace => Token::RBrace,
        Token::Other(s) => Token::Other(s.clone()),
    }
}

/// Returns a fresh copy of the tokens of `v` between `start` and `end`.
pub fn clone_tokens(v: &Vec<Token>, start: usize, end: usize) -> (r: Vec<Token>)
    requires
        start <= end <= v@.len(),
    ensures
        toks_of(r@) == toks_of(v@).subrange(start as int, end as int),
        r@.len() == end - start,
{
    let mut r: Vec<Token> = Vec::new();
    let mut i: usize = start;
    while i < end
        invariant
            start <= i <= end <= v@.len(),
            r@.len() == i - start,
            forall|j: int| 0 <= j < r@.len() ==> r@[j]@ == v@[start + j]@,
        decreases end - i,
    {
        r.push(clone_token(&v[i]));
        i = i + 1;
    }
    proof {
        assert(toks_of(r@) =~= toks_of(v@).subrange(start as int, end as int));
    }
    r
}

} // verus!

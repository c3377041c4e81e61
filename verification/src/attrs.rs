//! The three attribute mini-grammars: container, variant, and function
//! signature.
//!
//! Each grammar is defined by a `spec` parsing function over token values and
//! implemented by an executable parser proved to return exactly what the
//! `spec` function says — result and error position alike. All three
//! disambiguate keyword alternatives with one token of lookahead; an
//! unrecognized leading token is a grammar fault.
//!
//! Type references (the container's capability type, parameter types, return
//! types) are not given a grammar of their own: like the payload types, they
//! are opaque to this system and carried verbatim as a balanced token run,
//! delimited only by a separator or closer at nesting depth zero. Only the
//! three receiver forms are read structurally.

use vstd::prelude::*;
use crate::token::{Tok, Token, clone_tokens, str_is, toks_from, toks_of};

verus! {

// ---------------------------------------------------------------------------
// Type text: an opaque, balanced token run
// ---------------------------------------------------------------------------

/// A type reference, carried verbatim as the token run the author wrote:
/// `Option<u8>`, `&[u8]`, `(A, B)`, a dotted path, or one of the receiver
/// forms `self`, `&self`, `&mut self`. The grammars only delimit it; the
/// downstream compiler reads it.
#[derive(Debug, PartialEq)]
pub struct TypeText {
    pub tokens: Vec<Token>,
}

impl View for TypeText {
    type V = Seq<Tok>;

    open spec fn view(&self) -> Seq<Tok> {
        toks_of(self.tokens@)
    }
}

/// True for the tokens that open a nesting level inside type text.
pub open spec fn is_open_tok(t: Tok) -> bool {
    t == Tok::LParen || t == Tok::Lt || t == Tok::LBracket || t == Tok::LBrace
}

/// True for the tokens that close a nesting level inside type text.
pub open spec fn is_close_tok(t: Tok) -> bool {
    t == Tok::RParen || t == Tok::Gt || t == Tok::RBracket || t == Tok::RBrace
}

/// Where the type token run that starts at index `i` under nesting depth
/// `depth` ends: the index of the first separator (`,`) or list closer (`)`)
/// at depth zero, or the end of input at depth zero. A closer at depth zero
/// other than the list's own, or input that ends inside a nesting level, is
/// a fault at that index.
pub open spec fn type_run_end(toks: Seq<Tok>, i: int, depth: int) -> Result<int, int>
    decreases toks.len() - i,
{
    if i < 0 || i >= toks.len() {
        if depth == 0 {
            Ok(i)
        } else {
            Err(i)
        }
    } else if depth == 0 && (toks[i] == Tok::Comma || toks[i] == Tok::RParen) {
        Ok(i)
    } else if is_open_tok(toks[i]) {
        type_run_end(toks, i + 1, depth + 1)
    } else if is_close_tok(toks[i]) {
        if depth == 0 {
            Err(i)
        } else {
            type_run_end(toks, i + 1, depth - 1)
        }
    } else {
        type_run_end(toks, i + 1, depth)
    }
}

/// The scanner stays within the input: it ends, or faults, between `i` and
/// the end.
pub proof fn lemma_type_run_bounds(toks: Seq<Tok>, i: int, depth: int)
    requires
        0 <= i <= toks.len(),
    ensures
        match type_run_end(toks, i, depth) {
            Ok(e) => i <= e <= toks.len(),
            Err(p) => i <= p <= toks.len(),
        },
    decreases toks.len() - i,
{
    if i < toks.len() {
        if !(depth == 0 && (toks[i] == Tok::Comma || toks[i] == Tok::RParen)) {
            if is_open_tok(toks[i]) {
                lemma_type_run_bounds(toks, i + 1, depth + 1);
            } else if is_close_tok(toks[i]) {
                if depth != 0 {
                    lemma_type_run_bounds(toks, i + 1, depth - 1);
                }
            } else {
                lemma_type_run_bounds(toks, i + 1, depth);
            }
        }
    }
}

/// Scanning a suffix is scanning the whole sequence, with every index
/// shifted by the cut.
pub proof fn lemma_type_run_shift(toks: Seq<Tok>, k: int, i: int, depth: int)
    requires
        0 <= k <= i,
        k <= toks.len(),
    ensures
        type_run_end(toks.skip(k), i - k, depth) == (match type_run_end(toks, i, depth) {
            Ok(e) => Ok::<int, int>(e - k),
            Err(p) => Err::<int, int>(p - k),
        }),
    decreases toks.len() - i,
{
    if i < toks.len() {
        assert(toks.skip(k)[i - k] == toks[i]);
        if !(depth == 0 && (toks[i] == Tok::Comma || toks[i] == Tok::RParen)) {
            if is_open_tok(toks[i]) {
                lemma_type_run_shift(toks, k, i + 1, depth + 1);
            } else if is_close_tok(toks[i]) {
                if depth != 0 {
                    lemma_type_run_shift(toks, k, i + 1, depth - 1);
                }
            } else {
                lemma_type_run_shift(toks, k, i + 1, depth);
            }
        }
    }
}

/// A grammar fault (`Grammar`) or a rejected first parameter (`Receiver`).
#[derive(Clone, Copy, PartialEq, Eq, Debug)]
pub enum AttrFault {
    Grammar,
    Receiver,
}

/// A structured parse error: which fault, and the index of the token the
/// parser stopped at.
#[derive(Clone, Copy, PartialEq, Eq, Debug)]
pub struct ParseError {
    pub fault: AttrFault,
    pub pos: usize,
}

/// Returns a fresh copy of `s` with the same characters.
pub fn clone_string(s: &String) -> (r: String)
    ensures
        r@ == s@,
{
    s.clone()
}

/// Returns a fresh copy of `t` spelling the same type text.
pub fn clone_type_text(t: &TypeText) -> (r: TypeText)
    ensures
        r@ == t@,
{
    let tokens = clone_tokens(&t.tokens, 0, t.tokens.len());
    proof {
        assert(toks_of(t.tokens@).subrange(0, t.tokens@.len() as int) =~= toks_of(t.tokens@));
    }
    TypeText { tokens }
}

/// Executable scanner for a type token run, starting at token index `pos`
/// under nesting depth `depth`.
fn scan_type_run(tokens: &Vec<Token>, pos: usize, depth: usize) -> (r: Result<usize, ParseError>)
    requires
        pos <= tokens@.len(),
        depth <= pos,
    ensures
        match r {
            Ok(end) => pos <= end <= tokens@.len() && type_run_end(
                toks_of(tokens@),
                pos as int,
                depth as int,
            ) == Ok::<int, int>(end as int),
            Err(e) => e.fault == AttrFault::Grammar && pos <= e.pos <= tokens@.len()
                && type_run_end(toks_of(tokens@), pos as int, depth as int) == Err::<int, int>(
                e.pos as int,
            ),
        },
    decreases tokens@.len() - pos,
{
    let ghost whole = toks_of(tokens@);
    proof {
        assert forall|i: int| 0 <= i < whole.len() implies whole[i] == tokens@[i]@ by {}
    }
    if pos == tokens.len() {
        if depth == 0 {
            Ok(pos)
        } else {
            Err(ParseError { fault: AttrFault::Grammar, pos })
        }
    } else {
        let t = &tokens[pos];
        let is_open = matches!(t, Token::LParen | Token::Lt | Token::LBracket | Token::LBrace);
        let is_close = matches!(t, Token::RParen | Token::Gt | Token::RBracket | Token::RBrace);
        proof {
            assert(is_open == is_open_tok(whole[pos as int]));
            assert(is_close == is_close_tok(whole[pos as int]));
        }
        if depth == 0 && (matches!(t, Token::Comma) || matches!(t, Token::RParen)) {
            Ok(pos)
        } else if is_open {
            scan_type_run(tokens, pos + 1, depth + 1)
        } else if is_close {
            if depth == 0 {
                Err(ParseError { fault: AttrFault::Grammar, pos })
            } else {
                scan_type_run(tokens, pos + 1, depth - 1)
            }
        } else {
            scan_type_run(tokens, pos + 1, depth)
        }
    }
}

// ---------------------------------------------------------------------------
// Receiver forms
// ---------------------------------------------------------------------------

/// The token run of the receiver pseudo-type `self`.
pub open spec fn self_toks() -> Seq<Tok> {
    seq![Tok::Ident("self"@)]
}

/// The token runs of the receiver pseudo-types `&self` and `&mut self`.
pub open spec fn ref_self_toks(mutable: bool) -> Seq<Tok> {
    if mutable {
        seq![Tok::Amp, Tok::Ident("mut"@), Tok::Ident("self"@)]
    } else {
        seq![Tok::Amp, Tok::Ident("self"@)]
    }
}

/// True for the identifiers `self` and `Self`.
pub open spec fn is_self_ident(t: Tok) -> bool {
    t == Tok::Ident("self"@) || t == Tok::Ident("Self"@)
}

/// True when the token run is a recognized receiver form: `self` or `Self`,
/// bare or behind a plain or mutable reference.
pub open spec fn is_self_toks(ts: Seq<Tok>) -> bool {
    ||| (ts.len() == 1 && is_self_ident(ts[0]))
    ||| (ts.len() == 2 && ts[0] == Tok::Amp && is_self_ident(ts[1]))
    ||| (ts.len() == 3 && ts[0] == Tok::Amp && ts[1] == Tok::Ident("mut"@) && is_self_ident(
        ts[2],
    ))
}

/// Builds the receiver pseudo-type `self`.
fn self_type_text() -> (r: TypeText)
    ensures
        r@ == self_toks(),
{
    let tokens = vec![Token::Ident(String::from_str("self"))];
    proof {
        assert(toks_of(tokens@) =~= self_toks());
    }
    TypeText { tokens }
}

/// Builds the receiver pseudo-type `&self` or `&mut self`.
fn ref_self_type_text(mutable: bool) -> (r: TypeText)
    ensures
        r@ == ref_self_toks(mutable),
{
    let tokens = if mutable {
        vec![Token::Amp, Token::Ident(String::from_str("mut")), Token::Ident(
            String::from_str("self"),
        )]
    } else {
        vec![Token::Amp, Token::Ident(String::from_str("self"))]
    };
    proof {
        assert(toks_of(tokens@) =~= ref_self_toks(mutable));
    }
    TypeText { tokens }
}

/// Decides whether a declared parameter type is a recognized receiver form.
pub fn is_self_param(ty: &TypeText) -> (r: bool)
    ensures
        r == is_self_toks(ty@),
{
    let ghost ts = ty@;
    proof {
        assert forall|i: int| 0 <= i < ts.len() implies ts[i] == ty.tokens@[i]@ by {}
    }
    let n = ty.tokens.len();
    if n == 1 {
        match &ty.tokens[0] {
            Token::Ident(s) => str_is(s, "self") || str_is(s, "Self"),
            _ => false,
        }
    } else if n == 2 {
        matches!(&ty.tokens[0], Token::Amp) && (match &ty.tokens[1] {
            Token::Ident(s) => str_is(s, "self") || str_is(s, "Self"),
            _ => false,
        })
    } else if n == 3 {
        matches!(&ty.tokens[0], Token::Amp) && (match &ty.tokens[1] {
            Token::Ident(s) => str_is(s, "mut"),
            _ => false,
        }) && (match &ty.tokens[2] {
            Token::Ident(s) => str_is(s, "self") || str_is(s, "Self"),
            _ => false,
        })
    } else {
        false
    }
}

// ---------------------------------------------------------------------------
// Variant attributes: `from` and `modifier = as_ref | deref`
// ---------------------------------------------------------------------------

/// How a forwarding arm adapts the payload before the call: take a reference
/// to it, or dereference it.
#[derive(Clone, Copy, PartialEq, Eq, Debug)]
pub enum FnArgModifier {
    AsRef,
    Deref,
}

/// Grammar of a modifier value: `as_ref | deref`, one token of lookahead.
/// On failure, the index of the offending token.
pub open spec fn parse_modifier(toks: Seq<Tok>) -> Result<(FnArgModifier, int), int> {
    if toks.len() >= 1 && toks[0] == Tok::Ident("as_ref"@) {
        Ok((FnArgModifier::AsRef, 1))
    } else if toks.len() >= 1 && toks[0] == Tok::Ident("deref"@) {
        Ok((FnArgModifier::Deref, 1))
    } else {
        Err(0)
    }
}

impl FnArgModifier {
    /// Parses `as_ref` or `deref` at token index `pos`.
    pub fn parse(tokens: &Vec<Token>, pos: usize) -> (r: Result<(FnArgModifier, usize), ParseError>)
        requires
            pos <= tokens@.len(),
        ensures
            match r {
                Ok((m, end)) => pos <= end <= tokens@.len() && parse_modifier(
                    toks_from(tokens@, pos as int),
                ) == Ok::<(FnArgModifier, int), int>((m, end - pos)),
                Err(e) => e.fault == AttrFault::Grammar && pos <= e.pos <= tokens@.len()
                    && parse_modifier(toks_from(tokens@, pos as int)) == Err::<
                    (FnArgModifier, int),
                    int,
                >((e.pos - pos) as int),
            },
    {
        let ghost suf = toks_from(tokens@, pos as int);
        proof {
            assert forall|i: int| 0 <= i < suf.len() implies suf[i] == tokens@[pos + i]@ by {}
        }
        if pos < tokens.len() {
            match &tokens[pos] {
                Token::Ident(s) => {
                    if str_is(s, "as_ref") {
                        Ok((FnArgModifier::AsRef, pos + 1))
                    } else if str_is(s, "deref") {
                        Ok((FnArgModifier::Deref, pos + 1))
                    } else {
                        Err(ParseError { fault: AttrFault::Grammar, pos })
                    }
                },
                _ => Err(ParseError { fault: AttrFault::Grammar, pos }),
            }
        } else {
            Err(ParseError { fault: AttrFault::Grammar, pos })
        }
    }
}

/// The parsed flags of one variant: synthesize a conversion constructor
/// (`from`), and how to adapt the payload before forwarding (`modifier`).
/// Both default to off.
#[derive(Clone, Copy, PartialEq, Eq, Debug)]
pub struct VariantAttribute {
    pub from: bool,
    pub modifier: Option<FnArgModifier>,
}

/// Grammar of a variant attribute body: zero or more of `from` and
/// `modifier = <value>`, comma-separated, trailing comma allowed. A later
/// occurrence of a keyword overwrites the earlier one. `from` and `modifier`
/// are the accumulated flags so far. On failure, the index of the offending
/// token.
pub open spec fn parse_variant_attr(
    toks: Seq<Tok>,
    from: bool,
    modifier: Option<FnArgModifier>,
) -> Result<VariantAttribute, int>
    decreases toks.len(),
{
    if toks.len() == 0 {
        Ok(VariantAttribute { from, modifier })
    } else if toks[0] == Tok::Ident("from"@) {
        if toks.len() == 1 {
            Ok(VariantAttribute { from: true, modifier })
        } else if toks[1] == Tok::Comma {
            match parse_variant_attr(toks.skip(2), true, modifier) {
                Ok(va) => Ok(va),
                Err(p) => Err(2 + p),
            }
        } else {
            Err(1)
        }
    } else if toks[0] == Tok::Ident("modifier"@) {
        if toks.len() >= 3 && toks[1] == Tok::Eq {
            match parse_modifier(toks.skip(2)) {
                Ok((m, n)) => if toks.len() == 3 {
                    Ok(VariantAttribute { from, modifier: Some(m) })
                } else if toks[3] == Tok::Comma {
                    match parse_variant_attr(toks.skip(4), from, Some(m)) {
                        Ok(va) => Ok(va),
                        Err(p) => Err(4 + p),
                    }
                } else {
                    Err(3)
                },
                Err(p) => Err(2 + p),
            }
        } else {
            Err(1)
        }
    } else {
        Err(0)
    }
}

impl Default for VariantAttribute {
    /// The defaults: no conversion constructor, no modifier.
    fn default() -> (r: VariantAttribute)
        ensures
            r == (VariantAttribute { from: false, modifier: None::<FnArgModifier> }),
    {
        VariantAttribute { from: false, modifier: None }
    }
}

impl VariantAttribute {
    /// Parses a whole variant attribute body.
    pub fn parse(tokens: &Vec<Token>) -> (r: Result<VariantAttribute, ParseError>)
        ensures
            match r {
                Ok(va) => parse_variant_attr(toks_of(tokens@), false, None) == Ok::<
                    VariantAttribute,
                    int,
                >(va),
                Err(e) => e.fault == AttrFault::Grammar && e.pos <= tokens@.len()
                    && parse_variant_attr(toks_of(tokens@), false, None) == Err::<
                    VariantAttribute,
                    int,
                >(e.pos as int),
            },
    {
        proof {
            assert(toks_from(tokens@, 0) =~= toks_of(tokens@));
        }
        Self::parse_at(tokens, 0, false, None)
    }

    /// Parses the rest of a variant attribute body from token index `pos`,
    /// with the flags accumulated so far.
    fn parse_at(tokens: &Vec<Token>, pos: usize, from: bool, modifier: Option<FnArgModifier>) -> (r:
        Result<VariantAttribute, ParseError>)
        requires
            pos <= tokens@.len(),
        ensures
            match r {
                Ok(va) => parse_variant_attr(toks_from(tokens@, pos as int), from, modifier)
                    == Ok::<VariantAttribute, int>(va),
                Err(e) => e.fault == AttrFault::Grammar && pos <= e.pos <= tokens@.len()
                    && parse_variant_attr(toks_from(tokens@, pos as int), from, modifier) == Err::<
                    VariantAttribute,
                    int,
                >((e.pos - pos) as int),
            },
        decreases tokens@.len() - pos,
    {
        let ghost suf = toks_from(tokens@, pos as int);
        proof {
            assert forall|i: int| 0 <= i < suf.len() implies suf[i] == tokens@[pos + i]@ by {}
        }
        if pos == tokens.len() {
            Ok(VariantAttribute { from, modifier })
        } else {
            match &tokens[pos] {
                Token::Ident(s) => {
                    if str_is(s, "from") {
                        if pos + 1 == tokens.len() {
                            Ok(VariantAttribute { from: true, modifier })
                        } else if matches!(&tokens[pos + 1], Token::Comma) {
                            proof {
                                assert(toks_from(tokens@, pos + 2) =~= suf.skip(2));
                            }
                            Self::parse_at(tokens, pos + 2, true, modifier)
                        } else {
                            Err(ParseError { fault: AttrFault::Grammar, pos: pos + 1 })
                        }
                    } else if str_is(s, "modifier") {
                        if tokens.len() - pos > 2 && matches!(&tokens[pos + 1], Token::Eq) {
                            proof {
                                assert(toks_from(tokens@, pos + 2) =~= suf.skip(2));
                            }
                            match FnArgModifier::parse(tokens, pos + 2) {
                                Ok((m, _end)) => {
                                    if pos + 3 == tokens.len() {
                                        Ok(VariantAttribute { from, modifier: Some(m) })
                                    } else if matches!(&tokens[pos + 3], Token::Comma) {
                                        proof {
                                            assert(toks_from(tokens@, pos + 4) =~= suf.skip(4));
                                        }
                                        Self::parse_at(tokens, pos + 4, from, Some(m))
                                    } else {
                                        Err(ParseError { fault: AttrFault::Grammar, pos: pos + 3 })
                                    }
                                },
                                Err(e) => Err(e),
                            }
                        } else {
                            Err(ParseError { fault: AttrFault::Grammar, pos: pos + 1 })
                        }
                    } else {
                        Err(ParseError { fault: AttrFault::Grammar, pos })
                    }
                },
                _ => Err(ParseError { fault: AttrFault::Grammar, pos }),
            }
        }
    }
}

// ---------------------------------------------------------------------------
// Function parameters
// ---------------------------------------------------------------------------

/// Mathematical value of a declared parameter.
pub struct FunctionParamV {
    pub ident: Option<Seq<char>>,
    pub ty: Seq<Tok>,
}

/// One declared parameter: its binding name, if it has one, and its type.
/// A receiver form and a `_` parameter have no binding name.
#[derive(Debug, PartialEq)]
pub struct FunctionParam {
    pub ident: Option<String>,
    pub ty: TypeText,
}

impl View for FunctionParam {
    type V = FunctionParamV;

    open spec fn view(&self) -> FunctionParamV {
        FunctionParamV {
            ident: match self.ident {
                Some(s) => Some(s@),
                None => None,
            },
            ty: self.ty@,
        }
    }
}

/// Returns a fresh copy of `p`: same binding name, same type text.
pub fn clone_function_param(p: &FunctionParam) -> (r: FunctionParam)
    ensures
        r@ == p@,
{
    FunctionParam {
        ident: match &p.ident {
            Some(s) => Some(clone_string(s)),
            None => None,
        },
        ty: clone_type_text(&p.ty),
    }
}

/// Grammar of one parameter: a receiver form (`self`, `&self`, `&mut self`),
/// a named parameter `name : Type`, or an unnamed parameter `_ : Type`,
/// where `Type` is an opaque token run. On failure, the index of the
/// offending token.
pub open spec fn parse_param(toks: Seq<Tok>) -> Result<(FunctionParamV, int), int> {
    if toks.len() == 0 {
        Err(0)
    } else {
        match toks[0] {
            Tok::Amp => if toks.len() >= 3 && toks[1] == Tok::Ident("mut"@) && toks[2]
                == Tok::Ident("self"@) {
                Ok((FunctionParamV { ident: None, ty: ref_self_toks(true) }, 3))
            } else if toks.len() >= 2 && toks[1] == Tok::Ident("self"@) {
                Ok((FunctionParamV { ident: None, ty: ref_self_toks(false) }, 2))
            } else {
                Err(0)
            },
            Tok::Ident(s) => if s == "self"@ {
                Ok((FunctionParamV { ident: None, ty: self_toks() }, 1))
            } else if toks.len() >= 2 && toks[1] == Tok::Colon {
                match type_run_end(toks, 2, 0) {
                    Ok(e) => if e > 2 {
                        Ok((FunctionParamV { ident: Some(s), ty: toks.subrange(2, e) }, e))
                    } else {
                        Err(2)
                    },
                    Err(p) => Err(p),
                }
            } else {
                Err(1)
            },
            Tok::Underscore => if toks.len() >= 2 && toks[1] == Tok::Colon {
                match type_run_end(toks, 2, 0) {
                    Ok(e) => if e > 2 {
                        Ok((FunctionParamV { ident: None, ty: toks.subrange(2, e) }, e))
                    } else {
                        Err(2)
                    },
                    Err(p) => Err(p),
                }
            } else {
                Err(1)
            },
            _ => Err(0),
        }
    }
}

/// A successful parameter parse consumes between 1 token and the whole
/// input; a failed one faults within the input.
pub proof fn lemma_parse_param_bounds(toks: Seq<Tok>)
    ensures
        match parse_param(toks) {
            Ok((p, n)) => 1 <= n <= toks.len(),
            Err(p) => 0 <= p <= toks.len(),
        },
{
    if toks.len() >= 2 {
        lemma_type_run_bounds(toks, 2, 0);
    }
}

impl FunctionParam {
    /// Parses one parameter at token index `pos`.
    pub fn parse(tokens: &Vec<Token>, pos: usize) -> (r: Result<(FunctionParam, usize), ParseError>)
        requires
            pos <= tokens@.len(),
        ensures
            match r {
                Ok((p, end)) => pos <= end <= tokens@.len() && parse_param(
                    toks_from(tokens@, pos as int),
                ) == Ok::<(FunctionParamV, int), int>((p@, end - pos)),
                Err(e) => e.fault == AttrFault::Grammar && pos <= e.pos <= tokens@.len()
                    && parse_param(toks_from(tokens@, pos as int)) == Err::<
                    (FunctionParamV, int),
                    int,
                >((e.pos - pos) as int),
            },
    {
        let ghost suf = toks_from(tokens@, pos as int);
        proof {
            assert forall|i: int| 0 <= i < suf.len() implies suf[i] == tokens@[pos + i]@ by {}
        }
        if pos == tokens.len() {
            return Err(ParseError { fault: AttrFault::Grammar, pos });
        }
        match &tokens[pos] {
            Token::Amp => {
                if tokens.len() - pos > 2 && (match &tokens[pos + 1] {
                    Token::Ident(s) => str_is(s, "mut"),
                    _ => false,
                }) && (match &tokens[pos + 2] {
                    Token::Ident(s) => str_is(s, "self"),
                    _ => false,
                }) {
                    Ok((FunctionParam { ident: None, ty: ref_self_type_text(true) }, pos + 3))
                } else if tokens.len() - pos > 1 && (match &tokens[pos + 1] {
                    Token::Ident(s) => str_is(s, "self"),
                    _ => false,
                }) {
                    Ok((FunctionParam { ident: None, ty: ref_self_type_text(false) }, pos + 2))
                } else {
                    Err(ParseError { fault: AttrFault::Grammar, pos })
                }
            },
            Token::Ident(s) => {
                if str_is(s, "self") {
                    Ok((FunctionParam { ident: None, ty: self_type_text() }, pos + 1))
                } else if tokens.len() - pos > 1 && matches!(&tokens[pos + 1], Token::Colon) {
                    proof {
                        lemma_type_run_shift(toks_of(tokens@), pos as int, pos + 2, 0);
                    }
                    let name = clone_string(s);
                    match scan_type_run(tokens, pos + 2, 0) {
                        Ok(e) => {
                            if e > pos + 2 {
                                let ty = TypeText { tokens: clone_tokens(tokens, pos + 2, e) };
                                proof {
                                    assert(ty@ =~= suf.subrange(2, e - pos));
                                }
                                Ok((FunctionParam { ident: Some(name), ty }, e))
                            } else {
                                Err(ParseError { fault: AttrFault::Grammar, pos: pos + 2 })
                            }
                        },
                        Err(e) => Err(e),
                    }
                } else {
                    Err(ParseError { fault: AttrFault::Grammar, pos: pos + 1 })
                }
            },
            Token::Underscore => {
                if tokens.len() - pos > 1 && matches!(&tokens[pos + 1], Token::Colon) {
                    proof {
                        lemma_type_run_shift(toks_of(tokens@), pos as int, pos + 2, 0);
                    }
                    match scan_type_run(tokens, pos + 2, 0) {
                        Ok(e) => {
                            if e > pos + 2 {
                                let ty = TypeText { tokens: clone_tokens(tokens, pos + 2, e) };
                                proof {
                                    assert(ty@ =~= suf.subrange(2, e - pos));
                                }
                                Ok((FunctionParam { ident: None, ty }, e))
                            } else {
                                Err(ParseError { fault: AttrFault::Grammar, pos: pos + 2 })
                            }
                        },
                        Err(e) => Err(e),
                    }
                } else {
                    Err(ParseError { fault: AttrFault::Grammar, pos: pos + 1 })
                }
            },
            _ => Err(ParseError { fault: AttrFault::Grammar, pos }),
        }
    }
}

/// Grammar of a parenthesized parameter list after the opening parenthesis:
/// parameters separated by commas, an optional trailing comma, closed by `)`.
/// Consumes through the closing parenthesis. On failure, the index of the
/// offending token.
pub open spec fn parse_params(toks: Seq<Tok>) -> Result<(Seq<FunctionParamV>, int), int>
    decreases toks.len(),
    via parse_params_decreases
{
    if toks.len() >= 1 && toks[0] == Tok::RParen {
        Ok((seq![], 1))
    } else {
        match parse_param(toks) {
            Err(p) => Err(p),
            Ok((p, n)) => if n < toks.len() && toks[n] == Tok::Comma {
                match parse_params(toks.skip(n + 1)) {
                    Ok((ps, m)) => Ok((seq![p] + ps, n + 1 + m)),
                    Err(q) => Err(n + 1 + q),
                }
            } else if n < toks.len() && toks[n] == Tok::RParen {
                Ok((seq![p], n + 1))
            } else {
                Err(n)
            },
        }
    }
}

#[via_fn]
proof fn parse_params_decreases(toks: Seq<Tok>) {
    lemma_parse_param_bounds(toks);
}

/// Executable parser for a parameter list, starting right after the opening
/// parenthesis at token index `pos`.
pub fn parse_param_list(tokens: &Vec<Token>, pos: usize) -> (r: Result<
    (Vec<FunctionParam>, usize),
    ParseError,
>)
    requires
        pos <= tokens@.len(),
    ensures
        match r {
            Ok((ps, end)) => pos <= end <= tokens@.len() && parse_params(
                toks_from(tokens@, pos as int),
            ) == Ok::<(Seq<FunctionParamV>, int), int>(
                (ps@.map_values(|p: FunctionParam| p@), end - pos),
            ),
            Err(e) => e.fault == AttrFault::Grammar && pos <= e.pos <= tokens@.len()
                && parse_params(toks_from(tokens@, pos as int)) == Err::<
                (Seq<FunctionParamV>, int),
                int,
            >((e.pos - pos) as int),
        },
    decreases tokens@.len() - pos,
{
    let ghost suf = toks_from(tokens@, pos as int);
    proof {
        assert forall|i: int| 0 <= i < suf.len() implies suf[i] == tokens@[pos + i]@ by {}
    }
    if pos < tokens.len() && matches!(&tokens[pos], Token::RParen) {
        let ps: Vec<FunctionParam> = Vec::new();
        proof {
            assert(ps@.map_values(|p: FunctionParam| p@) =~= Seq::<FunctionParamV>::empty());
        }
        return Ok((ps, pos + 1));
    }
    match FunctionParam::parse(tokens, pos) {
        Err(e) => Err(e),
        Ok((p, p_end)) => {
            if p_end < tokens.len() && matches!(&tokens[p_end], Token::Comma) {
                proof {
                    assert(toks_from(tokens@, p_end + 1) =~= suf.skip((p_end - pos) + 1));
                }
                match parse_param_list(tokens, p_end + 1) {
                    Ok((mut ps, end)) => {
                        let ghost tail = ps@.map_values(|x: FunctionParam| x@);
                        ps.insert(0, p);
                        proof {
                            assert(ps@.map_values(|x: FunctionParam| x@) =~= seq![p@] + tail);
                        }
                        Ok((ps, end))
                    },
                    Err(e) => Err(e),
                }
            } else if p_end < tokens.len() && matches!(&tokens[p_end], Token::RParen) {
                let ps = vec![p];
                proof {
                    assert(ps@.map_values(|x: FunctionParam| x@) =~= seq![ps@[0]@]);
                }
                Ok((ps, p_end + 1))
            } else {
                Err(ParseError { fault: AttrFault::Grammar, pos: p_end })
            }
        },
    }
}

// ---------------------------------------------------------------------------
// Function attributes: `fn <name> ( <params> ) [-> <type>]`
// ---------------------------------------------------------------------------

/// Mathematical value of a parsed function attribute. `params` excludes the
/// receiver, which is kept separately as `self_param`.
pub struct FunctionAttributeV {
    pub name: Seq<char>,
    pub self_param: Seq<Tok>,
    pub params: Seq<FunctionParamV>,
    pub return_type: Option<Seq<Tok>>,
}

/// A parsed capability function signature: its name, the receiver form of
/// its first declared parameter, the remaining parameters, and the return
/// type, if any.
#[derive(Debug, PartialEq)]
pub struct FunctionAttribute {
    pub name: String,
    pub self_param: TypeText,
    pub params: Vec<FunctionParam>,
    pub return_type: Option<TypeText>,
}

impl View for FunctionAttribute {
    type V = FunctionAttributeV;

    open spec fn view(&self) -> FunctionAttributeV {
        FunctionAttributeV {
            name: self.name@,
            self_param: self.self_param@,
            params: self.params@.map_values(|p: FunctionParam| p@),
            return_type: match self.return_type {
                Some(t) => Some(t@),
                None => None,
            },
        }
    }
}

/// What comes of a parameter list `ps` and the tokens `rest` after it: the
/// first parameter must be a recognized receiver form and is removed from
/// the list; `rest` must be empty or `-> <type>` to the end, the return
/// type an opaque token run. Error positions are relative to `rest`.
pub open spec fn function_of(name: Seq<char>, ps: Seq<FunctionParamV>, rest: Seq<Tok>) -> Result<
    FunctionAttributeV,
    (AttrFault, int),
> {
    if ps.len() == 0 {
        Err((AttrFault::Receiver, 0))
    } else if !is_self_toks(ps[0].ty) {
        Err((AttrFault::Receiver, 0))
    } else if rest.len() == 0 {
        Ok(
            FunctionAttributeV {
                name,
                self_param: ps[0].ty,
                params: ps.skip(1),
                return_type: None,
            },
        )
    } else if rest[0] == Tok::Arrow {
        match type_run_end(rest, 1, 0) {
            Ok(e) => if e == rest.len() && e > 1 {
                Ok(
                    FunctionAttributeV {
                        name,
                        self_param: ps[0].ty,
                        params: ps.skip(1),
                        return_type: Some(rest.subrange(1, e)),
                    },
                )
            } else if e <= 1 {
                Err((AttrFault::Grammar, 1))
            } else {
                Err((AttrFault::Grammar, e))
            },
            Err(p) => Err((AttrFault::Grammar, p)),
        }
    } else {
        Err((AttrFault::Grammar, 0))
    }
}

/// Grammar of a whole function attribute body. A missing or unrecognized
/// receiver is a `Receiver` fault; everything else malformed is a `Grammar`
/// fault, with the index of the offending token.
pub open spec fn parse_function(toks: Seq<Tok>) -> Result<FunctionAttributeV, (AttrFault, int)> {
    if toks.len() < 2 {
        Err((AttrFault::Grammar, 0))
    } else if toks[0] != Tok::Ident("fn"@) {
        Err((AttrFault::Grammar, 0))
    } else {
        match toks[1] {
            Tok::Ident(name) => {
                let after = toks.skip(2);
                if after.len() >= 1 && after[0] == Tok::LParen {
                    match parse_params(after.skip(1)) {
                        Err(p) => Err((AttrFault::Grammar, 3 + p)),
                        Ok((ps, n)) => match function_of(name, ps, after.skip(1 + n)) {
                            Ok(fa) => Ok(fa),
                            Err((f, p)) => Err((f, 3 + n + p)),
                        },
                    }
                } else {
                    match function_of(name, seq![], after) {
                        Ok(fa) => Ok(fa),
                        Err((f, p)) => Err((f, 2 + p)),
                    }
                }
            },
            _ => Err((AttrFault::Grammar, 1)),
        }
    }
}

impl FunctionAttribute {
    /// Parses a whole function attribute body.
    pub fn parse(tokens: &Vec<Token>) -> (r: Result<FunctionAttribute, ParseError>)
        ensures
            match r {
                Ok(fa) => parse_function(toks_of(tokens@)) == Ok::<
                    FunctionAttributeV,
                    (AttrFault, int),
                >(fa@),
                Err(e) => e.pos <= tokens@.len() && parse_function(toks_of(tokens@)) == Err::<
                    FunctionAttributeV,
                    (AttrFault, int),
                >((e.fault, e.pos as int)),
            },
    {
        let ghost whole = toks_of(tokens@);
        proof {
            assert forall|i: int| 0 <= i < whole.len() implies whole[i] == tokens@[i]@ by {}
        }
        if tokens.len() < 2 {
            return Err(ParseError { fault: AttrFault::Grammar, pos: 0 });
        }
        match &tokens[0] {
            Token::Ident(s) => {
                if !str_is(s, "fn") {
                    return Err(ParseError { fault: AttrFault::Grammar, pos: 0 });
                }
            },
            _ => {
                return Err(ParseError { fault: AttrFault::Grammar, pos: 0 });
            },
        }
        let name = match &tokens[1] {
            Token::Ident(s) => clone_string(s),
            _ => {
                return Err(ParseError { fault: AttrFault::Grammar, pos: 1 });
            },
        };
        proof {
            assert(whole.skip(2) =~= toks_from(tokens@, 2));
        }
        let (mut params, rest_pos) = if 2 < tokens.len() && matches!(&tokens[2], Token::LParen) {
            proof {
                assert(whole.skip(2).skip(1) =~= toks_from(tokens@, 3));
            }
            match parse_param_list(tokens, 3) {
                Ok((ps, end)) => (ps, end),
                Err(e) => {
                    return Err(e);
                },
            }
        } else {
            (Vec::new(), 2)
        };
        let ghost ps_v = params@.map_values(|p: FunctionParam| p@);
        let ghost rest = toks_from(tokens@, rest_pos as int);
        proof {
            if 2 < tokens@.len() && whole.skip(2)[0] == Tok::LParen {
                assert(whole.skip(2).skip(1 + (rest_pos - 3)) =~= rest);
            } else {
                assert(params@.map_values(|p: FunctionParam| p@) =~= Seq::<
                    FunctionParamV,
                >::empty());
            }
            assert forall|i: int| 0 <= i < rest.len() implies rest[i] == tokens@[
                rest_pos + i
            ]@ by {}
        }
        if params.len() == 0 {
            return Err(ParseError { fault: AttrFault::Receiver, pos: rest_pos });
        }
        let first = params.remove(0);
        proof {
            assert(params@.map_values(|p: FunctionParam| p@) =~= ps_v.skip(1));
        }
        if !is_self_param(&first.ty) {
            return Err(ParseError { fault: AttrFault::Receiver, pos: rest_pos });
        }
        if rest_pos == tokens.len() {
            Ok(
                FunctionAttribute {
                    name,
                    self_param: first.ty,
                    params,
                    return_type: None,
                },
            )
        } else if matches!(&tokens[rest_pos], Token::Arrow) {
            proof {
                lemma_type_run_shift(whole, rest_pos as int, rest_pos + 1, 0);
            }
            match scan_type_run(tokens, rest_pos + 1, 0) {
                Ok(e) => {
                    if e == tokens.len() && e > rest_pos + 1 {
                        let ty = TypeText { tokens: clone_tokens(tokens, rest_pos + 1, e) };
                        proof {
                            assert(ty@ =~= rest.subrange(1, e - rest_pos));
                        }
                        Ok(
                            FunctionAttribute {
                                name,
                                self_param: first.ty,
                                params,
                                return_type: Some(ty),
                            },
                        )
                    } else if e <= rest_pos + 1 {
                        Err(ParseError { fault: AttrFault::Grammar, pos: rest_pos + 1 })
                    } else {
                        Err(ParseError { fault: AttrFault::Grammar, pos: e })
                    }
                },
                Err(e) => Err(e),
            }
        } else {
            Err(ParseError { fault: AttrFault::Grammar, pos: rest_pos })
        }
    }
}

// ---------------------------------------------------------------------------
// Container attribute: a single type reference, carried verbatim
// ---------------------------------------------------------------------------

/// Grammar of a container attribute body: one type token run spanning the
/// whole body, kept verbatim. An empty body, a separator or stray closer at
/// nesting depth zero, or an unclosed nesting level is a fault at that
/// index.
pub open spec fn parse_container(toks: Seq<Tok>) -> Result<Seq<Tok>, int> {
    if toks.len() == 0 {
        Err(0)
    } else {
        match type_run_end(toks, 0, 0) {
            Ok(e) => if e == toks.len() {
                Ok(toks)
            } else {
                Err(e)
            },
            Err(p) => Err(p),
        }
    }
}

/// The container-level attribute: the capability the generated code
/// implements for the sum type.
#[derive(Debug, PartialEq)]
pub struct ContainerAttribute {
    pub trait_type: TypeText,
}

impl ContainerAttribute {
    /// Parses a whole container attribute body.
    pub fn parse(tokens: &Vec<Token>) -> (r: Result<ContainerAttribute, ParseError>)
        ensures
            match r {
                Ok(ca) => parse_container(toks_of(tokens@)) == Ok::<Seq<Tok>, int>(ca.trait_type@),
                Err(e) => e.fault == AttrFault::Grammar && e.pos <= tokens@.len()
                    && parse_container(toks_of(tokens@)) == Err::<Seq<Tok>, int>(e.pos as int),
            },
    {
        if tokens.len() == 0 {
            return Err(ParseError { fault: AttrFault::Grammar, pos: 0 });
        }
        match scan_type_run(tokens, 0, 0) {
            Ok(e) => {
                if e == tokens.len() {
                    let tt = TypeText { tokens: clone_tokens(tokens, 0, e) };
                    proof {
                        assert(tt@ =~= toks_of(tokens@));
                    }
                    Ok(ContainerAttribute { trait_type: tt })
                } else {
                    Err(ParseError { fault: AttrFault::Grammar, pos: e })
                }
            },
            Err(e) => Err(e),
        }
    }
}

// ---------------------------------------------------------------------------
// The forwarding signature: named parameters only
// ---------------------------------------------------------------------------

/// The parameters of `ps` from index `i` on that carry a binding name, in
/// order.
pub open spec fn named_params_from(ps: Seq<FunctionParamV>, i: int) -> Seq<FunctionParamV>
    decreases ps.len() - i,
{
    if i < 0 || i >= ps.len() {
        seq![]
    } else {
        let rest = named_params_from(ps, i + 1);
        match ps[i].ident {
            Some(_) => seq![ps[i]] + rest,
            None => rest,
        }
    }
}

/// The binding names of the parameters of `ps` from index `i` on that have
/// one, in order.
pub open spec fn named_args_from(ps: Seq<FunctionParamV>, i: int) -> Seq<Seq<char>>
    decreases ps.len() - i,
{
    if i < 0 || i >= ps.len() {
        seq![]
    } else {
        let rest = named_args_from(ps, i + 1);
        match ps[i].ident {
            Some(s) => seq![s] + rest,
            None => rest,
        }
    }
}

impl FunctionAttribute {
    /// The parameters the forwarding signature keeps: exactly those with a
    /// binding name, in declared order. An unnamed parameter has no binding
    /// to forward, so it is dropped.
    pub fn named_params(&self) -> (r: Vec<FunctionParam>)
        ensures
            r@.map_values(|p: FunctionParam| p@) == named_params_from(self@.params, 0),
    {
        let ghost ps_v = self@.params;
        let mut r: Vec<FunctionParam> = Vec::new();
        let mut i: usize = 0;
        proof {
            assert(r@.map_values(|p: FunctionParam| p@) + named_params_from(ps_v, 0)
                =~= named_params_from(ps_v, 0));
        }
        while i < self.params.len()
            invariant
                i <= self.params@.len(),
                ps_v == self@.params,
                named_params_from(ps_v, 0) == r@.map_values(|p: FunctionParam| p@)
                    + named_params_from(ps_v, i as int),
            decreases self.params@.len() - i,
        {
            let ghost acc = r@.map_values(|p: FunctionParam| p@);
            if self.params[i].ident.is_some() {
                r.push(clone_function_param(&self.params[i]));
                proof {
                    assert(r@.map_values(|p: FunctionParam| p@) =~= acc + seq![ps_v[i as int]]);
                    assert((acc + seq![ps_v[i as int]]) + named_params_from(ps_v, i + 1) =~= acc
                        + (seq![ps_v[i as int]] + named_params_from(ps_v, i + 1)));
                }
            }
            i = i + 1;
        }
        proof {
            assert(r@.map_values(|p: FunctionParam| p@) + named_params_from(ps_v, i as int)
                =~= r@.map_values(|p: FunctionParam| p@));
        }
        r
    }

    /// The argument names a forwarding arm passes on: the binding names of
    /// the named parameters, in declared order.
    pub fn arg_names(&self) -> (r: Vec<String>)
        ensures
            r@.map_values(|s: String| s@) == named_args_from(self@.params, 0),
    {
        let ghost ps_v = self@.params;
        let mut r: Vec<String> = Vec::new();
        let mut i: usize = 0;
        proof {
            assert(r@.map_values(|s: String| s@) + named_args_from(ps_v, 0) =~= named_args_from(
                ps_v,
                0,
            ));
        }
        while i < self.params.len()
            invariant
                i <= self.params@.len(),
                ps_v == self@.params,
                named_args_from(ps_v, 0) == r@.map_values(|s: String| s@) + named_args_from(
                    ps_v,
                    i as int,
                ),
            decreases self.params@.len() - i,
        {
            let ghost acc = r@.map_values(|s: String| s@);
            match &self.params[i].ident {
                Some(name) => {
                    r.push(clone_string(name));
                    proof {
                        assert(ps_v[i as int].ident matches Some(nv) && nv == name@);
                        assert(r@.map_values(|s: String| s@) =~= acc + seq![name@]);
                        assert((acc + seq![name@]) + named_args_from(ps_v, i + 1) =~= acc + (seq![
                            name@,
                        ] + named_args_from(ps_v, i + 1)));
                    }
                },
                None => {
                    proof {
                        assert(ps_v[i as int].ident is None);
                    }
                },
            }
            i = i + 1;
        }
        proof {
            assert(r@.map_values(|s: String| s@) + named_args_from(ps_v, i as int) =~= r@.map_values(
                |s: String| s@,
            ));
        }
        r
    }
}

} // verus!

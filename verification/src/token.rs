//! The token model: an opaque unit of source syntax with a source-location
//! handle. The host toolchain's own token trees are mirrored one for one by
//! an unverified outer layer; inside the library a token carries exactly
//! what the translation reads of it: a literal's source text, a punctuation
//! character, an identifier's name, or a delimited group of tokens, each
//! with its span handle.
use vstd::prelude::*;

verus! {

/// An opaque source-location handle. The outer layer assigns the ids; the
/// library only passes them through from input to output. Id 0 stands for
/// the call-site-neutral location used when no better span is available.
#[derive(Clone, Copy, PartialEq, Eq, Structural)]
pub struct Span {
    pub id: usize,
}

/// The call-site-neutral span handle.
pub open spec fn neutral_span() -> Span {
    Span { id: 0 }
}

impl Span {
    /// The call-site-neutral span, used for synthesized output tokens and
    /// for diagnostics that no input token can anchor.
    pub fn neutral() -> (s: Span)
        ensures
            s == neutral_span(),
    {
        Span { id: 0 }
    }
}

/// The delimiter of a token group.
#[derive(Clone, Copy, PartialEq, Eq, Structural)]
pub enum Delim {
    Paren,
    Bracket,
    Brace,
}

/// One unit of source syntax. A literal carries its source text exactly as
/// written (quotes and escapes included); decoding it is a separate step.
pub enum Token {
    Literal { repr: String, span: Span },
    Punct { ch: char, joint: bool, span: Span },
    Ident { name: String, span: Span },
    Group { delim: Delim, tokens: Vec<Token>, span: Span },
}

/// The span a token carries.
pub open spec fn span_of(t: Token) -> Span {
    match t {
        Token::Literal { repr, span } => span,
        Token::Punct { ch, joint, span } => span,
        Token::Ident { name, span } => span,
        Token::Group { delim, tokens, span } => span,
    }
}

impl Token {
    /// The span a token carries.
    pub fn span(&self) -> (s: Span)
        ensures
            s == span_of(*self),
    {
        match self {
            Token::Literal { span, .. } => *span,
            Token::Punct { span, .. } => *span,
            Token::Ident { span, .. } => *span,
            Token::Group { span, .. } => *span,
        }
    }
}

/// `t` is a literal token with source text `repr` and span `sp`.
pub open spec fn is_lit_tok(t: Token, repr: Seq<char>, sp: Span) -> bool {
    match t {
        Token::Literal { repr: r, span } => r@ == repr && span == sp,
        _ => false,
    }
}

/// `t` is a punctuation token for `c` (with the given spacing) at span `sp`.
pub open spec fn is_punct_tok(t: Token, c: char, j: bool, sp: Span) -> bool {
    match t {
        Token::Punct { ch, joint, span } => ch == c && joint == j && span == sp,
        _ => false,
    }
}

/// `t` is an identifier token named `name` at span `sp`.
pub open spec fn is_ident_tok(t: Token, name: Seq<char>, sp: Span) -> bool {
    match t {
        Token::Ident { name: n, span } => n@ == name && span == sp,
        _ => false,
    }
}

/// Two ungrouped tokens render identically: same kind, same text, same
/// spacing, same span. Groups never render identically under this predicate;
/// `tok_eq` handles one level of grouping.
pub open spec fn leaf_eq(a: Token, b: Token) -> bool {
    match (a, b) {
        (Token::Literal { repr: r1, span: s1 }, Token::Literal { repr: r2, span: s2 }) => r1@ == r2@
            && s1 == s2,
        (
            Token::Punct { ch: c1, joint: j1, span: s1 },
            Token::Punct { ch: c2, joint: j2, span: s2 },
        ) => c1 == c2 && j1 == j2 && s1 == s2,
        (Token::Ident { name: n1, span: s1 }, Token::Ident { name: n2, span: s2 }) => n1@ == n2@
            && s1 == s2,
        _ => false,
    }
}

/// Two tokens of at most one level of grouping render identically.
pub open spec fn tok_eq(a: Token, b: Token) -> bool {
    match (a, b) {
        (
            Token::Group { delim: d1, tokens: t1, span: s1 },
            Token::Group { delim: d2, tokens: t2, span: s2 },
        ) => {
            &&& d1 == d2
            &&& s1 == s2
            &&& t1@.len() == t2@.len()
            &&& forall|j: int| 0 <= j < t1@.len() ==> leaf_eq(#[trigger] t1@[j], t2@[j])
        },
        _ => leaf_eq(a, b),
    }
}

/// Two token sequences of at most one level of grouping render identically.
pub open spec fn toks_eq(o1: Seq<Token>, o2: Seq<Token>) -> bool {
    o1.len() == o2.len() && forall|j: int| 0 <= j < o1.len() ==> tok_eq(#[trigger] o1[j], o2[j])
}

} // verus!

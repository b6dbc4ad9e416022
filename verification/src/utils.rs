//! The token cursor and its extraction protocol.
//!
//! `Input` wraps the invocation's token sequence with a forward-only read
//! position. Each extraction either consumes one token and returns a decoded
//! value, or reports — without consuming — why it could not: end of input,
//! wrong token kind, or a literal that does not decode. `into_err` lowers
//! any failed extraction to a diagnostic fragment.
use crate::strlit::{encode_str_lit, lit_repr_of, parse_str_lit, str_lit_decoded};
use crate::token::{is_ident_tok, is_lit_tok, is_punct_tok, neutral_span, span_of, Delim, Span, Token};
use vstd::prelude::*;
use vstd::string::StringExecFns;

verus! {

/// A token sequence with a single forward-only read position.
pub struct Input {
    index: usize,
    tokens: Vec<Token>,
}

impl Input {
    /// The wrapped token sequence.
    pub closed spec fn toks(&self) -> Seq<Token> {
        self.tokens@
    }

    /// The read position: tokens before it have been consumed.
    pub closed spec fn pos(&self) -> int {
        self.index as int
    }

    /// The cursor's invariant: the position never passes the end.
    pub open spec fn wf(&self) -> bool {
        0 <= self.pos() <= self.toks().len()
    }

    /// Wraps a token sequence with the read position at its start.
    pub fn new(tokens: Vec<Token>) -> (r: Input)
        ensures
            r.toks() == tokens@,
            r.pos() == 0,
            r.wf(),
    {
        Input { index: 0, tokens }
    }
}

/// The cursor `From` conversion builds: the sequence with the read position
/// at its start.
pub closed spec fn input_from_spec(t: Vec<Token>) -> Input {
    Input { index: 0, tokens: t }
}

/// The cursor the conversion builds reads `t` from the start.
pub proof fn lemma_input_from_spec(t: Vec<Token>)
    ensures
        input_from_spec(t).toks() == t@,
        input_from_spec(t).pos() == 0,
        input_from_spec(t).wf(),
{
}

impl From<Vec<Token>> for Input {
    /// Wraps a token sequence with the read position at its start.
    fn from(value: Vec<Token>) -> (r: Input)
        ensures
            r.toks() == value@,
            r.pos() == 0,
            r.wf(),
    {
        Input { index: 0, tokens: value }
    }
}

impl vstd::std_specs::convert::FromSpecImpl<Vec<Token>> for Input {
    open spec fn obeys_from_spec() -> bool {
        true
    }

    open spec fn from_spec(t: Vec<Token>) -> Input {
        input_from_spec(t)
    }
}

/// The span of the last consumed token — what an end-of-input report is
/// pinned to — or the neutral span if nothing was ever consumed.
pub open spec fn last_span(ts: Seq<Token>, i: int) -> Span {
    if i == 0 {
        neutral_span()
    } else {
        span_of(ts[i - 1])
    }
}

/// The message reported when the input ends before the grammar does.
pub open spec fn msg_ended() -> Seq<char> {
    "Proc macro ended early"@
}

/// The message reported for a token of the wrong kind.
pub open spec fn msg_invalid() -> Seq<char> {
    "Invalid token found"@
}

/// The name of the host language's error-reporting primitive.
pub open spec fn err_macro_name() -> Seq<char> {
    "compile"@ + "_error"@
}

/// Builds the name of the host language's error-reporting primitive.
pub fn err_macro_ident() -> (r: String)
    ensures
        r@ == err_macro_name(),
{
    let mut name = String::from_str("compile");
    name.append("_error");
    name
}

/// `ts` is a diagnostic fragment: an invocation of the host language's
/// error-reporting primitive, every token pinned to span `sp` and the
/// message encoded as a string literal.
pub open spec fn is_error_fragment(ts: Seq<Token>, sp: Span, msg: Seq<char>) -> bool {
    &&& ts.len() == 8
    &&& is_punct_tok(ts[0], ':', true, sp)
    &&& is_punct_tok(ts[1], ':', false, sp)
    &&& is_ident_tok(ts[2], "core"@, sp)
    &&& is_punct_tok(ts[3], ':', true, sp)
    &&& is_punct_tok(ts[4], ':', false, sp)
    &&& is_ident_tok(ts[5], err_macro_name(), sp)
    &&& is_punct_tok(ts[6], '!', false, sp)
    &&& match ts[7] {
        Token::Group { delim, tokens, span } => {
            &&& delim == Delim::Paren
            &&& span == sp
            &&& tokens@.len() == 1
            &&& is_lit_tok(tokens@[0], lit_repr_of(msg), sp)
        },
        _ => false,
    }
}

/// Builds the diagnostic fragment invoking the error-reporting primitive
/// with message `m`, every token pinned to `span`.
pub fn error_fragment(span: Span, m: &str) -> (r: Vec<Token>)
    ensures
        is_error_fragment(r@, span, m@),
{
    let mut inner: Vec<Token> = Vec::new();
    inner.push(Token::Literal { repr: encode_str_lit(m), span });
    let mut out: Vec<Token> = Vec::new();
    out.push(Token::Punct { ch: ':', joint: true, span });
    out.push(Token::Punct { ch: ':', joint: false, span });
    out.push(Token::Ident { name: String::from_str("core"), span });
    out.push(Token::Punct { ch: ':', joint: true, span });
    out.push(Token::Punct { ch: ':', joint: false, span });
    out.push(Token::Ident { name: err_macro_ident(), span });
    out.push(Token::Punct { ch: '!', joint: false, span });
    out.push(Token::Group { delim: Delim::Paren, tokens: inner, span });
    out
}

/// The outcome of one extraction attempt. Exactly one of: a decoded value
/// (the cursor advanced by one token), end of input (with the span of the
/// last consumed token), a token of the wrong kind (with its span), or a
/// literal that does not decode (with the pre-rendered diagnostic).
pub enum Extracted<T> {
    Right(T),
    Ended(Span),
    WrongToken(Span),
    ParseError(Vec<Token>),
}

impl<T> Extracted<T> {
    /// Lowers a failed extraction to its diagnostic fragment; a successful
    /// one passes through as `Ok`.
    pub fn into_err(self) -> (r: Result<T, Vec<Token>>)
        ensures
            match self {
                Extracted::Right(t) => r matches Ok(t2) && t2 == t,
                Extracted::Ended(sp) => r matches Err(d) && is_error_fragment(
                    d@,
                    sp,
                    msg_ended(),
                ),
                Extracted::WrongToken(sp) => r matches Err(d) && is_error_fragment(
                    d@,
                    sp,
                    msg_invalid(),
                ),
                Extracted::ParseError(d0) => r matches Err(d) && d == d0,
            },
    {
        match self {
            Extracted::Right(t) => Ok(t),
            Extracted::Ended(span) => Err(error_fragment(span, "Proc macro ended early")),
            Extracted::WrongToken(span) => Err(error_fragment(span, "Invalid token found")),
            Extracted::ParseError(d) => Err(d),
        }
    }
}

impl Input {
    /// Extracts a string literal at the read position: on success the cursor
    /// advances and the literal's decoded value is returned; otherwise the
    /// cursor stands still and the outcome says what went wrong.
    pub fn extract_str(&mut self) -> (r: Extracted<String>)
        requires
            old(self).wf(),
        ensures
            final(self).wf(),
            final(self).toks() == old(self).toks(),
            ({
                let ts = old(self).toks();
                let i = old(self).pos();
                if i == ts.len() {
                    &&& r matches Extracted::Ended(sp)
                    &&& sp == last_span(ts, i)
                    &&& final(self).pos() == i
                } else {
                    match ts[i] {
                        Token::Literal { repr, span } => match str_lit_decoded(repr@) {
                            Ok(v) => {
                                &&& r matches Extracted::Right(s)
                                &&& s@ == v
                                &&& final(self).pos() == i + 1
                            },
                            Err(m) => {
                                &&& r matches Extracted::ParseError(d)
                                &&& is_error_fragment(d@, span, m)
                                &&& final(self).pos() == i
                            },
                        },
                        _ => {
                            &&& r matches Extracted::WrongToken(sp)
                            &&& sp == span_of(ts[i])
                            &&& final(self).pos() == i
                        },
                    }
                }
            }),
    {
        if self.index >= self.tokens.len() {
            let sp = if self.index == 0 {
                Span::neutral()
            } else {
                self.tokens[self.index - 1].span()
            };
            return Extracted::Ended(sp);
        }
        let t = &self.tokens[self.index];
        match t {
            Token::Literal { repr, span } => {
                match parse_str_lit(repr.as_str()) {
                    Ok(s) => {
                        self.index = self.index + 1;
                        Extracted::Right(s)
                    },
                    Err(m) => Extracted::ParseError(error_fragment(*span, m.as_str())),
                }
            },
            _ => Extracted::WrongToken(t.span()),
        }
    }

    /// Extracts a single punctuation token for `ch` at the read position:
    /// on a match the cursor advances; otherwise it stands still and the
    /// outcome says what went wrong.
    pub fn extract_punct(&mut self, ch: char) -> (r: Extracted<()>)
        requires
            old(self).wf(),
        ensures
            final(self).wf(),
            final(self).toks() == old(self).toks(),
            ({
                let ts = old(self).toks();
                let i = old(self).pos();
                if i == ts.len() {
                    &&& r matches Extracted::Ended(sp)
                    &&& sp == last_span(ts, i)
                    &&& final(self).pos() == i
                } else {
                    match ts[i] {
                        Token::Punct { ch: c, joint, span } => if c == ch {
                            &&& r matches Extracted::Right(u)
                            &&& final(self).pos() == i + 1
                        } else {
                            &&& r matches Extracted::WrongToken(sp)
                            &&& sp == span
                            &&& final(self).pos() == i
                        },
                        _ => {
                            &&& r matches Extracted::WrongToken(sp)
                            &&& sp == span_of(ts[i])
                            &&& final(self).pos() == i
                        },
                    }
                }
            }),
    {
        if self.index >= self.tokens.len() {
            let sp = if self.index == 0 {
                Span::neutral()
            } else {
                self.tokens[self.index - 1].span()
            };
            return Extracted::Ended(sp);
        }
        let t = &self.tokens[self.index];
        match t {
            Token::Punct { ch: c, joint, span } => {
                if *c == ch {
                    self.index = self.index + 1;
                    Extracted::Right(())
                } else {
                    Extracted::WrongToken(*span)
                }
            },
            _ => Extracted::WrongToken(t.span()),
        }
    }
}

} // verus!

//! Compile-time regex search over a fixed two-argument invocation.
//!
//! The library takes the token sequence of an invocation of the shape
//! `"pattern", "haystack"`, validates that grammar, searches the haystack
//! with the pattern through an external regex engine, and synthesizes a
//! bracketed list of string literals holding the matched substrings — or,
//! on any defect in the invocation, a diagnostic fragment pinned to the
//! offending source location.
use vstd::prelude::*;

pub mod search;
pub mod strlit;
pub mod token;
pub mod utils;

use crate::search::{compile_pattern, find_matches, regex_compiled, regex_err_of, regex_matches};
use crate::strlit::{encode_str_lit, lit_repr_of, str_lit_decoded};
use crate::token::{is_lit_tok, is_punct_tok, leaf_eq, neutral_span, span_of, tok_eq, toks_eq, Delim, Span, Token};
use crate::utils::{is_error_fragment, last_span, msg_ended, msg_invalid, Input};

verus! {

/// The token at position `i` is a literal whose text decodes as a string
/// literal.
pub open spec fn lit_ok(ts: Seq<Token>, i: int) -> bool {
    match ts[i] {
        Token::Literal { repr, span } => str_lit_decoded(repr@) is Ok,
        _ => false,
    }
}

/// The decoded value of the string literal at position `i`.
pub open spec fn lit_val(ts: Seq<Token>, i: int) -> Seq<char> {
    match ts[i] {
        Token::Literal { repr, span } => match str_lit_decoded(repr@) {
            Ok(v) => v,
            Err(m) => Seq::empty(),
        },
        _ => Seq::empty(),
    }
}

/// The decode error for the literal at position `i`.
pub open spec fn lit_err(ts: Seq<Token>, i: int) -> Seq<char> {
    match ts[i] {
        Token::Literal { repr, span } => match str_lit_decoded(repr@) {
            Ok(v) => Seq::empty(),
            Err(m) => m,
        },
        _ => Seq::empty(),
    }
}

/// The token at position `i` is the expected single comma.
pub open spec fn comma_ok(ts: Seq<Token>, i: int) -> bool {
    match ts[i] {
        Token::Punct { ch, joint, span } => ch == ',',
        _ => false,
    }
}

/// The invocation read from position `i` fits the grammar
/// `STRING , STRING`: two decodable string literals around a comma.
/// Trailing tokens after the second literal are never inspected.
pub open spec fn args_ok(ts: Seq<Token>, i: int) -> bool {
    &&& i != ts.len() && ts[i] is Literal && lit_ok(ts, i)
    &&& i + 1 != ts.len() && comma_ok(ts, i + 1)
    &&& i + 2 != ts.len() && ts[i + 2] is Literal && lit_ok(ts, i + 2)
}

/// The translation read from position `i` succeeds: the grammar fits and
/// the pattern compiles.
pub open spec fn translation_succeeds(ts: Seq<Token>, i: int) -> bool {
    args_ok(ts, i) && regex_compiled(lit_val(ts, i)) is Ok
}

/// `toks` is the body of a successful output: for each match, in order, a
/// string literal holding the matched text followed by a comma, all at the
/// neutral span.
pub open spec fn is_match_list(toks: Seq<Token>, ms: Seq<Seq<char>>) -> bool {
    &&& toks.len() == 2 * ms.len()
    &&& forall|j: int|
        0 <= j < ms.len() ==> is_lit_tok(#[trigger] toks[2 * j], lit_repr_of(ms[j]), neutral_span())
    &&& forall|j: int|
        0 <= j < ms.len() ==> is_punct_tok(#[trigger] toks[2 * j + 1], ',', false, neutral_span())
}

/// `out` is the successful output for match texts `ms`: one bracket group
/// holding the comma-terminated list of string literals.
pub open spec fn is_success_output(out: Seq<Token>, ms: Seq<Seq<char>>) -> bool {
    &&& out.len() == 1
    &&& match out[0] {
        Token::Group { delim, tokens, span } => {
            &&& delim == Delim::Bracket
            &&& span == neutral_span()
            &&& is_match_list(tokens@, ms)
        },
        _ => false,
    }
}

/// The translation of the invocation read from position `i` of `ts`,
/// strictly sequential and short-circuiting on the first failure: pattern
/// literal, comma, haystack literal, pattern compilation, then the match
/// list. `Ok` carries the bracketed output, `Err` the diagnostic fragment.
pub open spec fn is_translation_from(
    ts: Seq<Token>,
    i: int,
    r: Result<Seq<Token>, Seq<Token>>,
) -> bool {
    if i == ts.len() {
        r matches Err(d) && is_error_fragment(d, last_span(ts, i), msg_ended())
    } else if !(ts[i] is Literal) {
        r matches Err(d) && is_error_fragment(d, span_of(ts[i]), msg_invalid())
    } else if !lit_ok(ts, i) {
        r matches Err(d) && is_error_fragment(d, span_of(ts[i]), lit_err(ts, i))
    } else if i + 1 == ts.len() {
        r matches Err(d) && is_error_fragment(d, span_of(ts[i]), msg_ended())
    } else if !comma_ok(ts, i + 1) {
        r matches Err(d) && is_error_fragment(d, span_of(ts[i + 1]), msg_invalid())
    } else if i + 2 == ts.len() {
        r matches Err(d) && is_error_fragment(d, span_of(ts[i + 1]), msg_ended())
    } else if !(ts[i + 2] is Literal) {
        r matches Err(d) && is_error_fragment(d, span_of(ts[i + 2]), msg_invalid())
    } else if !lit_ok(ts, i + 2) {
        r matches Err(d) && is_error_fragment(d, span_of(ts[i + 2]), lit_err(ts, i + 2))
    } else if regex_compiled(lit_val(ts, i)) is Err {
        r matches Err(d) && is_error_fragment(d, neutral_span(), regex_err_of(lit_val(ts, i)))
    } else {
        r matches Ok(out) && is_success_output(
            out,
            regex_matches(lit_val(ts, i), lit_val(ts, i + 2)),
        )
    }
}

/// The translation of a whole invocation: `out` is the successful bracketed
/// match list where the invocation is well formed and its pattern compiles,
/// and the appropriate diagnostic fragment otherwise.
pub open spec fn is_translation(ts: Seq<Token>, out: Seq<Token>) -> bool {
    if translation_succeeds(ts, 0) {
        is_translation_from(ts, 0, Ok(out))
    } else {
        is_translation_from(ts, 0, Err(out))
    }
}

/// Lifts a result of token vectors to a result of their views.
pub open spec fn res_view(r: Result<Vec<Token>, Vec<Token>>) -> Result<Seq<Token>, Seq<Token>> {
    match r {
        Ok(v) => Ok(v@),
        Err(v) => Err(v@),
    }
}

fn inner(input: &mut Input) -> (r: Result<Vec<Token>, Vec<Token>>)
    requires
        old(input).wf(),
    ensures
        final(input).wf(),
        final(input).toks() == old(input).toks(),
        is_translation_from(old(input).toks(), old(input).pos(), res_view(r)),
{
    let re_s = match input.extract_str().into_err() {
        Ok(s) => s,
        Err(d) => {
            return Err(d);
        },
    };
    match input.extract_punct(',').into_err() {
        Ok(u) => (),
        Err(d) => {
            return Err(d);
        },
    };
    let haystack = match input.extract_str().into_err() {
        Ok(s) => s,
        Err(d) => {
            return Err(d);
        },
    };
    let compiled = match compile_pattern(re_s.as_str()) {
        Ok(re) => re,
        Err(msg) => {
            return Err(crate::utils::error_fragment(Span::neutral(), msg.as_str()));
        },
    };
    let found = find_matches(&compiled, haystack.as_str());
    let ghost ms = found.deep_view();
    let mut tokens: Vec<Token> = Vec::new();
    let mut k: usize = 0;
    while k < found.len()
        invariant
            k <= found.len(),
            ms == found.deep_view(),
            is_match_list(tokens@, ms.take(k as int)),
        decreases found.len() - k,
    {
        let sp = Span::neutral();
        tokens.push(Token::Literal { repr: encode_str_lit(found[k].as_str()), span: sp });
        tokens.push(Token::Punct { ch: ',', joint: false, span: sp });
        proof {
            assert(ms.take(k + 1) =~= ms.take(k as int).push(ms[k as int]));
            assert(tokens@[2 * (k as int)] == tokens@[tokens@.len() - 2]);
            assert(is_match_list(tokens@, ms.take(k + 1)));
        }
        k += 1;
    }
    proof {
        assert(ms.take(found.len() as int) =~= ms);
    }
    let mut out: Vec<Token> = Vec::new();
    out.push(Token::Group { delim: Delim::Bracket, tokens, span: Span::neutral() });
    Ok(out)
}

/// Two diagnostic fragments for the same span and message render
/// identically.
proof fn lemma_fragment_deterministic(d1: Seq<Token>, d2: Seq<Token>, sp: Span, msg: Seq<char>)
    requires
        is_error_fragment(d1, sp, msg),
        is_error_fragment(d2, sp, msg),
    ensures
        toks_eq(d1, d2),
{
    assert forall|j: int| 0 <= j < d1.len() implies tok_eq(#[trigger] d1[j], d2[j]) by {
        if j == 7 {
            assert(tok_eq(d1[7], d2[7]));
        }
    }
}

/// Two successful outputs for the same match texts render identically.
proof fn lemma_success_deterministic(o1: Seq<Token>, o2: Seq<Token>, ms: Seq<Seq<char>>)
    requires
        is_success_output(o1, ms),
        is_success_output(o2, ms),
    ensures
        toks_eq(o1, o2),
{
    match (o1[0], o2[0]) {
        (
            Token::Group { delim: e1, tokens: t1, span: s1 },
            Token::Group { delim: e2, tokens: t2, span: s2 },
        ) => {
            assert forall|j: int| 0 <= j < t1@.len() implies leaf_eq(#[trigger] t1@[j], t2@[j]) by {
                let h = j / 2;
                if j % 2 == 0 {
                    assert(j == 2 * h);
                    assert(is_lit_tok(t1@[2 * h], lit_repr_of(ms[h]), neutral_span()));
                    assert(is_lit_tok(t2@[2 * h], lit_repr_of(ms[h]), neutral_span()));
                } else {
                    assert(j == 2 * h + 1);
                    assert(is_punct_tok(t1@[2 * h + 1], ',', false, neutral_span()));
                    assert(is_punct_tok(t2@[2 * h + 1], ',', false, neutral_span()));
                }
            }
            assert(tok_eq(o1[0], o2[0]));
        },
        _ => {},
    }
}

/// Re-running the translation on the same invocation yields an identical
/// output: any two outputs that the translation relation admits for one
/// token sequence render token for token the same.
pub proof fn lemma_translation_deterministic(ts: Seq<Token>, out1: Seq<Token>, out2: Seq<Token>)
    requires
        is_translation(ts, out1),
        is_translation(ts, out2),
    ensures
        toks_eq(out1, out2),
{
    if translation_succeeds(ts, 0) {
        lemma_success_deterministic(out1, out2, regex_matches(lit_val(ts, 0), lit_val(ts, 2)));
    } else if 0 == ts.len() {
        lemma_fragment_deterministic(out1, out2, last_span(ts, 0), msg_ended());
    } else if !(ts[0] is Literal) {
        lemma_fragment_deterministic(out1, out2, span_of(ts[0]), msg_invalid());
    } else if !lit_ok(ts, 0) {
        lemma_fragment_deterministic(out1, out2, span_of(ts[0]), lit_err(ts, 0));
    } else if 1 == ts.len() {
        lemma_fragment_deterministic(out1, out2, span_of(ts[0]), msg_ended());
    } else if !comma_ok(ts, 1) {
        lemma_fragment_deterministic(out1, out2, span_of(ts[1]), msg_invalid());
    } else if 2 == ts.len() {
        lemma_fragment_deterministic(out1, out2, span_of(ts[1]), msg_ended());
    } else if !(ts[2] is Literal) {
        lemma_fragment_deterministic(out1, out2, span_of(ts[2]), msg_invalid());
    } else if !lit_ok(ts, 2) {
        lemma_fragment_deterministic(out1, out2, span_of(ts[2]), lit_err(ts, 2));
    } else {
        lemma_fragment_deterministic(out1, out2, neutral_span(), regex_err_of(lit_val(ts, 0)));
    }
}

/// The source text of the `j`-th match literal in a successful output.
pub open spec fn output_lit_repr(out: Seq<Token>, j: int) -> Seq<char> {
    match out[0] {
        Token::Group { delim, tokens, span } => match tokens@[2 * j] {
            Token::Literal { repr, span: sp2 } => repr@,
            _ => Seq::empty(),
        },
        _ => Seq::empty(),
    }
}

/// Round trip: each literal in a successful output decodes back to exactly
/// the matched text it was synthesized from, so re-searching the haystack
/// with the pattern reproduces the decoded match set.
pub proof fn lemma_output_roundtrip(out: Seq<Token>, ms: Seq<Seq<char>>)
    requires
        is_success_output(out, ms),
    ensures
        forall|j: int|
            0 <= j < ms.len() ==> crate::strlit::decode_lit_repr(#[trigger] output_lit_repr(out, j))
                == Some(ms[j]),
{
    assert forall|j: int| 0 <= j < ms.len() implies crate::strlit::decode_lit_repr(
        #[trigger] output_lit_repr(out, j),
    ) == Some(ms[j]) by {
        match out[0] {
            Token::Group { delim, tokens, span } => {
                assert(is_lit_tok(tokens@[2 * j], lit_repr_of(ms[j]), neutral_span()));
                assert(output_lit_repr(out, j) == lit_repr_of(ms[j]));
                crate::strlit::lemma_decode_encode(ms[j]);
            },
            _ => {},
        }
    }
}

/// Boundary: a successful translation with zero matches — in particular an
/// empty haystack searched with a pattern that cannot match empty text —
/// yields exactly the empty bracketed output.
pub proof fn lemma_zero_matches_output(ts: Seq<Token>, out: Seq<Token>)
    requires
        is_translation(ts, out),
        translation_succeeds(ts, 0),
        regex_matches(lit_val(ts, 0), lit_val(ts, 2)).len() == 0,
    ensures
        out.len() == 1,
        out[0] matches Token::Group { delim, tokens, span } ==> tokens@.len() == 0,
        out[0] is Group,
{
}

/// Boundary: a pattern whose single match is the whole haystack yields the
/// one-element bracketed output holding exactly the haystack.
pub proof fn lemma_whole_haystack_output(ts: Seq<Token>, out: Seq<Token>)
    requires
        is_translation(ts, out),
        translation_succeeds(ts, 0),
        regex_matches(lit_val(ts, 0), lit_val(ts, 2)) =~= seq![lit_val(ts, 2)],
    ensures
        out.len() == 1,
        out[0] matches Token::Group { delim, tokens, span } ==> {
            &&& tokens@.len() == 2
            &&& is_lit_tok(tokens@[0], lit_repr_of(lit_val(ts, 2)), neutral_span())
            &&& is_punct_tok(tokens@[1], ',', false, neutral_span())
        },
        out[0] is Group,
{
    let ms = regex_matches(lit_val(ts, 0), lit_val(ts, 2));
    assert(is_success_output(out, ms));
    match out[0] {
        Token::Group { delim, tokens, span } => {
            assert(is_lit_tok(tokens@[2 * 0int], lit_repr_of(ms[0]), neutral_span()));
            assert(is_punct_tok(tokens@[2 * 0int + 1], ',', false, neutral_span()));
        },
        _ => {},
    }
}

/// Translates one invocation: validates the grammar `STRING , STRING`,
/// searches the haystack with the pattern, and returns the bracketed list
/// of matched substrings — or, on any defect, the diagnostic fragment for
/// the first failure.
pub fn cotirema(input: Vec<Token>) -> (r: Vec<Token>)
    ensures
        is_translation(input@, r@),
{
    let ghost given = input;
    let mut cursor = Input::from(input);
    proof {
        crate::utils::lemma_input_from_spec(given);
    }
    match inner(&mut cursor) {
        Ok(tt) => tt,
        Err(tt) => tt,
    }
}

} // verus!
